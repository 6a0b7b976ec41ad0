//! The idempotency registry: which external transaction ids have been
//! applied (and to which two identities), or are reserved while their
//! external verification is in flight.
//!
//! Reserving an id before the verification call and committing it only after
//! a successful classification closes the window in which two settle calls
//! carrying the same id could both pass the check.

use vstd::prelude::*;
use crate::identity::{opt_id_view, Identity};

verus! {

/// The two parties a transaction id was applied to.
pub struct TxInfo {
    pub from: Option<Identity>,
    pub to: Option<Identity>,
}

pub struct TxInfoV {
    pub from: Option<Seq<char>>,
    pub to: Option<Seq<char>>,
}

impl View for TxInfo {
    type V = TxInfoV;

    open spec fn view(&self) -> TxInfoV {
        TxInfoV { from: opt_id_view(self.from), to: opt_id_view(self.to) }
    }
}

/// The state of a transaction id in the registry.
pub enum TxStatus {
    /// Reserved: a verification call is in flight.
    Pending,
    /// Applied to the recorded parties.
    Applied(TxInfo),
}

pub enum TxStatusV {
    Pending,
    Applied(TxInfoV),
}

impl View for TxStatus {
    type V = TxStatusV;

    open spec fn view(&self) -> TxStatusV {
        match self {
            TxStatus::Pending => TxStatusV::Pending,
            TxStatus::Applied(info) => TxStatusV::Applied(info@),
        }
    }
}

/// The registry value of a transaction applied between `from` and `to`.
pub open spec fn applied_status(from: Seq<char>, to: Seq<char>) -> TxStatusV {
    TxStatusV::Applied(TxInfoV { from: Some(from), to: Some(to) })
}

/// The map described by a sequence of id-status pairs, later pairs winning.
pub open spec fn ids_to_map(s: Seq<(u64, TxStatus)>) -> Map<u64, TxStatusV>
    decreases s.len(),
{
    if s.len() == 0 {
        Map::empty()
    } else {
        ids_to_map(s.drop_last()).insert(s.last().0, s.last().1@)
    }
}

/// Pairwise-distinct ids.
pub open spec fn distinct_ids(s: Seq<(u64, TxStatus)>) -> bool {
    forall|i: int, j: int| 0 <= i < j < s.len() ==> s[i].0 != s[j].0
}

pub proof fn lemma_ids_domain(s: Seq<(u64, TxStatus)>, k: u64)
    ensures
        ids_to_map(s).contains_key(k) <==> exists|i: int| 0 <= i < s.len() && s[i].0 == k,
    decreases s.len(),
{
    if s.len() > 0 {
        lemma_ids_domain(s.drop_last(), k);
        if s.last().0 != k {
            if ids_to_map(s).contains_key(k) {
                let i = choose|i: int| 0 <= i < s.drop_last().len() && s.drop_last()[i].0 == k;
                assert(s[i].0 == k);
            }
            if exists|i: int| 0 <= i < s.len() && s[i].0 == k {
                let i = choose|i: int| 0 <= i < s.len() && s[i].0 == k;
                assert(s.drop_last()[i].0 == k);
            }
        }
    }
}

pub proof fn lemma_ids_index(s: Seq<(u64, TxStatus)>, i: int)
    requires
        distinct_ids(s),
        0 <= i < s.len(),
    ensures
        ids_to_map(s).contains_key(s[i].0),
        ids_to_map(s)[s[i].0] == s[i].1@,
    decreases s.len(),
{
    if i == s.len() - 1 {
        lemma_ids_domain(s, s[i].0);
    } else {
        lemma_ids_index(s.drop_last(), i);
        assert(s.drop_last()[i] == s[i]);
    }
}

pub proof fn lemma_ids_remove(s: Seq<(u64, TxStatus)>, i: int)
    requires
        distinct_ids(s),
        0 <= i < s.len(),
    ensures
        ids_to_map(s.remove(i)) == ids_to_map(s).remove(s[i].0),
    decreases s.len(),
{
    let k = s[i].0;
    if i == s.len() - 1 {
        assert(s.remove(i) =~= s.drop_last());
        lemma_ids_domain(s.drop_last(), k);
        assert(ids_to_map(s.drop_last()).insert(k, s.last().1@).remove(k) =~= ids_to_map(
            s.drop_last(),
        ));
    } else {
        lemma_ids_remove(s.drop_last(), i);
        assert(s.remove(i).drop_last() =~= s.drop_last().remove(i));
        assert(s.remove(i).last() == s.last());
        assert(ids_to_map(s).remove(k) =~= ids_to_map(s.drop_last()).remove(k).insert(
            s.last().0,
            s.last().1@,
        ));
    }
}

/// The idempotency registry.
pub struct TxRegistry {
    pairs: Vec<(u64, TxStatus)>,
}

impl View for TxRegistry {
    type V = Map<u64, TxStatusV>;

    closed spec fn view(&self) -> Map<u64, TxStatusV> {
        ids_to_map(self.pairs@)
    }
}

impl TxRegistry {
    /// Well-formed: no transaction id occurs twice.
    pub closed spec fn wf(&self) -> bool {
        distinct_ids(self.pairs@)
    }

    /// The empty registry.
    pub fn new() -> (r: TxRegistry)
        ensures
            r.wf(),
            r@ == Map::<u64, TxStatusV>::empty(),
    {
        TxRegistry { pairs: Vec::new() }
    }

    fn index_of(&self, key: u64) -> (r: Option<usize>)
        ensures
            match r {
                Some(i) => i < self.pairs@.len() && self.pairs@[i as int].0 == key,
                None => forall|i: int| 0 <= i < self.pairs@.len() ==> self.pairs@[i].0 != key,
            },
    {
        let n = self.pairs.len();
        let mut i: usize = 0;
        while i < n
            invariant
                i <= n,
                n == self.pairs@.len(),
                forall|j: int| 0 <= j < i ==> self.pairs@[j].0 != key,
            decreases n - i,
        {
            if self.pairs[i].0 == key {
                return Some(i);
            }
            i = i + 1;
        }
        None
    }

    /// Whether `key` is present, whatever its status.
    pub fn contains_key(&self, key: u64) -> (r: bool)
        ensures
            r == self@.contains_key(key),
    {
        proof {
            lemma_ids_domain(self.pairs@, key);
        }
        self.index_of(key).is_some()
    }

    /// The status recorded under `key`, if any.
    pub fn get(&self, key: u64) -> (r: Option<&TxStatus>)
        requires
            self.wf(),
        ensures
            match r {
                Some(v) => self@.contains_key(key) && v@ == self@[key],
                None => !self@.contains_key(key),
            },
    {
        proof {
            lemma_ids_domain(self.pairs@, key);
        }
        match self.index_of(key) {
            Some(i) => {
                proof {
                    lemma_ids_index(self.pairs@, i as int);
                }
                Some(&self.pairs[i].1)
            },
            None => None,
        }
    }

    /// Records `value` under `key`, replacing any previous status.
    pub fn insert(&mut self, key: u64, value: TxStatus)
        requires
            old(self).wf(),
        ensures
            final(self).wf(),
            final(self)@ == old(self)@.insert(key, value@),
    {
        proof {
            lemma_ids_domain(self.pairs@, key);
        }
        match self.index_of(key) {
            Some(i) => {
                proof {
                    lemma_ids_remove(self.pairs@, i as int);
                }
                let ghost s0 = self.pairs@;
                let _old = self.pairs.remove(i);
                let ghost s1 = self.pairs@;
                self.pairs.push((key, value));
                proof {
                    assert(distinct_ids(s1)) by {
                        assert forall|a: int, b: int| 0 <= a < b < s1.len() implies s1[a].0
                            != s1[b].0 by {
                            let c = if a < i { a } else { a + 1 };
                            let d = if b < i { b } else { b + 1 };
                            assert(s1[a] == s0[c] && s1[b] == s0[d]);
                        }
                    }
                    lemma_ids_domain(s1, key);
                    assert(forall|j: int| 0 <= j < s1.len() ==> #[trigger] s1[j].0 != key) by {
                        assert forall|j: int| 0 <= j < s1.len() implies #[trigger] s1[j].0
                            != key by {
                            if j < i {
                                assert(s1[j] == s0[j]);
                            } else {
                                assert(s1[j] == s0[j + 1]);
                            }
                        }
                    }
                    assert(self.pairs@.drop_last() =~= s1);
                    assert(ids_to_map(s0).remove(key).insert(key, value@) =~= ids_to_map(
                        s0,
                    ).insert(key, value@));
                }
            },
            None => {
                let ghost s0 = self.pairs@;
                self.pairs.push((key, value));
                proof {
                    assert(self.pairs@.drop_last() =~= s0);
                }
            },
        }
    }

    /// Removes `key` from the registry.
    pub fn remove(&mut self, key: u64)
        requires
            old(self).wf(),
        ensures
            final(self).wf(),
            final(self)@ == old(self)@.remove(key),
    {
        proof {
            lemma_ids_domain(self.pairs@, key);
        }
        match self.index_of(key) {
            Some(i) => {
                proof {
                    lemma_ids_remove(self.pairs@, i as int);
                }
                let ghost s0 = self.pairs@;
                let _old = self.pairs.remove(i);
                proof {
                    let s1 = self.pairs@;
                    assert forall|a: int, b: int| 0 <= a < b < s1.len() implies s1[a].0
                        != s1[b].0 by {
                        let c = if a < i { a } else { a + 1 };
                        let d = if b < i { b } else { b + 1 };
                        assert(s1[a] == s0[c] && s1[b] == s0[d]);
                    }
                }
            },
            None => {
                proof {
                    assert(ids_to_map(self.pairs@).remove(key) =~= ids_to_map(self.pairs@));
                }
            },
        }
    }
}

} // verus!
