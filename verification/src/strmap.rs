//! A verified association map with textual keys.
//!
//! This is the storage substrate of the engine: an ordered-map interface
//! (`get` / `insert` returning the previous value / `remove` / `contains_key`
//! / `len`) over a vector of key-value pairs with pairwise-distinct keys.
//! Its abstract value is a `Map<Seq<char>, V::V>`.

use vstd::prelude::*;

verus! {

/// The map described by a sequence of key-value pairs, later pairs winning.
pub open spec fn kvs_to_map<V: View>(s: Seq<(String, V)>) -> Map<Seq<char>, V::V>
    decreases s.len(),
{
    if s.len() == 0 {
        Map::empty()
    } else {
        kvs_to_map(s.drop_last()).insert(s.last().0@, s.last().1@)
    }
}

/// Pairwise-distinct keys.
pub open spec fn distinct_keys<V>(s: Seq<(String, V)>) -> bool {
    forall|i: int, j: int| 0 <= i < j < s.len() ==> s[i].0@ != s[j].0@
}

pub proof fn lemma_kvs_domain<V: View>(s: Seq<(String, V)>, k: Seq<char>)
    ensures
        kvs_to_map(s).contains_key(k) <==> exists|i: int| 0 <= i < s.len() && s[i].0@ == k,
    decreases s.len(),
{
    if s.len() > 0 {
        lemma_kvs_domain(s.drop_last(), k);
        if s.last().0@ != k {
            if kvs_to_map(s).contains_key(k) {
                let i = choose|i: int| 0 <= i < s.drop_last().len() && s.drop_last()[i].0@ == k;
                assert(s[i].0@ == k);
            }
            if exists|i: int| 0 <= i < s.len() && s[i].0@ == k {
                let i = choose|i: int| 0 <= i < s.len() && s[i].0@ == k;
                assert(s.drop_last()[i].0@ == k);
            }
        }
    }
}

pub proof fn lemma_kvs_index<V: View>(s: Seq<(String, V)>, i: int)
    requires
        distinct_keys(s),
        0 <= i < s.len(),
    ensures
        kvs_to_map(s).contains_key(s[i].0@),
        kvs_to_map(s)[s[i].0@] == s[i].1@,
    decreases s.len(),
{
    if i == s.len() - 1 {
        lemma_kvs_domain(s, s[i].0@);
    } else {
        lemma_kvs_index(s.drop_last(), i);
        assert(s.drop_last()[i] == s[i]);
        assert(s.last().0@ != s[i].0@);
    }
}

pub proof fn lemma_kvs_remove<V: View>(s: Seq<(String, V)>, i: int)
    requires
        distinct_keys(s),
        0 <= i < s.len(),
    ensures
        kvs_to_map(s.remove(i)) == kvs_to_map(s).remove(s[i].0@),
    decreases s.len(),
{
    let k = s[i].0@;
    if i == s.len() - 1 {
        assert(s.remove(i) =~= s.drop_last());
        lemma_kvs_domain(s.drop_last(), k);
        assert(!kvs_to_map(s.drop_last()).contains_key(k));
        assert(kvs_to_map(s.drop_last()).insert(k, s.last().1@).remove(k) =~= kvs_to_map(
            s.drop_last(),
        ));
    } else {
        lemma_kvs_remove(s.drop_last(), i);
        assert(s.remove(i).drop_last() =~= s.drop_last().remove(i));
        assert(s.remove(i).last() == s.last());
        assert(kvs_to_map(s.remove(i)) == kvs_to_map(s.drop_last().remove(i)).insert(
            s.last().0@,
            s.last().1@,
        ));
        assert(kvs_to_map(s).remove(k) =~= kvs_to_map(s.drop_last()).remove(k).insert(
            s.last().0@,
            s.last().1@,
        ));
    }
}

pub proof fn lemma_kvs_len<V: View>(s: Seq<(String, V)>)
    requires
        distinct_keys(s),
    ensures
        kvs_to_map(s).dom().finite(),
        kvs_to_map(s).dom().len() == s.len(),
    decreases s.len(),
{
    if s.len() > 0 {
        lemma_kvs_len(s.drop_last());
        lemma_kvs_domain(s.drop_last(), s.last().0@);
        assert(!kvs_to_map(s.drop_last()).contains_key(s.last().0@));
        assert(kvs_to_map(s).dom() =~= kvs_to_map(s.drop_last()).dom().insert(s.last().0@));
    }
}

/// An association map from textual keys to values, with distinct keys.
pub struct StrMap<V> {
    pairs: Vec<(String, V)>,
}

impl<V: View> View for StrMap<V> {
    type V = Map<Seq<char>, V::V>;

    closed spec fn view(&self) -> Map<Seq<char>, V::V> {
        kvs_to_map(self.pairs@)
    }
}

impl<V: View> StrMap<V> {
    /// Well-formed: no two pairs share a key.
    pub closed spec fn wf(&self) -> bool {
        distinct_keys(self.pairs@)
    }

    /// The empty map.
    pub fn new() -> (r: StrMap<V>)
        ensures
            r.wf(),
            r@ == Map::<Seq<char>, V::V>::empty(),
    {
        StrMap { pairs: Vec::new() }
    }

    fn index_of(&self, key: &String) -> (r: Option<usize>)
        ensures
            match r {
                Some(i) => i < self.pairs@.len() && self.pairs@[i as int].0@ == key@,
                None => forall|i: int| 0 <= i < self.pairs@.len() ==> self.pairs@[i].0@ != key@,
            },
    {
        let n = self.pairs.len();
        let mut i: usize = 0;
        while i < n
            invariant
                i <= n,
                n == self.pairs@.len(),
                forall|j: int| 0 <= j < i ==> self.pairs@[j].0@ != key@,
            decreases n - i,
        {
            if self.pairs[i].0.eq(key) {
                return Some(i);
            }
            i = i + 1;
        }
        None
    }

    /// Whether `key` is present.
    pub fn contains_key(&self, key: &String) -> (r: bool)
        ensures
            r == self@.contains_key(key@),
    {
        proof {
            lemma_kvs_domain(self.pairs@, key@);
        }
        self.index_of(key).is_some()
    }

    /// The value stored under `key`, if any.
    pub fn get(&self, key: &String) -> (r: Option<&V>)
        requires
            self.wf(),
        ensures
            match r {
                Some(v) => self@.contains_key(key@) && v@ == self@[key@],
                None => !self@.contains_key(key@),
            },
    {
        proof {
            lemma_kvs_domain(self.pairs@, key@);
        }
        match self.index_of(key) {
            Some(i) => {
                proof {
                    lemma_kvs_index(self.pairs@, i as int);
                }
                Some(&self.pairs[i].1)
            },
            None => None,
        }
    }

    /// Stores `value` under `key`; returns the previous value, if any.
    pub fn insert(&mut self, key: String, value: V) -> (prev: Option<V>)
        requires
            old(self).wf(),
        ensures
            final(self).wf(),
            final(self)@ == old(self)@.insert(key@, value@),
            match prev {
                Some(p) => old(self)@.contains_key(key@) && p@ == old(self)@[key@],
                None => !old(self)@.contains_key(key@),
            },
    {
        proof {
            lemma_kvs_domain(self.pairs@, key@);
        }
        match self.index_of(&key) {
            Some(i) => {
                proof {
                    lemma_kvs_index(self.pairs@, i as int);
                    lemma_kvs_remove(self.pairs@, i as int);
                }
                let ghost s0 = self.pairs@;
                let (_old_key, old_val) = self.pairs.remove(i);
                let ghost s1 = self.pairs@;
                self.pairs.push((key, value));
                proof {
                    assert(distinct_keys(s1)) by {
                        assert forall|a: int, b: int| 0 <= a < b < s1.len() implies s1[a].0@
                            != s1[b].0@ by {
                            let c = if a < i { a } else { a + 1 };
                            let d = if b < i { b } else { b + 1 };
                            assert(s1[a] == s0[c] && s1[b] == s0[d]);
                        }
                    }
                    lemma_kvs_domain(s1, key@);
                    assert(forall|j: int| 0 <= j < s1.len() ==> #[trigger] s1[j].0@ != key@) by {
                        assert forall|j: int| 0 <= j < s1.len() implies #[trigger] s1[j].0@
                            != key@ by {
                            if j < i {
                                assert(s1[j] == s0[j]);
                            } else {
                                assert(s1[j] == s0[j + 1]);
                            }
                        }
                    }
                    assert(self.pairs@.drop_last() =~= s1);
                    assert(kvs_to_map(self.pairs@) == kvs_to_map(s1).insert(key@, value@));
                    assert(kvs_to_map(s1) == kvs_to_map(s0).remove(key@));
                    assert(kvs_to_map(s0).remove(key@).insert(key@, value@) =~= kvs_to_map(
                        s0,
                    ).insert(key@, value@));
                }
                Some(old_val)
            },
            None => {
                let ghost s0 = self.pairs@;
                self.pairs.push((key, value));
                proof {
                    assert(self.pairs@.drop_last() =~= s0);
                }
                None
            },
        }
    }

    /// Removes `key`; returns the value that was stored under it, if any.
    pub fn remove(&mut self, key: &String) -> (prev: Option<V>)
        requires
            old(self).wf(),
        ensures
            final(self).wf(),
            final(self)@ == old(self)@.remove(key@),
            match prev {
                Some(p) => old(self)@.contains_key(key@) && p@ == old(self)@[key@],
                None => !old(self)@.contains_key(key@),
            },
    {
        proof {
            lemma_kvs_domain(self.pairs@, key@);
        }
        match self.index_of(key) {
            Some(i) => {
                proof {
                    lemma_kvs_index(self.pairs@, i as int);
                    lemma_kvs_remove(self.pairs@, i as int);
                }
                let ghost s0 = self.pairs@;
                let (_old_key, old_val) = self.pairs.remove(i);
                proof {
                    let s1 = self.pairs@;
                    assert(distinct_keys(s1)) by {
                        assert forall|a: int, b: int| 0 <= a < b < s1.len() implies s1[a].0@
                            != s1[b].0@ by {
                            let c = if a < i { a } else { a + 1 };
                            let d = if b < i { b } else { b + 1 };
                            assert(s1[a] == s0[c] && s1[b] == s0[d]);
                        }
                    }
                }
                Some(old_val)
            },
            None => {
                proof {
                    assert(kvs_to_map(self.pairs@).remove(key@) =~= kvs_to_map(self.pairs@));
                }
                None
            },
        }
    }

    /// How many keys are stored.
    pub fn len(&self) -> (r: usize)
        requires
            self.wf(),
        ensures
            r == self@.dom().len(),
    {
        proof {
            lemma_kvs_len(self.pairs@);
        }
        self.pairs.len()
    }
}

} // verus!
