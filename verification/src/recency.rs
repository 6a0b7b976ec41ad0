//! A per-owner recency index: a set of `(last_activity, target_id)` pairs
//! kept in ascending order of `last_activity`, so that the most recent
//! targets sit at the end.
//!
//! The invariant maintained across the engine is that the pair stored for a
//! target always carries that target's current `last_activity`; moving a
//! target to a new recency key is done by removing the old pair and
//! inserting the new one.

use vstd::prelude::*;

verus! {

/// Keys ascend (ties in any order).
pub open spec fn rec_sorted(s: Seq<(u64, Seq<char>)>) -> bool {
    forall|i: int, j: int| 0 <= i < j < s.len() ==> s[i].0 <= s[j].0
}

/// No pair occurs twice.
pub open spec fn rec_distinct(s: Seq<(u64, Seq<char>)>) -> bool {
    forall|i: int, j: int| 0 <= i < j < s.len() ==> s[i] != s[j]
}

/// `post` is `pre` with the pair `p` added (and nothing else changed).
pub open spec fn rec_added(
    pre: Seq<(u64, Seq<char>)>,
    post: Seq<(u64, Seq<char>)>,
    p: (u64, Seq<char>),
) -> bool {
    rec_sorted(post) && rec_distinct(post) && (forall|q: (u64, Seq<char>)| #[trigger]
        post.contains(q) <==> (pre.contains(q) || q == p))
}

/// `post` is `pre` with the pair `out` taken out and the pair `inn` put in.
pub open spec fn rec_moved(
    pre: Seq<(u64, Seq<char>)>,
    post: Seq<(u64, Seq<char>)>,
    out: (u64, Seq<char>),
    inn: (u64, Seq<char>),
) -> bool {
    rec_sorted(post) && rec_distinct(post) && (forall|q: (u64, Seq<char>)| #[trigger]
        post.contains(q) <==> ((pre.contains(q) && q != out) || q == inn))
}

/// Moving the same pair out and in a second time changes nothing more.
pub proof fn lemma_rec_moved_compose(
    a: Seq<(u64, Seq<char>)>,
    b: Seq<(u64, Seq<char>)>,
    c: Seq<(u64, Seq<char>)>,
    out: (u64, Seq<char>),
    inn: (u64, Seq<char>),
)
    requires
        rec_moved(a, b, out, inn),
        rec_moved(b, c, out, inn),
    ensures
        rec_moved(a, c, out, inn),
{
    assert forall|q: (u64, Seq<char>)| #[trigger]
        c.contains(q) <==> ((a.contains(q) && q != out) || q == inn) by {
        assert(c.contains(q) <==> ((b.contains(q) && q != out) || q == inn));
        assert(b.contains(q) <==> ((a.contains(q) && q != out) || q == inn));
    }
}

/// A recency-ordered set of `(last_activity, target_id)` pairs.
pub struct RecencyIndex {
    entries: Vec<(u64, String)>,
}

impl View for RecencyIndex {
    type V = Seq<(u64, Seq<char>)>;

    closed spec fn view(&self) -> Seq<(u64, Seq<char>)> {
        Seq::new(self.entries@.len(), |i: int| (self.entries@[i].0, self.entries@[i].1@))
    }
}

impl RecencyIndex {
    /// Well-formed: ascending keys, no repeated pair.
    pub open spec fn wf(&self) -> bool {
        rec_sorted(self@) && rec_distinct(self@)
    }

    /// The empty index.
    pub fn new() -> (r: RecencyIndex)
        ensures
            r.wf(),
            r@ == Seq::<(u64, Seq<char>)>::empty(),
    {
        let r = RecencyIndex { entries: Vec::new() };
        proof {
            assert(r@ =~= Seq::<(u64, Seq<char>)>::empty());
        }
        r
    }

    /// How many pairs are stored.
    pub fn len(&self) -> (r: usize)
        ensures
            r == self@.len(),
    {
        self.entries.len()
    }

    /// The recency key of the pair at position `i`.
    pub fn key_at(&self, i: usize) -> (r: u64)
        requires
            i < self@.len(),
        ensures
            r == self@[i as int].0,
    {
        self.entries[i].0
    }

    /// The target id of the pair at position `i`.
    pub fn id_at(&self, i: usize) -> (r: &String)
        requires
            i < self@.len(),
        ensures
            r@ == self@[i as int].1,
    {
        &self.entries[i].1
    }

    fn find(&self, key: u64, id: &String) -> (r: Option<usize>)
        ensures
            match r {
                Some(i) => i < self@.len() && self@[i as int] == (key, id@),
                None => !self@.contains((key, id@)),
            },
    {
        let n = self.entries.len();
        let mut i: usize = 0;
        while i < n
            invariant
                i <= n,
                n == self@.len(),
                forall|j: int| 0 <= j < i ==> self@[j] != (key, id@),
            decreases n - i,
        {
            if self.entries[i].0 == key && self.entries[i].1.eq(id) {
                return Some(i);
            }
            i = i + 1;
        }
        proof {
            if self@.contains((key, id@)) {
                let j = choose|j: int| 0 <= j < self@.len() && self@[j] == (key, id@);
            }
        }
        None
    }

    /// Whether the pair `(key, id)` is present.
    pub fn contains_pair(&self, key: u64, id: &String) -> (r: bool)
        ensures
            r == self@.contains((key, id@)),
    {
        match self.find(key, id) {
            Some(i) => {
                proof {
                    assert(self@.contains((key, id@)));
                }
                true
            },
            None => false,
        }
    }

    /// Inserts the pair `(key, id)`; a pair already present is left alone.
    pub fn insert_pair(&mut self, key: u64, id: String) -> (added: bool)
        requires
            old(self).wf(),
        ensures
            final(self).wf(),
            added == !old(self)@.contains((key, id@)),
            forall|p: (u64, Seq<char>)| #[trigger]
                final(self)@.contains(p) <==> (old(self)@.contains(p) || p == (key, id@)),
            !added ==> final(self)@ == old(self)@,
    {
        if self.contains_pair(key, &id) {
            return false;
        }
        let n = self.entries.len();
        let mut pos: usize = 0;
        while pos < n && self.entries[pos].0 <= key
            invariant
                pos <= n,
                n == self@.len(),
                forall|j: int| 0 <= j < pos ==> self@[j].0 <= key,
            decreases n - pos,
        {
            pos = pos + 1;
        }
        let ghost s0 = self@;
        proof {
            assert(pos == n || s0[pos as int].0 > key);
        }
        self.entries.insert(pos, (key, id));
        proof {
            let s1 = self@;
            let x = (key, id@);
            assert(s1 =~= s0.insert(pos as int, x));
            assert forall|i: int, j: int| 0 <= i < j < s1.len() implies s1[i].0 <= s1[j].0 by {
                if i < pos && j == pos {
                    assert(s1[i] == s0[i]);
                } else if i == pos && j > pos {
                    assert(s1[j] == s0[j - 1] && j - 1 >= pos);
                } else if i < pos && j > pos {
                    assert(s1[i] == s0[i] && s1[j] == s0[j - 1]);
                } else if i > pos {
                    assert(s1[i] == s0[i - 1] && s1[j] == s0[j - 1]);
                } else {
                    assert(s1[i] == s0[i] && s1[j] == s0[j]);
                }
            }
            assert forall|i: int, j: int| 0 <= i < j < s1.len() implies s1[i] != s1[j] by {
                if i == pos {
                    assert(s1[j] == s0[j - 1]);
                    assert(!s0.contains(x));
                } else if j == pos {
                    assert(s1[i] == s0[i]);
                    assert(!s0.contains(x));
                } else {
                    let a = if i < pos { i } else { i - 1 };
                    let b = if j < pos { j } else { j - 1 };
                    assert(s1[i] == s0[a] && s1[j] == s0[b]);
                }
            }
            assert forall|p: (u64, Seq<char>)| #[trigger]
                s1.contains(p) <==> (s0.contains(p) || p == x) by {
                if s1.contains(p) {
                    let i = choose|i: int| 0 <= i < s1.len() && s1[i] == p;
                    if i != pos {
                        let a = if i < pos { i } else { i - 1 };
                        assert(s0[a] == p);
                        assert(s0.contains(p));
                    }
                }
                if s0.contains(p) {
                    let i = choose|i: int| 0 <= i < s0.len() && s0[i] == p;
                    let b = if i < pos { i } else { i + 1 };
                    assert(s1[b] == p);
                    assert(s1.contains(p));
                }
                if p == x {
                    assert(s1[pos as int] == p);
                    assert(s1.contains(p));
                }
            }
        }
        true
    }

    /// Removes the pair `(key, id)`; reports whether it was present.
    pub fn remove_pair(&mut self, key: u64, id: &String) -> (removed: bool)
        requires
            old(self).wf(),
        ensures
            final(self).wf(),
            removed == old(self)@.contains((key, id@)),
            forall|p: (u64, Seq<char>)| #[trigger]
                final(self)@.contains(p) <==> (old(self)@.contains(p) && p != (key, id@)),
            !removed ==> final(self)@ == old(self)@,
    {
        let ghost x = (key, id@);
        match self.find(key, id) {
            Some(i) => {
                let ghost s0 = self@;
                self.entries.remove(i);
                proof {
                    let s1 = self@;
                    assert(s1 =~= s0.remove(i as int));
                    assert(s0.contains(x)) by {
                        assert(s0[i as int] == x);
                    }
                    assert forall|a: int, b: int| 0 <= a < b < s1.len() implies s1[a] != s1[b]
                        && s1[a].0 <= s1[b].0 by {
                        let c = if a < i { a } else { a + 1 };
                        let d = if b < i { b } else { b + 1 };
                        assert(s1[a] == s0[c] && s1[b] == s0[d]);
                    }
                    assert forall|p: (u64, Seq<char>)| #[trigger]
                        s1.contains(p) <==> (s0.contains(p) && p != x) by {
                        if s1.contains(p) {
                            let a = choose|a: int| 0 <= a < s1.len() && s1[a] == p;
                            let c = if a < i { a } else { a + 1 };
                            assert(s0[c] == p);
                            assert(s0.contains(p));
                            assert(c != i);
                            assert(p != x);
                        }
                        if s0.contains(p) && p != x {
                            let c = choose|c: int| 0 <= c < s0.len() && s0[c] == p;
                            assert(c != i);
                            let a = if c < i { c } else { c - 1 };
                            assert(s1[a] == p);
                            assert(s1.contains(p));
                        }
                    }
                }
                true
            },
            None => {
                proof {
                    assert forall|p: (u64, Seq<char>)| #[trigger]
                        self@.contains(p) <==> (self@.contains(p) && p != x) by {
                        if self@.contains(p) && p == x {
                            assert(false);
                        }
                    }
                }
                false
            },
        }
    }

    /// Moves the pair for `id` from key `out_key` to key `in_key`, as one
    /// logical step.
    pub fn reposition(&mut self, out_key: u64, in_key: u64, id: &String)
        requires
            old(self).wf(),
        ensures
            final(self).wf(),
            rec_moved(old(self)@, final(self)@, (out_key, id@), (in_key, id@)),
    {
        self.remove_pair(out_key, id);
        self.insert_pair(in_key, id.clone());
    }

    /// An owned copy of this index.
    pub fn duplicate(&self) -> (r: RecencyIndex)
        ensures
            r@ == self@,
    {
        let n = self.entries.len();
        let mut out: Vec<(u64, String)> = Vec::new();
        let mut i: usize = 0;
        while i < n
            invariant
                i <= n,
                n == self@.len(),
                out@.len() == i,
                forall|j: int| 0 <= j < i ==> (out@[j].0, out@[j].1@) == self@[j],
            decreases n - i,
        {
            out.push((self.entries[i].0, self.entries[i].1.clone()));
            i = i + 1;
        }
        let r = RecencyIndex { entries: out };
        proof {
            assert(r@ =~= self@);
        }
        r
    }
}

} // verus!
