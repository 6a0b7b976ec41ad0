//! Helpers for lists of textual values: abstract views, membership tests
//! and owned copies.

use vstd::prelude::*;

verus! {

/// The character sequences of a list of strings.
pub open spec fn deep_strs(s: Seq<String>) -> Seq<Seq<char>> {
    Seq::new(s.len(), |i: int| s[i]@)
}

/// The abstract values of a list.
pub open spec fn deep_view_seq<T: View>(s: Seq<T>) -> Seq<T::V> {
    Seq::new(s.len(), |i: int| s[i]@)
}

/// The character sequence of an optional string.
pub open spec fn opt_str_view(o: Option<String>) -> Option<Seq<char>> {
    match o {
        Some(s) => Some(s@),
        None => None,
    }
}

/// Membership in a sequence extended by one element.
pub proof fn lemma_contains_push<T>(s: Seq<T>, x: T, q: T)
    ensures
        s.push(x).contains(q) <==> (s.contains(q) || q == x),
{
    if s.push(x).contains(q) {
        let i = choose|i: int| 0 <= i < s.push(x).len() && s.push(x)[i] == q;
        if i < s.len() {
            assert(s[i] == q);
        }
    }
    if s.contains(q) {
        let i = choose|i: int| 0 <= i < s.len() && s[i] == q;
        assert(s.push(x)[i] == q);
    }
    if q == x {
        assert(s.push(x)[s.len() as int] == q);
    }
}

/// Whether `x` occurs in `v`.
pub fn contains_str(v: &Vec<String>, x: &String) -> (r: bool)
    ensures
        r == deep_strs(v@).contains(x@),
{
    let n = v.len();
    let mut i: usize = 0;
    while i < n
        invariant
            i <= n,
            n == v@.len(),
            forall|j: int| 0 <= j < i ==> deep_strs(v@)[j] != x@,
        decreases n - i,
    {
        if v[i].eq(x) {
            proof {
                assert(deep_strs(v@)[i as int] == x@);
            }
            return true;
        }
        i = i + 1;
    }
    proof {
        if deep_strs(v@).contains(x@) {
            let j = choose|j: int| 0 <= j < v@.len() && deep_strs(v@)[j] == x@;
        }
    }
    false
}

/// An owned copy of a list of strings, character for character.
pub fn dup_strings(v: &Vec<String>) -> (r: Vec<String>)
    ensures
        deep_strs(r@) == deep_strs(v@),
{
    let n = v.len();
    let mut out: Vec<String> = Vec::new();
    let mut i: usize = 0;
    while i < n
        invariant
            i <= n,
            n == v@.len(),
            out@.len() == i,
            forall|j: int| 0 <= j < i ==> out@[j]@ == v@[j]@,
        decreases n - i,
    {
        out.push(v[i].clone());
        i = i + 1;
    }
    proof {
        assert(deep_strs(out@) =~= deep_strs(v@));
    }
    out
}

/// An owned copy of an optional string.
pub fn dup_opt_string(o: &Option<String>) -> (r: Option<String>)
    ensures
        opt_str_view(r) == opt_str_view(*o),
{
    match o {
        Some(s) => Some(s.clone()),
        None => None,
    }
}

} // verus!
