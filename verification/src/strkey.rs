//! A total order on textual aliases, and the symmetric pair key built from
//! two distinct aliases.
//!
//! A chat (or business relationship) between two parties is stored under a
//! key that is a deterministic function of the two pay aliases: the greater
//! alias, a `/` separator, then the smaller alias.  Because the order is
//! total, the key does not depend on which party is named first.

use vstd::prelude::*;

verus! {

/// Lexicographic order on character sequences: `a` comes strictly before `b`.
pub open spec fn lex_lt(a: Seq<char>, b: Seq<char>) -> bool
    decreases a.len(),
{
    if b.len() == 0 {
        false
    } else if a.len() == 0 {
        true
    } else if a[0] != b[0] {
        a[0] < b[0]
    } else {
        lex_lt(a.skip(1), b.skip(1))
    }
}

/// The lexicographic order is total and strict: two sequences are equal,
/// or exactly one comes before the other.
pub proof fn lemma_lex_total(a: Seq<char>, b: Seq<char>)
    ensures
        a == b || lex_lt(a, b) || lex_lt(b, a),
        !(lex_lt(a, b) && lex_lt(b, a)),
        lex_lt(a, b) ==> a != b,
    decreases a.len(),
{
    if a.len() == 0 && b.len() == 0 {
        assert(a =~= b);
    } else if a.len() != 0 && b.len() != 0 {
        if a[0] == b[0] {
            lemma_lex_total(a.skip(1), b.skip(1));
            if a.skip(1) == b.skip(1) {
                assert(a.len() == b.len());
                assert forall|j: int| 0 <= j < a.len() implies a[j] == b[j] by {
                    if j > 0 {
                        assert(a[j] == a.skip(1)[j - 1]);
                        assert(b[j] == b.skip(1)[j - 1]);
                    }
                }
                assert(a =~= b);
            }
            if a == b {
                assert(a.skip(1) =~= b.skip(1));
            }
        } else {
            if a == b {
                assert(a[0] == b[0]);
            }
        }
    }
}

/// Compares two strings in the lexicographic order on their characters.
pub fn str_lt(a: &str, b: &str) -> (r: bool)
    ensures
        r == lex_lt(a@, b@),
{
    let a_len = a.unicode_len();
    let b_len = b.unicode_len();
    let mut i: usize = 0;
    proof {
        assert(a@.skip(0) =~= a@);
        assert(b@.skip(0) =~= b@);
    }
    loop
        invariant
            i <= a_len,
            i <= b_len,
            a_len == a@.len(),
            b_len == b@.len(),
            lex_lt(a@, b@) == lex_lt(a@.skip(i as int), b@.skip(i as int)),
        decreases a_len - i,
    {
        if i >= b_len {
            return false;
        }
        if i >= a_len {
            return true;
        }
        let ca = a.get_char(i);
        let cb = b.get_char(i);
        if ca != cb {
            return ca < cb;
        }
        proof {
            assert(a@.skip(i as int).skip(1) =~= a@.skip(i as int + 1));
            assert(b@.skip(i as int).skip(1) =~= b@.skip(i as int + 1));
            assert(a@.skip(i as int)[0] == a@[i as int]);
            assert(b@.skip(i as int)[0] == b@[i as int]);
        }
        i = i + 1;
    }
}

/// The separator placed between the two aliases of a pair key.
pub open spec fn key_sep() -> Seq<char> {
    seq!['/']
}

/// The key of the unordered pair `{a, b}`: the greater alias, `/`, then the
/// smaller alias.
pub open spec fn pair_key(a: Seq<char>, b: Seq<char>) -> Seq<char>
    recommends
        a != b,
{
    if lex_lt(b, a) {
        a + key_sep() + b
    } else {
        b + key_sep() + a
    }
}

/// The pair key does not depend on the order in which the two aliases are
/// given.
pub proof fn lemma_pair_key_symmetric(a: Seq<char>, b: Seq<char>)
    requires
        a != b,
    ensures
        pair_key(a, b) == pair_key(b, a),
{
    lemma_lex_total(a, b);
}

fn concat_with_sep(hi: &String, lo: &String) -> (r: String)
    ensures
        r@ == hi@ + key_sep() + lo@,
{
    let mut s = hi.clone();
    s.append("/");
    s.append(lo.as_str());
    proof {
        reveal_strlit("/");
        assert("/"@ =~= key_sep());
        assert(s@ =~= hi@ + key_sep() + lo@);
    }
    s
}

/// Builds the storage key for the unordered pair of two distinct aliases.
///
/// The two aliases must differ; a caller facing two equal aliases has hit a
/// fatal defect and must not reach this point.
pub fn create_key(pay_id1: &String, pay_id2: &String) -> (r: String)
    requires
        pay_id1@ != pay_id2@,
    ensures
        r@ == pair_key(pay_id1@, pay_id2@),
{
    proof {
        lemma_lex_total(pay_id1@, pay_id2@);
    }
    if str_lt(pay_id2.as_str(), pay_id1.as_str()) {
        concat_with_sep(pay_id1, pay_id2)
    } else {
        concat_with_sep(pay_id2, pay_id1)
    }
}

} // verus!
