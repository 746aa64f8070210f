//! Small helpers shared by the fund registries.
use vstd::prelude::*;

verus! {

/// Whether `a` comes after `b` in the lexicographic order of their
/// characters' code points, which for strings is the order of their UTF-8
/// bytes.
pub open spec fn lex_gt(a: Seq<char>, b: Seq<char>) -> bool
    decreases a.len(),
{
    if a.len() == 0 {
        false
    } else if b.len() == 0 {
        true
    } else if a[0] != b[0] {
        (a[0] as u32) > (b[0] as u32)
    } else {
        lex_gt(a.drop_first(), b.drop_first())
    }
}

/// Whether `a` comes after `b` (see `lex_gt`).
fn string_gt(a: &str, b: &str) -> (r: bool)
    ensures
        r == lex_gt(a@, b@),
{
    let la = a.unicode_len();
    let lb = b.unicode_len();
    let mut i: usize = 0;
    assert(a@.skip(0) =~= a@);
    assert(b@.skip(0) =~= b@);
    while i < la && i < lb
        invariant
            la == a@.len(),
            lb == b@.len(),
            0 <= i <= la,
            i <= lb,
            lex_gt(a@, b@) == lex_gt(a@.skip(i as int), b@.skip(i as int)),
        decreases la - i,
    {
        let ca = a.get_char(i);
        let cb = b.get_char(i);
        assert(a@.skip(i as int)[0] == ca);
        assert(b@.skip(i as int)[0] == cb);
        if ca != cb {
            return (ca as u32) > (cb as u32);
        }
        assert(a@.skip(i as int).drop_first() =~= a@.skip(i + 1));
        assert(b@.skip(i as int).drop_first() =~= b@.skip(i + 1));
        i = i + 1;
    }
    i < la
}

/// Orders two strings so that the greater comes first, so that a pair of
/// names always gives the same key.
pub fn sort_string(string1: String, string2: String) -> (r: (String, String))
    ensures
        lex_gt(string1@, string2@) ==> r.0@ == string1@ && r.1@ == string2@,
        !lex_gt(string1@, string2@) ==> r.0@ == string2@ && r.1@ == string1@,
{
    if string_gt(string1.as_str(), string2.as_str()) {
        (string1, string2)
    } else {
        (string2, string1)
    }
}

} // verus!
