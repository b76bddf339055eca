use vstd::prelude::*;

verus! {

/// Whether `v` is a Unicode scalar value: a code point that is not a surrogate.
pub open spec fn is_scalar_value(v: u32) -> bool {
    v <= 0xD7FF || (0xE000 <= v && v <= 0x10FFFF)
}

/// Calls `String::push`, which appends one character to the end of the string.
/// Trusted: the contract claims exactly that, and nothing else about the string changes.
#[verifier::external_body]
pub(crate) fn string_push(s: &mut String, c: char)
    ensures
        final(s)@ == old(s)@.push(c),
{
    s.push(c)
}

/// Calls `char::from_u32`, which returns the character with the given code point when it is
/// a Unicode scalar value (not a surrogate, at most 0x10FFFF), and `None` otherwise.
/// Trusted: the contract claims exactly that.
#[verifier::external_body]
pub(crate) fn char_from_u32(v: u32) -> (res: Option<char>)
    ensures
        is_scalar_value(v) ==> res == Some(v as char),
        !is_scalar_value(v) ==> res is None,
{
    char::from_u32(v)
}

/// A string made of the given characters.
pub fn string_from_chars(cs: &Vec<char>) -> (res: String)
    ensures
        res@ == cs@,
{
    let mut s = String::new();
    let mut i: usize = 0;
    while i < cs.len()
        invariant
            i <= cs@.len(),
            s@ == cs@.take(i as int),
        decreases cs@.len() - i,
    {
        string_push(&mut s, cs[i]);
        i = i + 1;
        assert(s@ =~= cs@.take(i as int));
    }
    assert(cs@.take(cs@.len() as int) =~= cs@);
    s
}

} // verus!
