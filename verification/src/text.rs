//! Conversions between `str`/`String` and sequences of characters.

use vstd::prelude::*;

verus! {

/// The characters of `s`, in order.
pub fn chars_of(s: &str) -> (res: Vec<char>)
    ensures
        res@ == s@,
{
    let mut res: Vec<char> = Vec::new();
    for c in it: s.chars()
        invariant
            res@ == it.seq().take(it.index() as int),
            it.seq() == s@,
    {
        res.push(c);
    }
    res
}

/// Collects characters into a `String` (`FromIterator<char>` for `String`):
/// the string holds exactly the given characters, in order.
#[verifier::external_body]
pub fn string_from_chars(v: &Vec<char>) -> (res: String)
    ensures
        res@ == v@,
{
    v.iter().collect()
}

/// `char::from_u32`: `Some` exactly for the Unicode scalar values, and then
/// the character with that code.
#[verifier::external_body]
pub fn char_from_code(v: u32) -> (res: Option<char>)
    ensures
        res is Some <==> (v < 0xD800 || (0xE000 <= v && v <= 0x10FFFF)),
        res matches Some(c) ==> c == v as char,
{
    char::from_u32(v)
}

} // verus!
