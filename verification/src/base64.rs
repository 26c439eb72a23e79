//! Base64 in its URL-safe alphabet without padding (RFC 4648, section 5), as
//! JSON Web Tokens write their parts.

use vstd::prelude::*;

verus! {

/// The character of the 6-bit value `n` in the URL-safe alphabet.
pub open spec fn b64url_digit(n: int) -> char {
    if n < 26 {
        (n + 65) as char
    } else if n < 52 {
        (n + 71) as char
    } else if n < 62 {
        (n - 4) as char
    } else if n == 62 {
        '-'
    } else {
        '_'
    }
}

/// The URL-safe base64 form of `b`, without padding: each group of three
/// bytes gives four characters, a last group of one or two bytes gives two
/// or three.
pub open spec fn b64url(b: Seq<u8>) -> Seq<char>
    decreases b.len(),
{
    let x = if b.len() > 0 {
        b[0] as int
    } else {
        0
    };
    let y = if b.len() > 1 {
        b[1] as int
    } else {
        0
    };
    let z = if b.len() > 2 {
        b[2] as int
    } else {
        0
    };
    if b.len() == 0 {
        Seq::empty()
    } else if b.len() == 1 {
        seq![b64url_digit(x / 4), b64url_digit((x % 4) * 16)]
    } else if b.len() == 2 {
        seq![b64url_digit(x / 4), b64url_digit((x % 4) * 16 + y / 16), b64url_digit((y % 16) * 4)]
    } else {
        seq![
            b64url_digit(x / 4),
            b64url_digit((x % 4) * 16 + y / 16),
            b64url_digit((y % 16) * 4 + z / 64),
            b64url_digit(z % 64),
        ] + b64url(b.subrange(3, b.len() as int))
    }
}

/// The length of the base64 form of `n` bytes: four characters for every
/// three bytes, rounded up.
pub proof fn lemma_b64url_len(b: Seq<u8>)
    ensures
        b64url(b).len() == (4 * b.len() + 2) / 3,
    decreases b.len(),
{
    if b.len() >= 3 {
        lemma_b64url_len(b.subrange(3, b.len() as int));
    }
}

} // verus!
