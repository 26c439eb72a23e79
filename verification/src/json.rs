//! JSON text: the escaping of strings and the decimal form of integers, and
//! the parsers that read them back, with the laws that tie each writer to its
//! parser.

use vstd::prelude::*;

verus! {

// ---------------------------------------------------------------------------
// Writing strings
// ---------------------------------------------------------------------------

/// The lower-case hexadecimal digit of `n` (for `0 <= n < 16`).
pub open spec fn hex_char(n: int) -> char {
    if n < 10 {
        (n + 48) as char
    } else {
        (n + 87) as char
    }
}

/// How one character is written inside a JSON string: quote and backslash
/// are escaped, the control characters that have a short escape use it, the
/// other control characters are written as `\u00XX`, everything else as is.
pub open spec fn escape_char(c: char) -> Seq<char> {
    if c == '"' {
        seq!['\\', '"']
    } else if c == '\\' {
        seq!['\\', '\\']
    } else if c == '\u{8}' {
        seq!['\\', 'b']
    } else if c == '\u{c}' {
        seq!['\\', 'f']
    } else if c == '\n' {
        seq!['\\', 'n']
    } else if c == '\r' {
        seq!['\\', 'r']
    } else if c == '\t' {
        seq!['\\', 't']
    } else if (c as u32) < 32 {
        seq!['\\', 'u', '0', '0', hex_char(((c as u32) / 16) as int), hex_char(((c as u32) % 16) as int)]
    } else {
        seq![c]
    }
}

/// The body of the JSON string that holds `s` (without the quotes).
pub open spec fn escape_str(s: Seq<char>) -> Seq<char>
    decreases s.len(),
{
    if s.len() == 0 {
        Seq::empty()
    } else {
        escape_char(s[0]) + escape_str(s.drop_first())
    }
}

/// The JSON string literal that holds `s`.
pub open spec fn json_string(s: Seq<char>) -> Seq<char> {
    seq!['"'] + escape_str(s) + seq!['"']
}

/// Escaping distributes over concatenation.
pub proof fn lemma_escape_str_concat(a: Seq<char>, b: Seq<char>)
    ensures
        escape_str(a + b) == escape_str(a) + escape_str(b),
    decreases a.len(),
{
    if a.len() == 0 {
        assert(a + b =~= b);
    } else {
        lemma_escape_str_concat(a.drop_first(), b);
        assert((a + b).drop_first() =~= a.drop_first() + b);
        assert((a + b)[0] == a[0]);
    }
}

proof fn lemma_escape_str_push(a: Seq<char>, c: char)
    ensures
        escape_str(a.push(c)) == escape_str(a) + escape_char(c),
{
    lemma_escape_str_concat(a, seq![c]);
    assert(a.push(c) =~= a + seq![c]);
    assert(seq![c].drop_first() =~= Seq::<char>::empty());
    assert(escape_str(Seq::<char>::empty()) == Seq::<char>::empty());
    assert(escape_str(seq![c]) == escape_char(c) + escape_str(Seq::<char>::empty()));
    assert(escape_str(seq![c]) =~= escape_char(c));
}

fn hex_digit(n: u32) -> (c: char)
    requires
        n < 16,
    ensures
        c == hex_char(n as int),
{
    if n < 10 {
        ((n + 48) as u8) as char
    } else {
        ((n + 87) as u8) as char
    }
}

/// Appends the escaped form of one character.
fn push_escaped_char(out: &mut Vec<char>, c: char)
    ensures
        final(out)@ == old(out)@ + escape_char(c),
{
    let v = c as u32;
    if c == '"' {
        out.push('\\');
        out.push('"');
    } else if c == '\\' {
        out.push('\\');
        out.push('\\');
    } else if c == '\u{8}' {
        out.push('\\');
        out.push('b');
    } else if c == '\u{c}' {
        out.push('\\');
        out.push('f');
    } else if c == '\n' {
        out.push('\\');
        out.push('n');
    } else if c == '\r' {
        out.push('\\');
        out.push('r');
    } else if c == '\t' {
        out.push('\\');
        out.push('t');
    } else if v < 32 {
        out.push('\\');
        out.push('u');
        out.push('0');
        out.push('0');
        out.push(hex_digit(v / 16));
        out.push(hex_digit(v % 16));
    } else {
        out.push(c);
    }
    assert(final(out)@ =~= old(out)@ + escape_char(c));
}

/// Appends the JSON string literal that holds `s`.
pub fn push_json_string(out: &mut Vec<char>, s: &Vec<char>)
    ensures
        final(out)@ == old(out)@ + json_string(s@),
{
    out.push('"');
    let n = s.len();
    for i in 0..n
        invariant
            n == s@.len(),
            out@ == old(out)@ + seq!['"'] + escape_str(s@.take(i as int)),
    {
        proof {
            lemma_escape_str_push(s@.take(i as int), s@[i as int]);
            assert(s@.take(i as int).push(s@[i as int]) =~= s@.take(i + 1));
        }
        push_escaped_char(out, s[i]);
    }
    out.push('"');
    assert(s@.take(n as int) =~= s@);
    assert(out@ =~= old(out)@ + json_string(s@));
}

// ---------------------------------------------------------------------------
// Writing integers
// ---------------------------------------------------------------------------

/// The decimal digit character of `d` (for `0 <= d < 10`).
pub open spec fn digit_char(d: int) -> char {
    (d + 48) as char
}

/// The decimal form of a natural number, without leading zeros.
pub open spec fn nat_text(n: nat) -> Seq<char>
    decreases n,
{
    if n < 10 {
        seq![digit_char(n as int)]
    } else {
        nat_text(n / 10).push(digit_char((n % 10) as int))
    }
}

/// The JSON form of an integer: a minus sign for negative values, then the
/// decimal digits of its magnitude.
pub open spec fn int_text(v: int) -> Seq<char> {
    if v < 0 {
        seq!['-'] + nat_text((-v) as nat)
    } else {
        nat_text(v as nat)
    }
}

fn push_nat(out: &mut Vec<char>, n: u64)
    ensures
        final(out)@ == old(out)@ + nat_text(n as nat),
    decreases n,
{
    if n >= 10 {
        push_nat(out, n / 10);
    }
    out.push(((n % 10) as u8 + 48) as char);
    assert(final(out)@ =~= old(out)@ + nat_text(n as nat));
}

/// Appends the JSON form of `v`.
pub fn push_int(out: &mut Vec<char>, v: i64)
    ensures
        final(out)@ == old(out)@ + int_text(v as int),
{
    if v < 0 {
        out.push('-');
        let m: u64 = if v == i64::MIN {
            9223372036854775808u64
        } else {
            (-v) as u64
        };
        push_nat(out, m);
    } else {
        push_nat(out, v as u64);
    }
    assert(final(out)@ =~= old(out)@ + int_text(v as int));
}

// ---------------------------------------------------------------------------
// Reading
// ---------------------------------------------------------------------------

/// JSON whitespace.
pub open spec fn is_ws(c: char) -> bool {
    c == ' ' || c == '\t' || c == '\n' || c == '\r'
}

/// The first position at or after `i` that holds no whitespace.
pub open spec fn ws_end(s: Seq<char>, i: int) -> int
    decreases s.len() - i,
{
    if 0 <= i < s.len() && is_ws(s[i]) {
        ws_end(s, i + 1)
    } else {
        i
    }
}

/// Skips the whitespace that starts at `i`.
pub fn skip_ws(s: &Vec<char>, i: usize) -> (r: usize)
    requires
        i <= s@.len(),
    ensures
        r == ws_end(s@, i as int),
        i <= r <= s@.len(),
{
    let mut j = i;
    while j < s.len() && (s[j] == ' ' || s[j] == '\t' || s[j] == '\n' || s[j] == '\r')
        invariant
            i <= j <= s@.len(),
            ws_end(s@, i as int) == ws_end(s@, j as int),
        decreases s@.len() - j,
    {
        j = j + 1;
    }
    j
}

/// The value of a hexadecimal digit, either case.
pub open spec fn hex_value(c: char) -> Option<int> {
    if '0' <= c && c <= '9' {
        Some(c as int - 48)
    } else if 'a' <= c && c <= 'f' {
        Some(c as int - 87)
    } else if 'A' <= c && c <= 'F' {
        Some(c as int - 55)
    } else {
        None
    }
}

/// The number written by the four hexadecimal digits at `i`.
pub open spec fn hex4_at(s: Seq<char>, i: int) -> Option<int> {
    if 0 <= i && i + 4 <= s.len() {
        match (hex_value(s[i]), hex_value(s[i + 1]), hex_value(s[i + 2]), hex_value(s[i + 3])) {
            (Some(a), Some(b), Some(c), Some(d)) => Some(((a * 16 + b) * 16 + c) * 16 + d),
            _ => None,
        }
    } else {
        None
    }
}

/// The character written by the escape sequence whose backslash is at `j`,
/// and the position just after it. A `\u` escape of a leading surrogate must
/// be followed by a `\u` escape of a trailing one; a lone surrogate is
/// refused.
pub open spec fn escape_at(s: Seq<char>, j: int) -> Option<(char, int)> {
    if !(0 <= j && j + 1 < s.len()) {
        None
    } else {
        let e = s[j + 1];
        if e == '"' {
            Some(('"', j + 2))
        } else if e == '\\' {
            Some(('\\', j + 2))
        } else if e == '/' {
            Some(('/', j + 2))
        } else if e == 'b' {
            Some(('\u{8}', j + 2))
        } else if e == 'f' {
            Some(('\u{c}', j + 2))
        } else if e == 'n' {
            Some(('\n', j + 2))
        } else if e == 'r' {
            Some(('\r', j + 2))
        } else if e == 't' {
            Some(('\t', j + 2))
        } else if e == 'u' {
            match hex4_at(s, j + 2) {
                None => None,
                Some(hi) => if hi < 0xD800 || hi >= 0xE000 {
                    Some(((hi as u32) as char, j + 6))
                } else if hi < 0xDC00 && j + 7 < s.len() && s[j + 6] == '\\' && s[j + 7] == 'u' {
                    match hex4_at(s, j + 8) {
                        Some(lo) => if 0xDC00 <= lo && lo < 0xE000 {
                            Some((((0x10000 + (hi - 0xD800) * 0x400 + (lo - 0xDC00)) as u32) as char, j + 12))
                        } else {
                            None
                        },
                        None => None,
                    }
                } else {
                    None
                },
            }
        } else {
            None
        }
    }
}

/// The characters of the JSON string body that starts at `j`, and the
/// position just after its closing quote. Raw control characters are refused.
pub open spec fn string_body(s: Seq<char>, j: int) -> Option<(Seq<char>, int)>
    decreases s.len() - j,
{
    if !(0 <= j < s.len()) {
        None
    } else if s[j] == '"' {
        Some((Seq::empty(), j + 1))
    } else if s[j] == '\\' {
        match escape_at(s, j) {
            None => None,
            Some((d, n)) => if j < n {
                match string_body(s, n) {
                    Some((r, e)) => Some((seq![d] + r, e)),
                    None => None,
                }
            } else {
                None
            },
        }
    } else if (s[j] as u32) < 32 {
        None
    } else {
        match string_body(s, j + 1) {
            Some((r, e)) => Some((seq![s[j]] + r, e)),
            None => None,
        }
    }
}

/// The string literal that starts at `i`: its characters and the position
/// just after it.
pub open spec fn string_at(s: Seq<char>, i: int) -> Option<(Seq<char>, int)> {
    if 0 <= i < s.len() && s[i] == '"' {
        string_body(s, i + 1)
    } else {
        None
    }
}

/// `acc` put in front of the characters that a parse gave.
pub open spec fn prepend(acc: Seq<char>, r: Option<(Seq<char>, int)>) -> Option<(Seq<char>, int)> {
    match r {
        Some((v, e)) => Some((acc + v, e)),
        None => None,
    }
}

fn hex_digit_value(c: char) -> (r: Option<u32>)
    ensures
        match hex_value(c) {
            Some(v) => r == Some(v as u32),
            None => r is None,
        },
{
    if '0' <= c && c <= '9' {
        Some(c as u32 - 48)
    } else if 'a' <= c && c <= 'f' {
        Some(c as u32 - 87)
    } else if 'A' <= c && c <= 'F' {
        Some(c as u32 - 55)
    } else {
        None
    }
}

pub fn parse_hex4(s: &Vec<char>, i: usize) -> (r: Option<u32>)
    ensures
        match hex4_at(s@, i as int) {
            Some(v) => r == Some(v as u32) && v < 0x10000,
            None => r is None,
        },
{
    if i > s.len() || s.len() - i < 4 {
        return None;
    }
    let a = hex_digit_value(s[i]);
    let b = hex_digit_value(s[i + 1]);
    let c = hex_digit_value(s[i + 2]);
    let d = hex_digit_value(s[i + 3]);
    match (a, b, c, d) {
        (Some(a), Some(b), Some(c), Some(d)) => Some(((a * 16 + b) * 16 + c) * 16 + d),
        _ => None,
    }
}

fn parse_escape(s: &Vec<char>, j: usize) -> (r: Option<(char, usize)>)
    ensures
        match escape_at(s@, j as int) {
            Some((c, n)) => r == Some((c, n as usize)),
            None => r is None,
        },
{
    if j >= s.len() || s.len() - j < 2 {
        return None;
    }
    let e = s[j + 1];
    if e == '"' {
        Some(('"', j + 2))
    } else if e == '\\' {
        Some(('\\', j + 2))
    } else if e == '/' {
        Some(('/', j + 2))
    } else if e == 'b' {
        Some(('\u{8}', j + 2))
    } else if e == 'f' {
        Some(('\u{c}', j + 2))
    } else if e == 'n' {
        Some(('\n', j + 2))
    } else if e == 'r' {
        Some(('\r', j + 2))
    } else if e == 't' {
        Some(('\t', j + 2))
    } else if e == 'u' {
        match parse_hex4(s, j + 2) {
            None => None,
            Some(hi) => if hi < 0xD800 || hi >= 0xE000 {
                match crate::text::char_from_code(hi) {
                    Some(c) => Some((c, j + 6)),
                    None => None,
                }
            } else if hi < 0xDC00 && s.len() - j > 7 && s[j + 6] == '\\' && s[j + 7] == 'u' {
                match parse_hex4(s, j + 8) {
                    Some(lo) => if 0xDC00 <= lo && lo < 0xE000 {
                        match crate::text::char_from_code(0x10000 + (hi - 0xD800) * 0x400 + (lo - 0xDC00)) {
                            Some(c) => Some((c, j + 12)),
                            None => None,
                        }
                    } else {
                        None
                    },
                    None => None,
                }
            } else {
                None
            },
        }
    } else {
        None
    }
}

/// Parses the JSON string literal that starts at `i`.
pub fn parse_string(s: &Vec<char>, i: usize) -> (res: Option<(Vec<char>, usize)>)
    ensures
        match string_at(s@, i as int) {
            Some((v, e)) => res matches Some((r, f)) && r@ == v && f as int == e,
            None => res is None,
        },
        res matches Some((r, f)) ==> f <= s@.len(),
{
    if i >= s.len() || s[i] != '"' {
        return None;
    }
    let mut acc: Vec<char> = Vec::new();
    let mut j = i + 1;
    loop
        invariant
            i + 1 <= j <= s@.len(),
            s@[i as int] == '"',
            string_body(s@, i + 1) == prepend(acc@, string_body(s@, j as int)),
        decreases s@.len() - j,
    {
        if j >= s.len() {
            return None;
        }
        let c = s[j];
        if c == '"' {
            assert(acc@ + Seq::<char>::empty() =~= acc@);
            return Some((acc, j + 1));
        } else if c == '\\' {
            match parse_escape(s, j) {
                None => {
                    return None;
                },
                Some((d, n)) => {
                    if n <= j {
                        return None;
                    }
                    proof {
                        let r = string_body(s@, n as int);
                        if let Some((v, e)) = r {
                            assert(acc@.push(d) + v =~= acc@ + (seq![d] + v));
                        }
                    }
                    acc.push(d);
                    j = n;
                },
            }
        } else if (c as u32) < 32 {
            return None;
        } else {
            proof {
                let r = string_body(s@, j + 1);
                if let Some((v, e)) = r {
                    assert(acc@.push(c) + v =~= acc@ + (seq![c] + v));
                }
            }
            acc.push(c);
            j = j + 1;
        }
    }
}

/// A decimal digit character.
pub open spec fn is_digit(c: char) -> bool {
    '0' <= c && c <= '9'
}

/// The first position at or after `k` that holds no digit.
pub open spec fn digits_end(s: Seq<char>, k: int) -> int
    decreases s.len() - k,
{
    if 0 <= k < s.len() && is_digit(s[k]) {
        digits_end(s, k + 1)
    } else {
        k
    }
}

/// The number written by the digits in `s[k..e]`.
pub open spec fn digits_value(s: Seq<char>, k: int, e: int) -> int
    decreases e - k,
{
    if e <= k {
        0
    } else {
        digits_value(s, k, e - 1) * 10 + (s[e - 1] as int - 48)
    }
}

/// The integer that starts at `i`, and the position just after it: an
/// optional minus sign, then `0` or a digit sequence that starts with a
/// non-zero digit. A number followed by a digit, a fraction or an exponent is
/// no integer, and neither is one outside the range of `i64`.
pub open spec fn int_at(s: Seq<char>, i: int) -> Option<(int, int)> {
    let neg = 0 <= i < s.len() && s[i] == '-';
    let k = if neg {
        i + 1
    } else {
        i
    };
    if !(0 <= k < s.len() && is_digit(s[k])) {
        None
    } else {
        let e = if s[k] == '0' {
            k + 1
        } else {
            digits_end(s, k)
        };
        if e < s.len() && (is_digit(s[e]) || s[e] == '.' || s[e] == 'e' || s[e] == 'E') {
            None
        } else {
            let m = digits_value(s, k, e);
            let v = if neg {
                -m
            } else {
                m
            };
            if i64::MIN <= v && v <= i64::MAX {
                Some((v, e))
            } else {
                None
            }
        }
    }
}

proof fn lemma_digits_value_grows(s: Seq<char>, k: int, j: int, e: int)
    requires
        k <= j <= e <= s.len(),
        0 <= k,
        forall|x: int| k <= x < e ==> is_digit(#[trigger] s[x]),
    ensures
        digits_value(s, k, j) <= digits_value(s, k, e),
        0 <= digits_value(s, k, j),
    decreases e - k,
{
    if e > j {
        lemma_digits_value_grows(s, k, j, e - 1);
        assert(is_digit(s[e - 1]));
    } else if j > k {
        lemma_digits_value_grows(s, k, j - 1, j - 1);
        assert(is_digit(s[j - 1]));
    }
}

/// Parses the integer that starts at `i`.
pub fn parse_int(s: &Vec<char>, i: usize) -> (res: Option<(i64, usize)>)
    ensures
        match int_at(s@, i as int) {
            Some((v, e)) => res matches Some((a, b)) && a as int == v && b as int == e,
            None => res is None,
        },
        res matches Some((v, e)) ==> e <= s@.len(),
{
    let n = s.len();
    let neg = i < n && s[i] == '-';
    let k = if neg {
        i + 1
    } else {
        i
    };
    if k >= n || !('0' <= s[k] && s[k] <= '9') {
        return None;
    }
    let mut m: u64 = 0;
    let mut e = k;
    if s[k] == '0' {
        e = k + 1;
        assert(digits_value(s@, k as int, k as int) == 0);
        assert(digits_value(s@, k as int, k + 1) == 0);
    } else {
        while e < n && '0' <= s[e] && s[e] <= '9'
            invariant
                k <= e <= n,
                n == s@.len(),
                k < n,
                s@[k as int] != '0',
                is_digit(s@[k as int]),
                neg == (i < n && s@[i as int] == '-'),
                k == if neg {
                    i + 1
                } else {
                    i as int
                },
                m as int == digits_value(s@, k as int, e as int),
                m <= 9223372036854775808u64,
                digits_end(s@, k as int) == digits_end(s@, e as int),
                forall|x: int| k <= x < e ==> is_digit(#[trigger] s@[x]),
            decreases n - e,
        {
            let next: u128 = (m as u128) * 10 + (s[e] as u128 - 48);
            if next > 9223372036854775808u128 {
                proof {
                    let end = digits_end(s@, k as int);
                    assert(digits_value(s@, k as int, e + 1) == next as int);
                    assert(digits_end(s@, e as int) == digits_end(s@, e + 1));
                    lemma_digits_end_digits(s@, e + 1);
                    assert forall|x: int| k <= x < end implies is_digit(#[trigger] s@[x]) by {
                        if x >= e + 1 {
                            lemma_digits_end_all(s@, e + 1, x);
                        }
                    }
                    lemma_digits_value_grows(s@, k as int, e + 1, end);
                }
                return None;
            }
            m = next as u64;
            e = e + 1;
        }
    }
    if e < n && (('0' <= s[e] && s[e] <= '9') || s[e] == '.' || s[e] == 'e' || s[e] == 'E') {
        return None;
    }
    if neg {
        if m == 9223372036854775808u64 {
            Some((i64::MIN, e))
        } else {
            Some((-(m as i64), e))
        }
    } else {
        if m > 9223372036854775807u64 {
            None
        } else {
            Some((m as i64, e))
        }
    }
}

proof fn lemma_digits_end_digits(s: Seq<char>, k: int)
    requires
        0 <= k <= s.len(),
    ensures
        k <= digits_end(s, k) <= s.len(),
    decreases s.len() - k,
{
    if k < s.len() && is_digit(s[k]) {
        lemma_digits_end_digits(s, k + 1);
    }
}

proof fn lemma_digits_end_all(s: Seq<char>, k: int, x: int)
    requires
        0 <= k <= x < digits_end(s, k),
    ensures
        is_digit(s[x]),
    decreases s.len() - k,
{
    if x > k {
        lemma_digits_end_all(s, k + 1, x);
    }
}

// ---------------------------------------------------------------------------
// Each parser reads back what its writer wrote
// ---------------------------------------------------------------------------

pub proof fn lemma_hex_roundtrip(n: int)
    requires
        0 <= n < 16,
    ensures
        hex_value(hex_char(n)) == Some(n),
{
}

/// One escaped character, followed by more of the body, reads back as that
/// character in front of the rest.
proof fn lemma_string_body_step(s: Seq<char>, j: int, c: char)
    requires
        0 <= j,
        j + escape_char(c).len() <= s.len(),
        forall|t: int| 0 <= t < escape_char(c).len() ==> s[j + t] == #[trigger] escape_char(c)[t],
    ensures
        string_body(s, j) == prepend(seq![c], string_body(s, j + escape_char(c).len())),
{
    let ec = escape_char(c);
    assert(s[j] == ec[0]);
    if c == '"' || c == '\\' || c == '\u{8}' || c == '\u{c}' || c == '\n' || c == '\r' || c
        == '\t' {
        assert(s[j + 1] == ec[1]);
        assert(escape_at(s, j) == Some((c, j + 2)));
    } else if (c as u32) < 32 {
        let u = c as u32;
        lemma_hex_roundtrip((u / 16) as int);
        lemma_hex_roundtrip((u % 16) as int);
        assert(s[j + 1] == ec[1]);
        assert(s[j + 2] == ec[2]);
        assert(s[j + 3] == ec[3]);
        assert(s[j + 4] == ec[4]);
        assert(s[j + 5] == ec[5]);
        assert(hex4_at(s, j + 2) == Some(u as int));
        assert((u as char) == c);
        assert(escape_at(s, j) == Some((c, j + 6)));
    } else {
        assert(s[j] == c);
    }
}

/// A string body written by `escape_str` and closed by a quote reads back as
/// the characters that were escaped.
pub proof fn lemma_string_body_escaped(s: Seq<char>, j: int, x: Seq<char>)
    requires
        0 <= j,
        j + escape_str(x).len() < s.len(),
        s.subrange(j, j + escape_str(x).len()) == escape_str(x),
        s[j + escape_str(x).len()] == '"',
    ensures
        string_body(s, j) == Some((x, j + escape_str(x).len() + 1)),
    decreases x.len(),
{
    if x.len() == 0 {
        assert(s[j] == '"');
        assert(x =~= Seq::<char>::empty());
    } else {
        let c = x[0];
        let ec = escape_char(c);
        let rest = x.drop_first();
        let l = escape_str(x).len();
        assert(escape_str(x) == ec + escape_str(rest));
        assert(s.subrange(j + ec.len(), j + l) =~= escape_str(rest)) by {
            assert forall|t: int| 0 <= t < escape_str(rest).len() implies s.subrange(
                j + ec.len(),
                j + l,
            )[t] == escape_str(rest)[t] by {
                assert(s.subrange(j, j + l)[ec.len() + t] == escape_str(x)[ec.len() + t]);
            }
        }
        assert(s[j + ec.len() + escape_str(rest).len()] == '"');
        lemma_string_body_escaped(s, j + ec.len(), rest);
        assert forall|t: int| 0 <= t < ec.len() implies s[j + t] == #[trigger] ec[t] by {
            assert(s.subrange(j, j + l)[t] == escape_str(x)[t]);
        }
        lemma_string_body_step(s, j, c);
        assert(seq![c] + rest =~= x);
    }
}

/// The string literal written by `json_string` reads back as its characters.
pub proof fn lemma_string_at_json_string(s: Seq<char>, i: int, x: Seq<char>)
    requires
        0 <= i,
        i + json_string(x).len() <= s.len(),
        s.subrange(i, i + json_string(x).len()) == json_string(x),
    ensures
        string_at(s, i) == Some((x, i + json_string(x).len())),
{
    let l = escape_str(x).len();
    assert(s[i] == s.subrange(i, i + l + 2)[0]);
    assert(s[i + 1 + l] == s.subrange(i, i + l + 2)[l + 1 as int]);
    assert(s.subrange(i + 1, i + 1 + l) =~= escape_str(x)) by {
        assert forall|t: int| 0 <= t < l implies s.subrange(i + 1, i + 1 + l)[t]
            == escape_str(x)[t] by {
            assert(s.subrange(i, i + l + 2)[t + 1] == json_string(x)[t + 1]);
        }
    }
    lemma_string_body_escaped(s, i + 1, x);
}

pub proof fn lemma_nat_text_facts(n: nat)
    ensures
        nat_text(n).len() >= 1,
        forall|t: int| 0 <= t < nat_text(n).len() ==> is_digit(#[trigger] nat_text(n)[t]),
        nat_text(n)[0] == '0' ==> n == 0,
        n == 0 ==> nat_text(n).len() == 1,
    decreases n,
{
    if n >= 10 {
        lemma_nat_text_facts(n / 10);
    }
}

proof fn lemma_digits_value_text(s: Seq<char>, k: int, n: nat)
    requires
        0 <= k,
        k + nat_text(n).len() <= s.len(),
        s.subrange(k, k + nat_text(n).len()) == nat_text(n),
    ensures
        digits_value(s, k, k + nat_text(n).len()) == n,
    decreases n,
{
    let l = nat_text(n).len();
    if n < 10 {
        assert(s[k] == s.subrange(k, k + l)[0]);
        assert(digits_value(s, k, k) == 0);
    } else {
        lemma_nat_text_facts(n / 10);
        let l1 = nat_text(n / 10).len();
        assert(s.subrange(k, k + l1) =~= nat_text(n / 10)) by {
            assert forall|t: int| 0 <= t < l1 implies #[trigger] s.subrange(k, k + l1)[t]
                == nat_text(n / 10)[t] by {
                assert(s.subrange(k, k + l)[t] == nat_text(n)[t]);
            }
        }
        lemma_digits_value_text(s, k, n / 10);
        assert(s[k + l1] == s.subrange(k, k + l)[l1 as int]);
        assert(n == (n / 10) * 10 + n % 10);
    }
}

pub proof fn lemma_digits_end_at(s: Seq<char>, k: int, e: int)
    requires
        0 <= k <= e <= s.len(),
        forall|x: int| k <= x < e ==> is_digit(#[trigger] s[x]),
        e == s.len() || !is_digit(s[e]),
    ensures
        digits_end(s, k) == e,
    decreases e - k,
{
    if k < e {
        lemma_digits_end_at(s, k + 1, e);
    }
}

/// An integer written by `int_text` reads back as that integer, when what
/// follows cannot continue a number.
pub proof fn lemma_int_at_int_text(s: Seq<char>, i: int, v: int)
    requires
        i64::MIN <= v <= i64::MAX,
        0 <= i,
        i + int_text(v).len() <= s.len(),
        s.subrange(i, i + int_text(v).len()) == int_text(v),
        i + int_text(v).len() == s.len() || !(is_digit(s[i + int_text(v).len()]) || s[i
            + int_text(v).len()] == '.' || s[i + int_text(v).len()] == 'e' || s[i
            + int_text(v).len()] == 'E'),
    ensures
        int_at(s, i) == Some((v, i + int_text(v).len())),
{
    let l = int_text(v).len();
    let n: nat = if v < 0 {
        (-v) as nat
    } else {
        v as nat
    };
    let k = if v < 0 {
        i + 1
    } else {
        i
    };
    lemma_nat_text_facts(n);
    let ln = nat_text(n).len();
    assert(k + ln == i + l);
    assert(s.subrange(k, k + ln) =~= nat_text(n)) by {
        assert forall|t: int| 0 <= t < ln implies s.subrange(k, k + ln)[t] == nat_text(n)[t] by {
            assert(s.subrange(i, i + l)[(k - i) + t] == int_text(v)[(k - i) + t]);
        }
    }
    assert(s[i] == s.subrange(i, i + l)[0]);
    assert(forall|x: int| k <= x < k + ln ==> is_digit(#[trigger] s[x])) by {
        assert forall|x: int| k <= x < k + ln implies is_digit(#[trigger] s[x]) by {
            assert(s.subrange(k, k + ln)[x - k] == nat_text(n)[x - k]);
        }
    }
    assert(s[k] == nat_text(n)[0]) by {
        assert(s.subrange(k, k + ln)[0] == nat_text(n)[0]);
    }
    lemma_digits_value_text(s, k, n);
    if s[k] != '0' {
        lemma_digits_end_at(s, k, k + ln);
    }
}

} // verus!
