//! JSON values of any kind: the grammar by which a value is passed over, the
//! executable skipper that follows it, and the proofs that the strings and
//! integers written by `json` are such values.

use vstd::prelude::*;

use crate::json::{
    digits_end, escape_char, escape_str, hex4_at, int_text, is_digit, json_string,
    lemma_digits_end_at, lemma_hex_roundtrip, lemma_nat_text_facts, nat_text, parse_hex4,
    skip_ws, ws_end,
};

verus! {

// ---------------------------------------------------------------------------
// Skipping a value of any kind
// ---------------------------------------------------------------------------

/// The end of the string literal body that starts at `j`, read loosely: an
/// escape needs only the right form (any four hexadecimal digits after
/// `\u`), raw control characters are refused.
pub open spec fn loose_string_end(s: Seq<char>, j: int) -> Option<int>
    decreases s.len() - j,
{
    if !(0 <= j < s.len()) {
        None
    } else if s[j] == '"' {
        Some(j + 1)
    } else if s[j] == '\\' {
        if j + 1 < s.len() && (s[j + 1] == '"' || s[j + 1] == '\\' || s[j + 1] == '/' || s[j + 1]
            == 'b' || s[j + 1] == 'f' || s[j + 1] == 'n' || s[j + 1] == 'r' || s[j + 1] == 't') {
            loose_string_end(s, j + 2)
        } else if j + 1 < s.len() && s[j + 1] == 'u' && hex4_at(s, j + 2) is Some {
            loose_string_end(s, j + 6)
        } else {
            None
        }
    } else if (s[j] as u32) < 32 {
        None
    } else {
        loose_string_end(s, j + 1)
    }
}

/// The end of the digits of an exponent or fraction: at least one digit.
pub open spec fn some_digits_end(s: Seq<char>, k: int) -> Option<int> {
    if 0 <= k < s.len() && is_digit(s[k]) {
        Some(digits_end(s, k))
    } else {
        None
    }
}

/// The end of a number of any kind that starts at `i`: an optional minus,
/// an integer part without leading zeros, an optional fraction and an
/// optional exponent.
pub open spec fn number_end(s: Seq<char>, i: int) -> Option<int> {
    let k = if 0 <= i < s.len() && s[i] == '-' {
        i + 1
    } else {
        i
    };
    if !(0 <= k < s.len() && is_digit(s[k])) {
        None
    } else if s[k] == '0' && k + 1 < s.len() && is_digit(s[k + 1]) {
        None
    } else {
        let e = if s[k] == '0' {
            k + 1
        } else {
            digits_end(s, k)
        };
        let f = if e < s.len() && s[e] == '.' {
            some_digits_end(s, e + 1)
        } else {
            Some(e)
        };
        match f {
            None => None,
            Some(f) => if f < s.len() && (s[f] == 'e' || s[f] == 'E') {
                let g = if f + 1 < s.len() && (s[f + 1] == '+' || s[f + 1] == '-') {
                    f + 2
                } else {
                    f + 1
                };
                some_digits_end(s, g)
            } else {
                Some(f)
            },
        }
    }
}

/// Whether `s` holds the characters of `word` from `i` on.
pub open spec fn word_at(s: Seq<char>, i: int, word: Seq<char>) -> bool {
    0 <= i && i + word.len() <= s.len() && s.subrange(i, i + word.len()) == word
}

/// The end of the JSON value of any kind that starts at `i`.
pub open spec fn value_end(s: Seq<char>, i: int) -> Option<int>
    decreases s.len() - i, 0int,
{
    if !(0 <= i < s.len()) {
        None
    } else {
        let c = s[i];
        if c == 'n' {
            if word_at(s, i, seq!['n', 'u', 'l', 'l']) {
                Some(i + 4)
            } else {
                None
            }
        } else if c == 't' {
            if word_at(s, i, seq!['t', 'r', 'u', 'e']) {
                Some(i + 4)
            } else {
                None
            }
        } else if c == 'f' {
            if word_at(s, i, seq!['f', 'a', 'l', 's', 'e']) {
                Some(i + 5)
            } else {
                None
            }
        } else if c == '-' || is_digit(c) {
            number_end(s, i)
        } else if c == '"' {
            loose_string_end(s, i + 1)
        } else if c == '[' || c == '{' {
            let j = ws_end(s, i + 1);
            if !(i < j <= s.len()) {
                None
            } else if j < s.len() && ((c == '[' && s[j] == ']') || (c == '{' && s[j] == '}')) {
                Some(j + 1)
            } else if c == '[' {
                items_end(s, j)
            } else {
                entries_end(s, j)
            }
        } else {
            None
        }
    }
}

/// The end of the array items from the one that starts at `j` to the closing
/// bracket.
pub open spec fn items_end(s: Seq<char>, j: int) -> Option<int>
    decreases s.len() - j, 1int,
{
    if !(0 <= j <= s.len()) {
        None
    } else {
        match value_end(s, j) {
            None => None,
            Some(v) => {
                let k = ws_end(s, v);
                if j < k < s.len() && s[k] == ',' {
                    let next = ws_end(s, k + 1);
                    if j < next <= s.len() {
                        items_end(s, next)
                    } else {
                        None
                    }
                } else if j < k < s.len() && s[k] == ']' {
                    Some(k + 1)
                } else {
                    None
                }
            },
        }
    }
}

/// The end of the object entries from the key that starts at `j` to the
/// closing brace; keys and values are skipped.
pub open spec fn entries_end(s: Seq<char>, j: int) -> Option<int>
    decreases s.len() - j, 1int,
{
    if !(0 <= j < s.len() && s[j] == '"') {
        None
    } else {
        match loose_string_end(s, j + 1) {
            None => None,
            Some(p) => {
                let q = ws_end(s, p);
                if !(j < q < s.len() && s[q] == ':') {
                    None
                } else {
                    let r = ws_end(s, q + 1);
                    if !(j < r <= s.len()) {
                        None
                    } else {
                        match value_end(s, r) {
                            None => None,
                            Some(v) => {
                                let k = ws_end(s, v);
                                if j < k < s.len() && s[k] == ',' {
                                    let next = ws_end(s, k + 1);
                                    if j < next <= s.len() {
                                        entries_end(s, next)
                                    } else {
                                        None
                                    }
                                } else if j < k < s.len() && s[k] == '}' {
                                    Some(k + 1)
                                } else {
                                    None
                                }
                            },
                        }
                    }
                }
            },
        }
    }
}

fn is_digit_char(c: char) -> (r: bool)
    ensures
        r == is_digit(c),
{
    '0' <= c && c <= '9'
}

fn skip_loose_string(s: &Vec<char>, j: usize) -> (r: Option<usize>)
    ensures
        match loose_string_end(s@, j as int) {
            Some(e) => r matches Some(x) && x as int == e,
            None => r is None,
        },
        r matches Some(x) ==> x <= s@.len(),
{
    let mut k = j;
    loop
        invariant
            j <= k,
            loose_string_end(s@, j as int) == loose_string_end(s@, k as int),
        decreases s@.len() - k,
    {
        if k >= s.len() {
            return None;
        }
        let c = s[k];
        if c == '"' {
            return Some(k + 1);
        } else if c == '\\' {
            if k + 1 < s.len() && (s[k + 1] == '"' || s[k + 1] == '\\' || s[k + 1] == '/' || s[k
                + 1] == 'b' || s[k + 1] == 'f' || s[k + 1] == 'n' || s[k + 1] == 'r' || s[k + 1]
                == 't') {
                k = k + 2;
            } else if k + 1 < s.len() && s[k + 1] == 'u' && parse_hex4(s, k + 2).is_some() {
                k = k + 6;
            } else {
                return None;
            }
        } else if (c as u32) < 32 {
            return None;
        } else {
            k = k + 1;
        }
    }
}

fn skip_digits(s: &Vec<char>, k: usize) -> (e: usize)
    requires
        k <= s@.len(),
    ensures
        e as int == digits_end(s@, k as int),
        k <= e <= s@.len(),
{
    let mut e = k;
    while e < s.len() && is_digit_char(s[e])
        invariant
            k <= e <= s@.len(),
            digits_end(s@, k as int) == digits_end(s@, e as int),
        decreases s@.len() - e,
    {
        e = e + 1;
    }
    e
}

fn skip_some_digits(s: &Vec<char>, k: usize) -> (r: Option<usize>)
    ensures
        match some_digits_end(s@, k as int) {
            Some(e) => r matches Some(x) && x as int == e,
            None => r is None,
        },
        r matches Some(x) ==> x <= s@.len(),
{
    if k < s.len() && is_digit_char(s[k]) {
        Some(skip_digits(s, k))
    } else {
        None
    }
}

fn skip_number(s: &Vec<char>, i: usize) -> (r: Option<usize>)
    ensures
        match number_end(s@, i as int) {
            Some(e) => r matches Some(x) && x as int == e,
            None => r is None,
        },
        r matches Some(x) ==> x <= s@.len(),
{
    let n = s.len();
    let k = if i < n && s[i] == '-' {
        i + 1
    } else {
        i
    };
    if !(k < n && is_digit_char(s[k])) {
        return None;
    }
    if s[k] == '0' && k + 1 < n && is_digit_char(s[k + 1]) {
        return None;
    }
    let e = if s[k] == '0' {
        k + 1
    } else {
        skip_digits(s, k)
    };
    let f = if e < n && s[e] == '.' {
        match skip_some_digits(s, e + 1) {
            Some(f) => f,
            None => {
                return None;
            },
        }
    } else {
        e
    };
    if f < n && (s[f] == 'e' || s[f] == 'E') {
        let g = if f + 1 < n && (s[f + 1] == '+' || s[f + 1] == '-') {
            f + 2
        } else {
            f + 1
        };
        skip_some_digits(s, g)
    } else {
        Some(f)
    }
}

fn word_is_at(s: &Vec<char>, i: usize, word: &Vec<char>) -> (r: bool)
    ensures
        r == word_at(s@, i as int, word@),
{
    if i > s.len() || s.len() - i < word.len() {
        return false;
    }
    let mut t: usize = 0;
    while t < word.len()
        invariant
            t <= word@.len(),
            i + word@.len() <= s@.len(),
            s@.len() <= usize::MAX,
            forall|x: int| 0 <= x < t ==> s@[i + x] == word@[x],
        decreases word@.len() - t,
    {
        if s[i + t] != word[t] {
            assert(s@.subrange(i as int, i + word@.len())[t as int] != word@[t as int]);
            return false;
        }
        t = t + 1;
    }
    assert(s@.subrange(i as int, i + word@.len()) =~= word@);
    true
}

/// Skips the JSON value of any kind that starts at `i`.
pub fn skip_value(s: &Vec<char>, i: usize) -> (r: Option<usize>)
    ensures
        match value_end(s@, i as int) {
            Some(e) => r matches Some(x) && x as int == e,
            None => r is None,
        },
        r matches Some(x) ==> x <= s@.len(),
    decreases s@.len() - i, 0int,
{
    if i >= s.len() {
        return None;
    }
    let c = s[i];
    if c == 'n' {
        if word_is_at(s, i, &vec!['n', 'u', 'l', 'l']) {
            Some(i + 4)
        } else {
            None
        }
    } else if c == 't' {
        if word_is_at(s, i, &vec!['t', 'r', 'u', 'e']) {
            Some(i + 4)
        } else {
            None
        }
    } else if c == 'f' {
        if word_is_at(s, i, &vec!['f', 'a', 'l', 's', 'e']) {
            Some(i + 5)
        } else {
            None
        }
    } else if c == '-' || is_digit_char(c) {
        skip_number(s, i)
    } else if c == '"' {
        skip_loose_string(s, i + 1)
    } else if c == '[' || c == '{' {
        let j = skip_ws(s, i + 1);
        if !(i < j) {
            None
        } else if j < s.len() && ((c == '[' && s[j] == ']') || (c == '{' && s[j] == '}')) {
            Some(j + 1)
        } else if c == '[' {
            skip_items(s, j)
        } else {
            skip_entries(s, j)
        }
    } else {
        None
    }
}

fn skip_items(s: &Vec<char>, j: usize) -> (r: Option<usize>)
    ensures
        match items_end(s@, j as int) {
            Some(e) => r matches Some(x) && x as int == e,
            None => r is None,
        },
        r matches Some(x) ==> x <= s@.len(),
    decreases s@.len() - j, 1int,
{
    if j > s.len() {
        return None;
    }
    let v = match skip_value(s, j) {
        Some(v) => v,
        None => {
            return None;
        },
    };
    let k = skip_ws(s, v);
    if j < k && k < s.len() && s[k] == ',' {
        let next = skip_ws(s, k + 1);
        if j < next {
            skip_items(s, next)
        } else {
            None
        }
    } else if j < k && k < s.len() && s[k] == ']' {
        Some(k + 1)
    } else {
        None
    }
}

fn skip_entries(s: &Vec<char>, j: usize) -> (r: Option<usize>)
    ensures
        match entries_end(s@, j as int) {
            Some(e) => r matches Some(x) && x as int == e,
            None => r is None,
        },
        r matches Some(x) ==> x <= s@.len(),
    decreases s@.len() - j, 1int,
{
    if !(j < s.len() && s[j] == '"') {
        return None;
    }
    let p = match skip_loose_string(s, j + 1) {
        Some(p) => p,
        None => {
            return None;
        },
    };
    let q = skip_ws(s, p);
    if !(j < q && q < s.len() && s[q] == ':') {
        return None;
    }
    let r = skip_ws(s, q + 1);
    if !(j < r) {
        return None;
    }
    let v = match skip_value(s, r) {
        Some(v) => v,
        None => {
            return None;
        },
    };
    let k = skip_ws(s, v);
    if j < k && k < s.len() && s[k] == ',' {
        let next = skip_ws(s, k + 1);
        if j < next {
            skip_entries(s, next)
        } else {
            None
        }
    } else if j < k && k < s.len() && s[k] == '}' {
        Some(k + 1)
    } else {
        None
    }
}

/// JSON text: one value of any kind, with whitespace around it.
pub open spec fn is_json_text(s: Seq<char>) -> bool {
    match value_end(s, ws_end(s, 0)) {
        Some(e) => ws_end(s, e) == s.len(),
        None => false,
    }
}

// ---------------------------------------------------------------------------
// What the writers write is JSON
// ---------------------------------------------------------------------------

proof fn lemma_loose_string_step(s: Seq<char>, j: int, c: char)
    requires
        0 <= j,
        j + escape_char(c).len() <= s.len(),
        forall|t: int| 0 <= t < escape_char(c).len() ==> s[j + t] == #[trigger] escape_char(c)[t],
    ensures
        loose_string_end(s, j) == loose_string_end(s, j + escape_char(c).len()),
{
    let ec = escape_char(c);
    assert(s[j] == ec[0]);
    if c == '"' || c == '\\' || c == '\u{8}' || c == '\u{c}' || c == '\n' || c == '\r' || c
        == '\t' {
        assert(s[j + 1] == ec[1]);
    } else if (c as u32) < 32 {
        let u = c as u32;
        lemma_hex_roundtrip((u / 16) as int);
        lemma_hex_roundtrip((u % 16) as int);
        assert(s[j + 1] == ec[1]);
        assert(s[j + 2] == ec[2]);
        assert(s[j + 3] == ec[3]);
        assert(s[j + 4] == ec[4]);
        assert(s[j + 5] == ec[5]);
        assert(hex4_at(s, j + 2) == Some(u as int));
    } else {
        assert(s[j] == c);
    }
}

/// A string body written by `escape_str` and closed by a quote is a string
/// body for the loose reading too.
pub proof fn lemma_loose_string_escaped(s: Seq<char>, j: int, x: Seq<char>)
    requires
        0 <= j,
        j + escape_str(x).len() < s.len(),
        s.subrange(j, j + escape_str(x).len()) == escape_str(x),
        s[j + escape_str(x).len()] == '"',
    ensures
        loose_string_end(s, j) == Some(j + escape_str(x).len() + 1),
    decreases x.len(),
{
    if x.len() == 0 {
        assert(s[j] == '"');
    } else {
        let c = x[0];
        let ec = escape_char(c);
        let rest = x.drop_first();
        let l = escape_str(x).len();
        assert(escape_str(x) == ec + escape_str(rest));
        assert(s.subrange(j + ec.len(), j + l) =~= escape_str(rest)) by {
            assert forall|t: int| 0 <= t < escape_str(rest).len() implies s.subrange(
                j + ec.len(),
                j + l,
            )[t] == escape_str(rest)[t] by {
                assert(s.subrange(j, j + l)[ec.len() + t] == escape_str(x)[ec.len() + t]);
            }
        }
        assert(s[j + ec.len() + escape_str(rest).len()] == '"');
        lemma_loose_string_escaped(s, j + ec.len(), rest);
        assert forall|t: int| 0 <= t < ec.len() implies s[j + t] == #[trigger] ec[t] by {
            assert(s.subrange(j, j + l)[t] == escape_str(x)[t]);
        }
        lemma_loose_string_step(s, j, c);
    }
}

/// The string literal written by `json_string` is a JSON value.
pub proof fn lemma_value_end_json_string(s: Seq<char>, i: int, x: Seq<char>)
    requires
        0 <= i,
        i + json_string(x).len() <= s.len(),
        s.subrange(i, i + json_string(x).len()) == json_string(x),
    ensures
        value_end(s, i) == Some(i + json_string(x).len()),
{
    let l = escape_str(x).len();
    assert(s[i] == s.subrange(i, i + l + 2)[0]);
    assert(s[i + 1 + l] == s.subrange(i, i + l + 2)[l + 1 as int]);
    assert(s.subrange(i + 1, i + 1 + l) =~= escape_str(x)) by {
        assert forall|t: int| 0 <= t < l implies s.subrange(i + 1, i + 1 + l)[t]
            == escape_str(x)[t] by {
            assert(s.subrange(i, i + l + 2)[t + 1] == json_string(x)[t + 1]);
        }
    }
    lemma_loose_string_escaped(s, i + 1, x);
}

/// An integer written by `int_text` is a JSON number, when what follows
/// cannot continue a number.
pub proof fn lemma_value_end_int_text(s: Seq<char>, i: int, v: int)
    requires
        0 <= i,
        i + int_text(v).len() <= s.len(),
        s.subrange(i, i + int_text(v).len()) == int_text(v),
        i + int_text(v).len() == s.len() || !(is_digit(s[i + int_text(v).len()]) || s[i
            + int_text(v).len()] == '.' || s[i + int_text(v).len()] == 'e' || s[i
            + int_text(v).len()] == 'E'),
    ensures
        value_end(s, i) == Some(i + int_text(v).len()),
{
    let l = int_text(v).len();
    let n: nat = if v < 0 {
        (-v) as nat
    } else {
        v as nat
    };
    let k = if v < 0 {
        i + 1
    } else {
        i
    };
    lemma_nat_text_facts(n);
    let ln = nat_text(n).len();
    assert(k + ln == i + l);
    assert(s.subrange(k, k + ln) =~= nat_text(n)) by {
        assert forall|t: int| 0 <= t < ln implies s.subrange(k, k + ln)[t] == nat_text(n)[t] by {
            assert(s.subrange(i, i + l)[(k - i) + t] == int_text(v)[(k - i) + t]);
        }
    }
    assert(s[i] == s.subrange(i, i + l)[0]);
    assert(forall|x: int| k <= x < k + ln ==> is_digit(#[trigger] s[x])) by {
        assert forall|x: int| k <= x < k + ln implies is_digit(#[trigger] s[x]) by {
            assert(s.subrange(k, k + ln)[x - k] == nat_text(n)[x - k]);
        }
    }
    assert(s[k] == nat_text(n)[0]) by {
        assert(s.subrange(k, k + ln)[0] == nat_text(n)[0]);
    }
    if s[k] != '0' {
        lemma_digits_end_at(s, k, k + ln);
    }
    assert(number_end(s, i) == Some(i + l));
}

} // verus!
