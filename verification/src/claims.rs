//! The JSON form of the claims of a session token: the writer, the reader,
//! and the proofs that the reader gives back what the writer wrote and that
//! what the writer writes is JSON text.

use vstd::prelude::*;

use crate::json::{
    escape_str, int_at, int_text, is_digit, is_ws, json_string, lemma_int_at_int_text,
    lemma_nat_text_facts, lemma_string_at_json_string, nat_text, parse_int, parse_string,
    push_int, push_json_string, skip_ws, string_at, ws_end,
};
use crate::json_value::{
    entries_end, is_json_text, lemma_value_end_int_text, lemma_value_end_json_string,
    loose_string_end, skip_value, value_end,
};
use crate::text::{chars_of, string_from_chars};
use crate::token::{Token, TokenView};

verus! {

// ---------------------------------------------------------------------------
// The JSON form of the claims
// ---------------------------------------------------------------------------

pub open spec fn key_sub() -> Seq<char> {
    seq!['s', 'u', 'b']
}

pub open spec fn key_exp() -> Seq<char> {
    seq!['e', 'x', 'p']
}

pub open spec fn key_iat() -> Seq<char> {
    seq!['i', 'a', 't']
}

pub open spec fn key_jti() -> Seq<char> {
    seq!['j', 't', 'i']
}

/// The JSON object that carries the claims: the four members in the order
/// `sub`, `exp`, `iat`, `jti`, without whitespace.
pub open spec fn claims_text(t: TokenView) -> Seq<char> {
    seq!['{'] + json_string(key_sub()) + seq![':'] + json_string(t.sub) + seq![','] + json_string(
        key_exp(),
    ) + seq![':'] + int_text(t.exp) + seq![','] + json_string(key_iat()) + seq![':'] + int_text(
        t.iat,
    ) + seq![','] + json_string(key_jti()) + seq![':'] + json_string(t.jti) + seq!['}']
}

/// The claims read so far from an object, each at most once.
pub struct ClaimFields {
    pub sub: Option<Seq<char>>,
    pub exp: Option<int>,
    pub iat: Option<int>,
    pub jti: Option<Seq<char>>,
}

pub open spec fn no_fields() -> ClaimFields {
    ClaimFields { sub: None, exp: None, iat: None, jti: None }
}

/// The member `"key": value` whose key starts at `i`, added to `f`, and the
/// position just after the value. The keys `sub` and `jti` take a string,
/// `exp` and `iat` an integer, and each may come only once; the value of any
/// other key may be any JSON value and is passed over.
pub open spec fn member_at(s: Seq<char>, i: int, f: ClaimFields) -> Option<(ClaimFields, int)> {
    match string_at(s, i) {
        None => None,
        Some((key, p)) => {
            let q = ws_end(s, p);
            if !(0 <= q < s.len() && s[q] == ':') {
                None
            } else {
                let r = ws_end(s, q + 1);
                if key == key_sub() {
                    if f.sub is Some {
                        None
                    } else {
                        match string_at(s, r) {
                            Some((v, e)) => Some((ClaimFields { sub: Some(v), ..f }, e)),
                            None => None,
                        }
                    }
                } else if key == key_jti() {
                    if f.jti is Some {
                        None
                    } else {
                        match string_at(s, r) {
                            Some((v, e)) => Some((ClaimFields { jti: Some(v), ..f }, e)),
                            None => None,
                        }
                    }
                } else if key == key_exp() {
                    if f.exp is Some {
                        None
                    } else {
                        match int_at(s, r) {
                            Some((v, e)) => Some((ClaimFields { exp: Some(v), ..f }, e)),
                            None => None,
                        }
                    }
                } else if key == key_iat() {
                    if f.iat is Some {
                        None
                    } else {
                        match int_at(s, r) {
                            Some((v, e)) => Some((ClaimFields { iat: Some(v), ..f }, e)),
                            None => None,
                        }
                    }
                } else {
                    match value_end(s, r) {
                        Some(e) => Some((f, e)),
                        None => None,
                    }
                }
            }
        },
    }
}

/// The members from the key at `i` to the closing brace of the object, added
/// to `f`, and the position just after the brace.
pub open spec fn members_at(s: Seq<char>, i: int, f: ClaimFields) -> Option<(ClaimFields, int)>
    decreases s.len() - i,
{
    match member_at(s, i, f) {
        None => None,
        Some((g, e)) => {
            let p = ws_end(s, e);
            if 0 <= p < s.len() && s[p] == ',' {
                let next = ws_end(s, p + 1);
                if i < next <= s.len() {
                    members_at(s, next, g)
                } else {
                    None
                }
            } else if 0 <= p < s.len() && s[p] == '}' {
                Some((g, p + 1))
            } else {
                None
            }
        },
    }
}

/// The claims written by the JSON text `s`: one object, with whitespace
/// allowed around its tokens, holding each of the four claims once; other
/// members are passed over.
pub open spec fn parse_claims(s: Seq<char>) -> Option<TokenView> {
    let i = ws_end(s, 0);
    if !(0 <= i < s.len() && s[i] == '{') {
        None
    } else {
        match members_at(s, ws_end(s, i + 1), no_fields()) {
            None => None,
            Some((f, e)) => if ws_end(s, e) == s.len() {
                match (f.sub, f.exp, f.iat, f.jti) {
                    (Some(sub), Some(exp), Some(iat), Some(jti)) => Some(
                        TokenView { sub, exp, iat, jti },
                    ),
                    _ => None,
                }
            } else {
                None
            },
        }
    }
}

fn push_key(out: &mut Vec<char>, a: char, b: char, c: char)
    requires
        a != '"' && a != '\\' && (a as u32) >= 32,
        b != '"' && b != '\\' && (b as u32) >= 32,
        c != '"' && c != '\\' && (c as u32) >= 32,
    ensures
        final(out)@ == old(out)@ + json_string(seq![a, b, c]) + seq![':'],
{
    out.push('"');
    out.push(a);
    out.push(b);
    out.push(c);
    out.push('"');
    out.push(':');
    proof {
        reveal_with_fuel(escape_str, 4);
        assert(seq![a, b, c].drop_first() =~= seq![b, c]);
        assert(seq![b, c].drop_first() =~= seq![c]);
        assert(seq![c].drop_first() =~= Seq::<char>::empty());
        assert(escape_str(seq![a, b, c]) =~= seq![a, b, c]);
    }
    assert(final(out)@ =~= old(out)@ + json_string(seq![a, b, c]) + seq![':']);
}

impl Token {
    /// The JSON text of the claims.
    pub fn to_json(&self) -> (res: String)
        ensures
            res@ == claims_text(self@),
    {
        let mut out: Vec<char> = Vec::new();
        out.push('{');
        push_key(&mut out, 's', 'u', 'b');
        push_json_string(&mut out, &chars_of(self.sub.as_str()));
        out.push(',');
        push_key(&mut out, 'e', 'x', 'p');
        push_int(&mut out, self.exp);
        out.push(',');
        push_key(&mut out, 'i', 'a', 't');
        push_int(&mut out, self.iat);
        out.push(',');
        push_key(&mut out, 'j', 't', 'i');
        push_json_string(&mut out, &chars_of(self.jti.as_str()));
        out.push('}');
        assert(out@ =~= claims_text(self@));
        string_from_chars(&out)
    }
}

/// Claims read so far, as executable values.
struct Fields {
    sub: Option<Vec<char>>,
    exp: Option<i64>,
    iat: Option<i64>,
    jti: Option<Vec<char>>,
}

impl View for Fields {
    type V = ClaimFields;

    closed spec fn view(&self) -> ClaimFields {
        ClaimFields {
            sub: match self.sub {
                Some(v) => Some(v@),
                None => None,
            },
            exp: match self.exp {
                Some(v) => Some(v as int),
                None => None,
            },
            iat: match self.iat {
                Some(v) => Some(v as int),
                None => None,
            },
            jti: match self.jti {
                Some(v) => Some(v@),
                None => None,
            },
        }
    }
}

fn key_is(k: &Vec<char>, a: char, b: char, c: char) -> (r: bool)
    ensures
        r == (k@ == seq![a, b, c]),
{
    if k.len() == 3 && k[0] == a && k[1] == b && k[2] == c {
        assert(k@ =~= seq![a, b, c]);
        true
    } else {
        false
    }
}

fn parse_member(s: &Vec<char>, i: usize, f: Fields) -> (res: Option<(Fields, usize)>)
    ensures
        match member_at(s@, i as int, f@) {
            Some((g, e)) => res matches Some((h, x)) && h@ == g && x as int == e,
            None => res is None,
        },
        res matches Some((h, x)) ==> x <= s@.len(),
{
    let (key, p) = match parse_string(s, i) {
        Some(r) => r,
        None => {
            return None;
        },
    };
    let q = skip_ws(s, p);
    if !(q < s.len() && s[q] == ':') {
        return None;
    }
    let r = skip_ws(s, q + 1);
    let ghost f0 = f@;
    let mut f = f;
    if key_is(&key, 's', 'u', 'b') {
        if f.sub.is_some() {
            return None;
        }
        match parse_string(s, r) {
            Some((v, e)) => {
                f.sub = Some(v);
                assert(f@ == ClaimFields { sub: Some(v@), ..f0 });
                Some((f, e))
            },
            None => None,
        }
    } else if key_is(&key, 'j', 't', 'i') {
        if f.jti.is_some() {
            return None;
        }
        match parse_string(s, r) {
            Some((v, e)) => {
                f.jti = Some(v);
                Some((f, e))
            },
            None => None,
        }
    } else if key_is(&key, 'e', 'x', 'p') {
        if f.exp.is_some() {
            return None;
        }
        match parse_int(s, r) {
            Some((v, e)) => {
                f.exp = Some(v);
                Some((f, e))
            },
            None => None,
        }
    } else if key_is(&key, 'i', 'a', 't') {
        if f.iat.is_some() {
            return None;
        }
        match parse_int(s, r) {
            Some((v, e)) => {
                f.iat = Some(v);
                Some((f, e))
            },
            None => None,
        }
    } else {
        match skip_value(s, r) {
            Some(e) => Some((f, e)),
            None => None,
        }
    }
}

impl Token {
    /// Reads the claims from their JSON text.
    pub fn from_json(text: &str) -> (res: Option<Token>)
        ensures
            match parse_claims(text@) {
                Some(v) => res matches Some(t) && t@ == v,
                None => res is None,
            },
    {
        let s = chars_of(text);
        let i = skip_ws(&s, 0);
        if !(i < s.len() && s[i] == '{') {
            return None;
        }
        let start = skip_ws(&s, i + 1);
        let mut cur = start;
        let mut f = Fields { sub: None, exp: None, iat: None, jti: None };
        let mut end: usize = 0;
        loop
            invariant_except_break
                cur <= s@.len(),
                members_at(s@, start as int, no_fields()) == members_at(s@, cur as int, f@),
            invariant
                s@ == text@,
                i < s@.len(),
                s@[i as int] == '{',
                i as int == ws_end(s@, 0),
                start as int == ws_end(s@, i + 1),
            ensures
                end <= s@.len(),
                members_at(s@, start as int, no_fields()) == Some((f@, end as int)),
            decreases s@.len() - cur,
        {
            let (g, e) = match parse_member(&s, cur, f) {
                Some(r) => r,
                None => {
                    return None;
                },
            };
            let p = skip_ws(&s, e);
            if p < s.len() && s[p] == ',' {
                let next = skip_ws(&s, p + 1);
                if !(cur < next) {
                    return None;
                }
                cur = next;
                f = g;
            } else if p < s.len() && s[p] == '}' {
                f = g;
                end = p + 1;
                break ;
            } else {
                return None;
            }
        }
        if skip_ws(&s, end) != s.len() {
            return None;
        }
        match (f.sub, f.exp, f.iat, f.jti) {
            (Some(sub), Some(exp), Some(iat), Some(jti)) => Some(
                Token {
                    sub: string_from_chars(&sub),
                    exp,
                    iat,
                    jti: string_from_chars(&jti),
                },
            ),
            _ => None,
        }
    }
}

// ---------------------------------------------------------------------------
// The claims read back as written
// ---------------------------------------------------------------------------

proof fn lemma_split_prefix(s: Seq<char>, a: Seq<char>, b: Seq<char>)
    requires
        (a + b).len() <= s.len(),
        s.subrange(0, (a + b).len() as int) == a + b,
    ensures
        s.subrange(0, a.len() as int) == a,
        s.subrange(a.len() as int, (a.len() + b.len()) as int) == b,
{
    assert forall|t: int| 0 <= t < a.len() implies #[trigger] s.subrange(0, a.len() as int)[t]
        == a[t] by {
        assert(s.subrange(0, (a + b).len() as int)[t] == (a + b)[t]);
    }
    assert forall|t: int| 0 <= t < b.len() implies #[trigger] s.subrange(
        a.len() as int,
        (a.len() + b.len()) as int,
    )[t] == b[t] by {
        assert(s.subrange(0, (a + b).len() as int)[a.len() + t] == (a + b)[a.len() + t]);
        assert(s.subrange(0, (a + b).len() as int)[a.len() + t] == s[a.len() + t]);
    }
    assert(s.subrange(0, a.len() as int) =~= a);
    assert(s.subrange(a.len() as int, (a.len() + b.len()) as int) =~= b);
}

proof fn lemma_key_text(k: Seq<char>)
    requires
        k.len() == 3,
        forall|t: int| 0 <= t < 3 ==> 'a' <= #[trigger] k[t] && k[t] <= 'z',
    ensures
        json_string(k) == seq!['"'] + k + seq!['"'],
        json_string(k).len() == 5,
{
    reveal_with_fuel(escape_str, 4);
    assert(k.drop_first().drop_first().drop_first() =~= Seq::<char>::empty());
    assert(escape_str(k) =~= k);
}

/// Where each piece of the JSON form of `t` stands in `s`.
pub open spec fn claims_layout(s: Seq<char>, t: TokenView) -> bool {
    let l1 = json_string(t.sub).len() as int;
    let n1 = int_text(t.exp).len() as int;
    let n2 = int_text(t.iat).len() as int;
    let l2 = json_string(t.jti).len() as int;
    &&& s.len() == 29 + l1 + n1 + n2 + l2
    &&& s[0] == '{'
    &&& s.subrange(1, 6) == json_string(key_sub())
    &&& s[6] == ':'
    &&& s.subrange(7, 7 + l1) == json_string(t.sub)
    &&& s[7 + l1] == ','
    &&& s.subrange(8 + l1, 13 + l1) == json_string(key_exp())
    &&& s[13 + l1] == ':'
    &&& s.subrange(14 + l1, 14 + l1 + n1) == int_text(t.exp)
    &&& s[14 + l1 + n1] == ','
    &&& s.subrange(15 + l1 + n1, 20 + l1 + n1) == json_string(key_iat())
    &&& s[20 + l1 + n1] == ':'
    &&& s.subrange(21 + l1 + n1, 21 + l1 + n1 + n2) == int_text(t.iat)
    &&& s[21 + l1 + n1 + n2] == ','
    &&& s.subrange(22 + l1 + n1 + n2, 27 + l1 + n1 + n2) == json_string(key_jti())
    &&& s[27 + l1 + n1 + n2] == ':'
    &&& s.subrange(28 + l1 + n1 + n2, 28 + l1 + n1 + n2 + l2) == json_string(t.jti)
    &&& s[28 + l1 + n1 + n2 + l2] == '}'
}

/// Where each piece of `claims_text(t)` stands.
#[verifier::rlimit(50)]
pub proof fn lemma_claims_layout(t: TokenView)
    ensures
        claims_layout(claims_text(t), t),
{
    let s = claims_text(t);
    lemma_key_text(key_sub());
    lemma_key_text(key_exp());
    lemma_key_text(key_iat());
    lemma_key_text(key_jti());
    let ks = json_string(key_sub());
    let ke = json_string(key_exp());
    let ki = json_string(key_iat());
    let kj = json_string(key_jti());
    let vs = json_string(t.sub);
    let ve = int_text(t.exp);
    let vi = int_text(t.iat);
    let vj = json_string(t.jti);
    let p0 = seq!['{'];
    let p1 = p0 + ks + seq![':'];
    let p2 = p1 + vs + seq![','];
    let p3 = p2 + ke + seq![':'];
    let p4 = p3 + ve + seq![','];
    let p5 = p4 + ki + seq![':'];
    let p6 = p5 + vi + seq![','];
    let p7 = p6 + kj + seq![':'];
    let p8 = p7 + vj;
    assert(s == p8 + seq!['}']);
    assert(s.subrange(0, s.len() as int) =~= s);
    lemma_split_prefix(s, p8, seq!['}']);
    lemma_split_prefix(s, p7, vj);
    lemma_split_prefix(s, p6 + kj, seq![':']);
    lemma_split_prefix(s, p6, kj);
    lemma_split_prefix(s, p5 + vi, seq![',']);
    lemma_split_prefix(s, p5, vi);
    lemma_split_prefix(s, p4 + ki, seq![':']);
    lemma_split_prefix(s, p4, ki);
    lemma_split_prefix(s, p3 + ve, seq![',']);
    lemma_split_prefix(s, p3, ve);
    lemma_split_prefix(s, p2 + ke, seq![':']);
    lemma_split_prefix(s, p2, ke);
    lemma_split_prefix(s, p1 + vs, seq![',']);
    lemma_split_prefix(s, p1, vs);
    lemma_split_prefix(s, p0 + ks, seq![':']);
    lemma_split_prefix(s, p0, ks);
    lemma_one_char(s, p0.len() as int, ks.len() as int, seq![':']);
}

proof fn lemma_one_char(s: Seq<char>, a: int, b: int, c: Seq<char>)
    requires
        c.len() == 1,
        0 <= a,
        0 <= b,
        a + b + 1 <= s.len(),
        s.subrange(a + b, a + b + 1) == c,
    ensures
        s[a + b] == c[0],
{
    assert(s.subrange(a + b, a + b + 1)[0] == s[a + b]);
}

proof fn lemma_key_at(s: Seq<char>, a: int, key: Seq<char>)
    requires
        key == key_sub() || key == key_exp() || key == key_iat() || key == key_jti(),
        0 <= a,
        a + 6 < s.len(),
        s.subrange(a, a + 5) == json_string(key),
        s[a + 5] == ':',
        !is_ws(s[a + 6]),
    ensures
        string_at(s, a) == Some((key, a + 5)),
        ws_end(s, a + 5) == a + 5,
        ws_end(s, a + 6) == a + 6,
{
    lemma_key_text(key);
    lemma_string_at_json_string(s, a, key);
}

proof fn lemma_text_starts(s: Seq<char>, a: int, piece: Seq<char>)
    requires
        0 <= a,
        piece.len() > 0,
        a + piece.len() <= s.len(),
        s.subrange(a, a + piece.len()) == piece,
    ensures
        s[a] == piece[0],
{
    assert(s.subrange(a, a + piece.len())[0] == s[a]);
}

proof fn lemma_int_text_start(v: int)
    ensures
        int_text(v).len() > 0,
        !is_ws(int_text(v)[0]),
        int_text(v)[0] != '"',
{
    let n: nat = if v < 0 {
        (-v) as nat
    } else {
        v as nat
    };
    lemma_nat_text_facts(n);
    assert(is_digit(nat_text(n)[0]));
}

/// The claims written by `claims_text` read back as the same claims: the
/// JSON form of a token loses nothing.
pub proof fn lemma_parse_claims_text(t: TokenView)
    requires
        i64::MIN <= t.exp <= i64::MAX,
        i64::MIN <= t.iat <= i64::MAX,
    ensures
        parse_claims(claims_text(t)) == Some(t),
{
    lemma_claims_layout(t);
    lemma_parse_laid_out(claims_text(t), t);
}

#[verifier::rlimit(50)]
proof fn lemma_parse_laid_out(s: Seq<char>, t: TokenView)
    requires
        i64::MIN <= t.exp <= i64::MAX,
        i64::MIN <= t.iat <= i64::MAX,
        claims_layout(s, t),
    ensures
        parse_claims(s) == Some(t),
{
    let l1 = json_string(t.sub).len() as int;
    let n1 = int_text(t.exp).len() as int;
    let n2 = int_text(t.iat).len() as int;
    let l2 = json_string(t.jti).len() as int;
    lemma_int_text_start(t.exp);
    lemma_int_text_start(t.iat);
    lemma_text_starts(s, 7, json_string(t.sub));
    lemma_text_starts(s, 14 + l1, int_text(t.exp));
    lemma_text_starts(s, 21 + l1 + n1, int_text(t.iat));
    lemma_text_starts(s, 28 + l1 + n1 + n2, json_string(t.jti));
    lemma_key_text(key_sub());
    lemma_key_text(key_exp());
    lemma_key_text(key_iat());
    lemma_key_text(key_jti());
    lemma_text_starts(s, 1, json_string(key_sub()));
    lemma_text_starts(s, 8 + l1, json_string(key_exp()));
    lemma_text_starts(s, 15 + l1 + n1, json_string(key_iat()));
    lemma_text_starts(s, 22 + l1 + n1 + n2, json_string(key_jti()));
    lemma_key_at(s, 1, key_sub());
    lemma_key_at(s, 8 + l1, key_exp());
    lemma_key_at(s, 15 + l1 + n1, key_iat());
    lemma_key_at(s, 22 + l1 + n1 + n2, key_jti());
    lemma_string_at_json_string(s, 7, t.sub);
    lemma_int_at_int_text(s, 14 + l1, t.exp);
    lemma_int_at_int_text(s, 21 + l1 + n1, t.iat);
    lemma_string_at_json_string(s, 28 + l1 + n1 + n2, t.jti);
    assert(key_jti() != key_sub() && key_jti() != key_exp() && key_jti() != key_iat()) by {
        assert(key_jti()[0] != key_sub()[0]);
        assert(key_jti()[0] != key_exp()[0]);
        assert(key_jti()[0] != key_iat()[0]);
    }
    assert(key_iat() != key_sub() && key_iat() != key_exp()) by {
        assert(key_iat()[0] != key_sub()[0]);
        assert(key_iat()[0] != key_exp()[0]);
    }
    assert(key_exp() != key_sub()) by {
        assert(key_exp()[0] != key_sub()[0]);
    }
    let f1 = ClaimFields { sub: Some(t.sub), ..no_fields() };
    let f2 = ClaimFields { exp: Some(t.exp), ..f1 };
    let f3 = ClaimFields { iat: Some(t.iat), ..f2 };
    let f4 = ClaimFields { jti: Some(t.jti), ..f3 };
    let e8 = 28 + l1 + n1 + n2 + l2;
    assert(member_at(s, 22 + l1 + n1 + n2, f3) == Some((f4, e8)));
    assert(members_at(s, 22 + l1 + n1 + n2, f3) == Some((f4, e8 + 1)));
    assert(member_at(s, 15 + l1 + n1, f2) == Some((f3, 21 + l1 + n1 + n2)));
    assert(members_at(s, 15 + l1 + n1, f2) == Some((f4, e8 + 1)));
    assert(member_at(s, 8 + l1, f1) == Some((f2, 14 + l1 + n1)));
    assert(members_at(s, 8 + l1, f1) == Some((f4, e8 + 1)));
    assert(member_at(s, 1, no_fields()) == Some((f1, 7 + l1)));
    assert(members_at(s, 1, no_fields()) == Some((f4, e8 + 1)));
}

proof fn lemma_key_entry(s: Seq<char>, a: int, key: Seq<char>)
    requires
        key == key_sub() || key == key_exp() || key == key_iat() || key == key_jti(),
        0 <= a,
        a + 6 < s.len(),
        s.subrange(a, a + 5) == json_string(key),
        s[a + 5] == ':',
        !is_ws(s[a + 6]),
    ensures
        s[a] == '"',
        loose_string_end(s, a + 1) == Some(a + 5),
        ws_end(s, a + 5) == a + 5,
        ws_end(s, a + 6) == a + 6,
{
    lemma_key_text(key);
    lemma_value_end_json_string(s, a, key);
    assert(s[a] == s.subrange(a, a + 5)[0]);
}

#[verifier::rlimit(50)]
proof fn lemma_laid_out_is_json(s: Seq<char>, t: TokenView)
    requires
        claims_layout(s, t),
    ensures
        is_json_text(s),
        ws_end(s, 0) == 0,
        value_end(s, 0) == Some(s.len() as int),
{
    let l1 = json_string(t.sub).len() as int;
    let n1 = int_text(t.exp).len() as int;
    let n2 = int_text(t.iat).len() as int;
    let l2 = json_string(t.jti).len() as int;
    lemma_int_text_start(t.exp);
    lemma_int_text_start(t.iat);
    lemma_text_starts(s, 7, json_string(t.sub));
    lemma_text_starts(s, 14 + l1, int_text(t.exp));
    lemma_text_starts(s, 21 + l1 + n1, int_text(t.iat));
    lemma_text_starts(s, 28 + l1 + n1 + n2, json_string(t.jti));
    lemma_key_entry(s, 1, key_sub());
    lemma_key_entry(s, 8 + l1, key_exp());
    lemma_key_entry(s, 15 + l1 + n1, key_iat());
    lemma_key_entry(s, 22 + l1 + n1 + n2, key_jti());
    lemma_value_end_json_string(s, 7, t.sub);
    lemma_value_end_int_text(s, 14 + l1, t.exp);
    lemma_value_end_int_text(s, 21 + l1 + n1, t.iat);
    lemma_value_end_json_string(s, 28 + l1 + n1 + n2, t.jti);
    let e8 = 28 + l1 + n1 + n2 + l2;
    assert(entries_end(s, 22 + l1 + n1 + n2) == Some(e8 + 1));
    assert(entries_end(s, 15 + l1 + n1) == Some(e8 + 1));
    assert(entries_end(s, 8 + l1) == Some(e8 + 1));
    assert(entries_end(s, 1) == Some(e8 + 1));
    assert(ws_end(s, 0) == 0);
    assert(ws_end(s, 1) == 1);
    assert(value_end(s, 0) == Some(e8 + 1));
}

/// The JSON form of the claims is JSON text.
pub proof fn lemma_claims_text_is_json(t: TokenView)
    ensures
        is_json_text(claims_text(t)),
        ws_end(claims_text(t), 0) == 0,
        value_end(claims_text(t), 0) == Some(claims_text(t).len() as int),
{
    lemma_claims_layout(t);
    lemma_laid_out_is_json(claims_text(t), t);
}

} // verus!
