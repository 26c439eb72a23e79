//! Session tokens: the claims they carry, and the creation and renewal of
//! signed tokens.

use vstd::prelude::*;

use crate::claims::{
    claims_text, lemma_claims_layout, lemma_claims_text_is_json, lemma_parse_claims_text,
    parse_claims,
};
use crate::base64::{b64url, lemma_b64url_len};
use crate::json::{is_ws, ws_end};
use crate::json_value::{is_json_text, value_end};
use vstd::utf8::encode_utf8;

verus! {

/// The claims of a session token.
pub struct Token {
    /// The subject: the user the token was issued to.
    pub sub: String,
    /// The expiry, in seconds since the Unix epoch.
    pub exp: i64,
    /// The issued at field, in seconds since the Unix epoch.
    pub iat: i64,
    /// The token id.
    pub jti: String,
}

/// The claims of a token as mathematical values.
pub struct TokenView {
    pub sub: Seq<char>,
    pub exp: int,
    pub iat: int,
    pub jti: Seq<char>,
}

impl View for Token {
    type V = TokenView;

    open spec fn view(&self) -> TokenView {
        TokenView { sub: self.sub@, exp: self.exp as int, iat: self.iat as int, jti: self.jti@ }
    }
}

// ---------------------------------------------------------------------------
// Signing
// ---------------------------------------------------------------------------

/// Why a token could not be made or accepted.
#[derive(Debug, Clone, Copy, PartialEq, Eq, Structural)]
pub enum TokenError {
    /// The token could not be created.
    Create,
    /// The token could not be verified.
    Verify,
}

impl TokenError {
    /// The HTTP status code that answers the error: 500 for a token that could
    /// not be created, 401 for one that could not be verified.
    pub fn status_code(&self) -> (code: u16)
        ensures
            code == match self {
                TokenError::Create => 500u16,
                TokenError::Verify => 401u16,
            },
    {
        match self {
            TokenError::Create => 500,
            TokenError::Verify => 401,
        }
    }

    /// The message of the error.
    pub fn message(&self) -> (m: String)
        ensures
            m@ == match self {
                TokenError::Create => "Token creation error"@,
                TokenError::Verify => "Token verification error"@,
            },
    {
        match self {
            TokenError::Create => String::from_str("Token creation error"),
            TokenError::Verify => String::from_str("Token verification error"),
        }
    }
}

/// How long a token stays valid, in seconds.
pub const DEFAULT_TOKEN_VALIDITY: i64 = 3600;

/// The secret that tokens are signed with (the bytes of `my_secret`).
pub open spec fn token_secret() -> Seq<u8> {
    seq![109u8, 121u8, 95u8, 115u8, 101u8, 99u8, 114u8, 101u8, 116u8]
}

fn secret_bytes() -> (s: Vec<u8>)
    ensures
        s@ == token_secret(),
{
    let s = vec![109u8, 121u8, 95u8, 115u8, 101u8, 99u8, 114u8, 101u8, 116u8];
    assert(s@ =~= token_secret());
    s
}

/// The bytes of the default JWT header as `jsonwebtoken` writes it:
/// `{"typ":"JWT","alg":"HS256"}`.
pub open spec fn jwt_header_json() -> Seq<u8> {
    seq![
        123u8, 34u8, 116u8, 121u8, 112u8, 34u8, 58u8, 34u8, 74u8, 87u8, 84u8, 34u8, 44u8, 34u8,
        97u8, 108u8, 103u8, 34u8, 58u8, 34u8, 72u8, 83u8, 50u8, 53u8, 54u8, 34u8, 125u8,
    ]
}

/// The HMAC-SHA256 of `message` under `key` (as `ring::hmac::sign` computes
/// it inside `jsonwebtoken`'s signing).
pub uninterp spec fn hmac_sha256(key: Seq<u8>, message: Seq<u8>) -> Seq<u8>;

/// What a JWT's signature covers: the base64 forms of the header and of the
/// claims, joined by a dot.
pub open spec fn jwt_signing_input(claims: Seq<u8>) -> Seq<char> {
    b64url(jwt_header_json()) + seq!['.'] + b64url(claims)
}

/// The HS256 JWT of the claims bytes `claims` under `secret`: the signing
/// input, a dot, and the base64 form of its HMAC-SHA256.
pub open spec fn jwt_token(claims: Seq<u8>, secret: Seq<u8>) -> Seq<char> {
    jwt_signing_input(claims) + seq!['.'] + b64url(
        hmac_sha256(secret, encode_utf8(jwt_signing_input(claims))),
    )
}

/// JSON text without the whitespace around its value.
pub open spec fn json_trim(s: Seq<char>) -> Seq<char> {
    let i = ws_end(s, 0);
    match value_end(s, i) {
        Some(e) => s.subrange(i, e),
        None => s,
    }
}

/// The token that `jsonwebtoken::encode` makes from the default header and
/// the JSON claims `claims_json` under the HMAC secret `secret`: `None` for
/// text that is not JSON, else the HS256 JWT of the trimmed text.
pub open spec fn hs256_token(claims_json: Seq<char>, secret: Seq<u8>) -> Option<Seq<char>> {
    if is_json_text(claims_json) {
        Some(jwt_token(encode_utf8(json_trim(claims_json)), secret))
    } else {
        None
    }
}

/// The length of a token whose claims are `n` bytes long.
pub open spec fn token_len(n: nat) -> int {
    81 + (4 * n as int + 2) / 3
}

/// What `jsonwebtoken::decode` gives back for `token` under the HMAC secret
/// `secret`, with HS256 as the only algorithm and no claim required or
/// checked against the clock: the JSON text of the claims, or `None` where the
/// token is malformed or its signature does not verify.
pub uninterp spec fn hs256_claims(token: Seq<char>, secret: Seq<u8>) -> Option<Seq<char>>;

/// `jsonwebtoken::encode` with the default header and an HMAC key from
/// `secret`, over claims given as JSON text (carried by
/// `serde_json::value::RawValue`, which keeps the text without the
/// whitespace around it and serialises as that text). It succeeds exactly for
/// JSON text (`RawValue::from_string` reads one value with `serde_json`'s
/// grammar for values it passes over; signing with an HMAC key cannot fail),
/// and then gives `base64url(header) "." base64url(claims) "."
/// base64url(HMAC-SHA256(secret, signing input))` (`hs256_token`); the HMAC is
/// 32 bytes long. For the JSON
/// form of token claims, the token carries exactly that text: encode signs
/// `header.claims` with the base64url forms of both, and decode (as
/// `jwt_decode` calls it) checks that signature, reads the claims for its own
/// checks without error (they hold each of `sub` and `exp` once and no `nbf`,
/// `iss` or `aud`) and gives back the base64url-decoded text.
#[verifier::external_body]
fn jwt_encode(claims_json: &str, secret: &[u8]) -> (res: Option<String>)
    ensures
        match res {
            Some(t) => hs256_token(claims_json@, secret@) == Some(t@),
            None => hs256_token(claims_json@, secret@) is None,
        },
        res is Some <==> is_json_text(claims_json@),
        res matches Some(t) ==> hmac_sha256(
            secret@,
            encode_utf8(jwt_signing_input(encode_utf8(json_trim(claims_json@)))),
        ).len() == 32,
        res matches Some(t) ==> (exists|v: TokenView| claims_text(v) == claims_json@) ==> hs256_claims(
            t@,
            secret@,
        ) == Some(claims_json@),
{
    let claims = serde_json::value::RawValue::from_string(claims_json.to_string()).ok()?;
    jsonwebtoken::encode(
        &jsonwebtoken::Header::default(),
        &claims,
        &jsonwebtoken::EncodingKey::from_secret(secret),
    ).ok()
}

/// `jsonwebtoken::decode` with an HMAC key from `secret`, HS256 as the only
/// algorithm, no required claims and the expiry check off, giving back the
/// claims as JSON text; the result is named by `hs256_claims`. With those
/// settings no check reads the clock, but `decode` still reads it
/// (`get_current_timestamp`, which panics for a clock before the epoch):
/// callers read the clock first and do not decode when it is before the
/// epoch.
#[verifier::external_body]
fn jwt_decode(token: &str, secret: &[u8]) -> (res: Option<String>)
    ensures
        match res {
            Some(c) => hs256_claims(token@, secret@) == Some(c@),
            None => hs256_claims(token@, secret@) is None,
        },
{
    let mut validation = jsonwebtoken::Validation::new(jsonwebtoken::Algorithm::HS256);
    validation.validate_exp = false;
    validation.required_spec_claims.clear();
    jsonwebtoken::decode::<Box<serde_json::value::RawValue>>(
        token,
        &jsonwebtoken::DecodingKey::from_secret(secret),
        &validation,
    ).ok().map(|data| data.claims.get().to_string())
}

#[verifier::external_type_specification]
#[verifier::external_body]
pub struct ExSystemTime(std::time::SystemTime);

/// `SystemTime::now`: the current time of the system clock; nothing is known
/// of it.
#[verifier::external_body]
fn system_now() -> std::time::SystemTime {
    std::time::SystemTime::now()
}

/// `SystemTime::duration_since(UNIX_EPOCH)` in whole seconds, or `None` for
/// a time before the epoch; nothing is known of the value.
#[verifier::external_body]
fn secs_since_epoch(t: &std::time::SystemTime) -> Option<u64> {
    t.duration_since(std::time::UNIX_EPOCH).ok().map(|d| d.as_secs())
}

/// A lower-case hexadecimal digit.
pub open spec fn is_lower_hex(c: char) -> bool {
    ('0' <= c && c <= '9') || ('a' <= c && c <= 'f')
}

/// The hyphenated form of a version 4 UUID: 36 characters, hyphens at 8, 13,
/// 18 and 23, lower-case hexadecimal digits elsewhere, the version digit `4`
/// at 14 and a variant digit `8`, `9`, `a` or `b` at 19.
pub open spec fn is_uuid_v4_text(s: Seq<char>) -> bool {
    &&& s.len() == 36
    &&& forall|i: int|
        0 <= i < 36 ==> if i == 8 || i == 13 || i == 18 || i == 23 {
            s[i] == '-'
        } else {
            is_lower_hex(#[trigger] s[i])
        }
    &&& s[14] == '4'
    &&& (s[19] == '8' || s[19] == '9' || s[19] == 'a' || s[19] == 'b')
}

/// `Uuid::new_v4().to_string()`: a fresh random version 4 UUID in its
/// hyphenated, lower-case form (as `uuid`'s `Display` writes it). Which UUID
/// comes out is left open.
#[verifier::external_body]
fn new_token_id() -> (id: String)
    ensures
        is_uuid_v4_text(id@),
{
    uuid::Uuid::new_v4().to_string()
}

/// The user that decoded claims name: the subject of the claims, where the
/// text is a token's claims.
pub open spec fn claims_subject(claims: Option<Seq<char>>) -> Option<Seq<char>> {
    match claims {
        Some(c) => match parse_claims(c) {
            Some(v) => Some(v.sub),
            None => None,
        },
        None => None,
    }
}

/// The user that a token names: the subject of the claims that it carries
/// under a valid signature with the token secret.
pub open spec fn token_subject(token: Seq<char>) -> Option<Seq<char>> {
    claims_subject(hs256_claims(token, token_secret()))
}

/// The claims that a reader of `token` finds: those that the token carries
/// under a valid signature with the token secret, read as token claims.
pub open spec fn token_claims(token: Seq<char>) -> Option<TokenView> {
    match hs256_claims(token, token_secret()) {
        Some(c) => parse_claims(c),
        None => None,
    }
}

/// The claims issued at `now` (seconds since the epoch) for `username`, with
/// the id `jti`: valid for `DEFAULT_TOKEN_VALIDITY` seconds.
pub open spec fn issued_claims(username: Seq<char>, now: int, jti: Seq<char>) -> TokenView {
    TokenView { sub: username, exp: now + 3600, iat: now, jti }
}

proof fn lemma_claims_text_ends(t: TokenView)
    ensures
        claims_text(t).len() > 0,
        claims_text(t)[0] == '{',
        claims_text(t).last() == '}',
{
    lemma_claims_layout(t);
}

/// The time of the system clock in whole seconds since the epoch, or `None`
/// for a clock before it; nothing is known of the value.
pub fn clock_secs() -> Option<u64> {
    secs_since_epoch(&system_now())
}

/// A fresh random token id: a version 4 UUID in hyphenated form.
pub fn fresh_token_id() -> (id: String)
    ensures
        is_uuid_v4_text(id@),
{
    new_token_id()
}

/// The token made from JSON text with no whitespace around its value is the
/// JWT of that text, and its length follows from the length of the text.
proof fn lemma_token_of_text(c: Seq<char>, token: Seq<char>)
    requires
        ws_end(c, 0) == 0,
        value_end(c, 0) == Some(c.len() as int),
        hs256_token(c, token_secret()) == Some(token),
        hmac_sha256(token_secret(), encode_utf8(jwt_signing_input(encode_utf8(json_trim(c))))).len()
            == 32,
    ensures
        token == jwt_token(encode_utf8(c), token_secret()),
        token.len() == token_len(encode_utf8(c).len()),
{
    assert(c.subrange(0, c.len() as int) =~= c);
    assert(json_trim(c) == c);
    let b = encode_utf8(c);
    lemma_b64url_len(jwt_header_json());
    lemma_b64url_len(b);
    lemma_b64url_len(hmac_sha256(token_secret(), encode_utf8(jwt_signing_input(b))));
    assert(jwt_header_json().len() == 27);
}

/// The leeway of the expiry check, in seconds.
pub const EXPIRY_LEEWAY: i64 = 60;

/// The view of a result that carries a token.
pub open spec fn token_result(r: Result<String, TokenError>) -> Result<Seq<char>, TokenError> {
    match r {
        Ok(s) => Ok(s@),
        Err(e) => Err(e),
    }
}

/// The token made for `username` at the time `now` (whole seconds since the
/// epoch; `None` for a clock before it) with the id `jti`: the signed JSON form
/// of the issued claims, or `Create` where there is no time that the expiry
/// can be written for.
pub open spec fn creation(username: Seq<char>, now: Option<u64>, jti: Seq<char>) -> Result<
    Seq<char>,
    TokenError,
> {
    match now {
        Some(n) => if n <= i64::MAX - DEFAULT_TOKEN_VALIDITY {
            match hs256_token(claims_text(issued_claims(username, n as int, jti)), token_secret()) {
                Some(t) => Ok(t),
                None => Err(TokenError::Create),
            }
        } else {
            Err(TokenError::Create)
        },
        None => Err(TokenError::Create),
    }
}

/// Whether claims expiring at `exp` are still accepted at `now`: the expiry
/// must be a non-negative number of seconds that has not passed by more than
/// the leeway.
pub open spec fn unexpired(exp: int, now: u64) -> bool {
    0 <= exp && now <= exp + EXPIRY_LEEWAY
}

/// The answer to a token whose decoded claims are `claims` (`None` where it
/// does not decode), at the time `now`, with `jti` as the id of the new token:
/// `Verify` without a time, without claims, for claims that are no token's
/// claims or that have expired; else the token made for the same user.
pub open spec fn renewal(claims: Option<Seq<char>>, now: Option<u64>, jti: Seq<char>) -> Result<
    Seq<char>,
    TokenError,
> {
    match now {
        None => Err(TokenError::Verify),
        Some(n) => match claims {
            None => Err(TokenError::Verify),
            Some(c) => match parse_claims(c) {
                None => Err(TokenError::Verify),
                Some(v) => if unexpired(v.exp, n) {
                    creation(v.sub, now, jti)
                } else {
                    Err(TokenError::Verify)
                },
            },
        },
    }
}

/// A token made by `create_at` at `n0` is renewed at any later time `n1`
/// up to its expiry and leeway, for the same user: the answer is the token
/// made for that user at `n1`. The renewed token carries claims of the same
/// kind (see `Token::create_at`), so it is renewed in turn.
pub proof fn lemma_renewal_while_unexpired(
    token: Seq<char>,
    username: Seq<char>,
    n0: u64,
    j0: Seq<char>,
    n1: u64,
    j1: Seq<char>,
)
    requires
        hs256_claims(token, token_secret()) == Some(
            claims_text(issued_claims(username, n0 as int, j0)),
        ),
        n0 <= i64::MAX - DEFAULT_TOKEN_VALIDITY,
        n1 <= n0 + DEFAULT_TOKEN_VALIDITY + EXPIRY_LEEWAY,
    ensures
        renewal(hs256_claims(token, token_secret()), Some(n1), j1) == creation(
            username,
            Some(n1),
            j1,
        ),
        token_subject(token) == Some(username),
{
    lemma_parse_claims_text(issued_claims(username, n0 as int, j0));
}

/// A token made at `n0` (its claims say it was issued then and expires an
/// hour later) is refused at any time `n1` more than the hour and the leeway
/// later: whatever id the new token would get, the answer is `Verify`.
pub proof fn lemma_renewal_after_expiry(
    token: Seq<char>,
    username: Seq<char>,
    n0: u64,
    j0: Seq<char>,
    n1: u64,
    j1: Seq<char>,
)
    requires
        token_claims(token) == Some(
            TokenView { sub: username, exp: n0 + 3600, iat: n0 as int, jti: j0 },
        ),
        n1 > n0 + 3600 + 60,
    ensures
        renewal(hs256_claims(token, token_secret()), Some(n1), j1) == Err::<Seq<char>, TokenError>(
            TokenError::Verify,
        ),
{
}

/// Renewal decides by the expiry that the presented claims carry and the time
/// of the answer: claims that expired more than the leeway before `n` (or
/// carry a negative expiry) are refused with `Verify`; others are answered by
/// the token made for the same subject at that same time `n`.
pub proof fn lemma_renewal_by_expiry(c: Seq<char>, n: u64, j: Seq<char>)
    requires
        parse_claims(c) is Some,
    ensures
        ({
            let v = parse_claims(c)->0;
            &&& (v.exp < 0 || n > v.exp + 60) ==> renewal(Some(c), Some(n), j) == Err::<
                Seq<char>,
                TokenError,
            >(TokenError::Verify)
            &&& (0 <= v.exp && n <= v.exp + 60) ==> renewal(Some(c), Some(n), j) == creation(
                v.sub,
                Some(n),
                j,
            )
        }),
{
}

impl Token {
    /// The claims issued at `now` for `username`, with the id `jti`.
    pub fn new(username: &str, now: i64, jti: String) -> (t: Token)
        requires
            now <= i64::MAX - DEFAULT_TOKEN_VALIDITY,
        ensures
            t@ == issued_claims(username@, now as int, jti@),
    {
        Token {
            sub: String::from_str(username),
            exp: now + DEFAULT_TOKEN_VALIDITY,
            iat: now,
            jti,
        }
    }

    /// Signs the claims into a token; the token carries exactly the JSON form
    /// of the claims.
    pub fn encode(&self) -> (res: Result<String, TokenError>)
        ensures
            res matches Ok(s) && hs256_token(claims_text(self@), token_secret()) == Some(s@),
            res matches Ok(s) ==> s@ == jwt_token(encode_utf8(claims_text(self@)), token_secret())
                && s@.len() == token_len(encode_utf8(claims_text(self@)).len()),
            res matches Ok(s) ==> hs256_claims(s@, token_secret()) == Some(claims_text(self@)),
            res matches Ok(s) ==> token_subject(s@) == Some(self@.sub),
    {
        let json = self.to_json();
        let secret = secret_bytes();
        proof {
            lemma_claims_text_is_json(self@);
        }
        match jwt_encode(json.as_str(), secret.as_slice()) {
            Some(t) => {
                proof {
                    assert(claims_text(self@) == json@);
                    lemma_parse_claims_text(self@);
                    lemma_claims_text_is_json(self@);
                    lemma_token_of_text(claims_text(self@), t@);
                }
                Ok(t)
            },
            None => Err(TokenError::Create),
        }
    }

    /// Makes the token for `username` at the time `now_secs` (whole seconds
    /// since the epoch, `None` where the clock is before it) with the id
    /// `jti`. A time too late for the expiry to be written fails like one
    /// before the epoch.
    pub fn create_at(username: &str, now_secs: Option<u64>, jti: String) -> (res: Result<
        String,
        TokenError,
    >)
        ensures
            token_result(res) == creation(username@, now_secs, jti@),
            now_secs matches Some(n) && n <= i64::MAX - DEFAULT_TOKEN_VALIDITY ==> res is Ok,
            res matches Ok(s) ==> now_secs is Some && hs256_claims(s@, token_secret()) == Some(
                claims_text(issued_claims(username@, now_secs->0 as int, jti@)),
            ),
            res matches Ok(s) ==> now_secs is Some && s@ == jwt_token(
                encode_utf8(claims_text(issued_claims(username@, now_secs->0 as int, jti@))),
                token_secret(),
            ) && s@.len() == token_len(
                encode_utf8(claims_text(issued_claims(username@, now_secs->0 as int, jti@))).len(),
            ),
            res matches Ok(s) ==> token_subject(s@) == Some(username@),
            res matches Ok(s) ==> token_claims(s@) == Some(
                TokenView {
                    sub: username@,
                    exp: now_secs->0 + 3600,
                    iat: now_secs->0 as int,
                    jti: jti@,
                },
            ),
    {
        match now_secs {
            Some(now) => {
                if now > (i64::MAX - DEFAULT_TOKEN_VALIDITY) as u64 {
                    return Err(TokenError::Create);
                }
                let claims = Token::new(username, now as i64, jti);
                proof {
                    lemma_parse_claims_text(claims@);
                }
                claims.encode()
            },
            None => Err(TokenError::Create),
        }
    }

    /// Creates a signed token for `username`, issued now with a fresh random
    /// id and valid for an hour.
    pub fn create(username: &str) -> (res: Result<String, TokenError>)
        ensures
            exists|now: Option<u64>, jti: Seq<char>|
                is_uuid_v4_text(jti) && #[trigger] token_result(res) == creation(username@, now, jti),
            res matches Ok(t) ==> exists|now: u64, jti: Seq<char>|
                now <= i64::MAX - DEFAULT_TOKEN_VALIDITY && is_uuid_v4_text(jti) && hs256_claims(
                    t@,
                    token_secret(),
                ) == Some(claims_text(#[trigger] issued_claims(username@, now as int, jti))),
            res matches Ok(t) ==> token_subject(t@) == Some(username@),
            res matches Err(e) ==> e == TokenError::Create,
            res matches Ok(t) ==> (token_claims(t@) matches Some(w) && w.sub == username@ && 0
                <= w.iat && w.exp == w.iat + 3600 && is_uuid_v4_text(w.jti)),
    {
        let now = clock_secs();
        let jti = fresh_token_id();
        let ghost jti_view = jti@;
        let res = Token::create_at(username, now, jti);
        proof {
            assert(token_result(res) == creation(username@, now, jti_view));
            if let Ok(t) = &res {
                let n = now.unwrap();
                assert(hs256_claims(t@, token_secret()) == Some(
                    claims_text(issued_claims(username@, n as int, jti_view)),
                ));
            }
        }
        res
    }

    /// The answer to a token given what decoding it gave (`claims`), the time
    /// `now_secs` and the id `jti` for the new token: the token is refused
    /// with `Verify` where there is no time, it did not decode, its claims are
    /// not a token's claims or they have expired; else the answer is the token
    /// that `create_at` makes for the same user.
    pub fn renew(claims: Option<String>, now_secs: Option<u64>, jti: String) -> (res: Result<
        String,
        TokenError,
    >)
        ensures
            ({
                let c = match claims {
                    Some(s) => Some(s@),
                    None => None::<Seq<char>>,
                };
                &&& token_result(res) == renewal(c, now_secs, jti@)
                &&& claims_subject(c) is None ==> res == Err::<String, TokenError>(
                    TokenError::Verify,
                )
                &&& res matches Ok(t) ==> claims_subject(c) is Some && token_subject(t@)
                    == claims_subject(c)
                &&& (now_secs matches Some(n) && c matches Some(text) && parse_claims(text) matches Some(
                    v,
                ) && (v.exp < 0 || n > v.exp + 60)) ==> res == Err::<String, TokenError>(
                    TokenError::Verify,
                )
                &&& res matches Ok(t) ==> (now_secs matches Some(n) && c matches Some(text)
                    && parse_claims(text) matches Some(v) && 0 <= v.exp && n <= v.exp + 60
                    && token_claims(t@) == Some(
                    TokenView { sub: v.sub, exp: n + 3600, iat: n as int, jti: jti@ },
                ))
            }),
    {
        let now = match now_secs {
            Some(n) => n,
            None => {
                return Err(TokenError::Verify);
            },
        };
        let text = match claims {
            Some(c) => c,
            None => {
                return Err(TokenError::Verify);
            },
        };
        let data = match Token::from_json(text.as_str()) {
            Some(d) => d,
            None => {
                return Err(TokenError::Verify);
            },
        };
        if data.exp < 0 || (now as i128) > (data.exp as i128) + (EXPIRY_LEEWAY as i128) {
            return Err(TokenError::Verify);
        }
        Token::create_at(data.sub.as_str(), now_secs, jti)
    }

    /// Checks a token and, when it is valid and unexpired, answers with a
    /// fresh token for the same user.
    pub fn verify(token: &str) -> (res: Result<String, TokenError>)
        ensures
            exists|now: Option<u64>, jti: Seq<char>|
                is_uuid_v4_text(jti) && #[trigger] token_result(res) == renewal(
                    hs256_claims(token@, token_secret()),
                    now,
                    jti,
                ),
            token_subject(token@) is None ==> res == Err::<String, TokenError>(TokenError::Verify),
            res matches Ok(t) ==> token_subject(token@) is Some && token_subject(t@)
                == token_subject(token@),
            res matches Ok(t) ==> (token_claims(token@) matches Some(v) && token_claims(
                t@,
            ) matches Some(w) && w.sub == v.sub && 0 <= v.exp && 0 <= w.iat && w.iat <= v.exp
                + 60 && w.exp == w.iat + 3600 && is_uuid_v4_text(w.jti)),
    {
        let jti = fresh_token_id();
        let ghost jti_view = jti@;
        let now = clock_secs();
        if now.is_none() {
            assert(token_result(Err(TokenError::Verify)) == renewal(
                hs256_claims(token@, token_secret()),
                now,
                jti_view,
            ));
            return Err(TokenError::Verify);
        }
        let secret = secret_bytes();
        let claims = jwt_decode(token, secret.as_slice());
        Token::renew(claims, now, jti)
    }
}

} // verus!
