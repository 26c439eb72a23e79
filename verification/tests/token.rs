use jsonwebtoken::{decode, DecodingKey, Validation};
use webapp::database::CreateSession;
use webapp::protocol::Session;
use webapp::token::{Token, TokenError};

const JTI: &str = "0f8fad5b-d9cb-469f-a165-70867728950e";

fn claims(sub: &str, exp: i64, iat: i64, jti: &str) -> Token {
    Token { sub: sub.to_owned(), exp, iat, jti: jti.to_owned() }
}

/// The claims a token carries, read without checking its expiry.
fn carried_claims(token: &str) -> serde_json::Value {
    let mut validation = Validation::default();
    validation.validate_exp = false;
    validation.required_spec_claims.clear();
    decode::<serde_json::Value>(token, &DecodingKey::from_secret(b"my_secret"), &validation)
        .unwrap()
        .claims
}

#[test]
fn claims_are_written_as_compact_json() {
    let t = claims("username", 1_700_003_600, 1_700_000_000, JTI);
    assert_eq!(
        t.to_json(),
        "{\"sub\":\"username\",\"exp\":1700003600,\"iat\":1700000000,\"jti\":\"0f8fad5b-d9cb-469f-a165-70867728950e\"}"
    );
}

#[test]
fn claims_escape_special_characters() {
    let t = claims("a\"b\\c\nd\u{1}é", -5, 0, "");
    assert_eq!(
        t.to_json(),
        "{\"sub\":\"a\\\"b\\\\c\\nd\\u0001é\",\"exp\":-5,\"iat\":0,\"jti\":\"\"}"
    );
    assert_eq!(claims("\u{8}\u{c}\r\t\u{1f}", 0, 0, "").to_json(),
        "{\"sub\":\"\\b\\f\\r\\t\\u001f\",\"exp\":0,\"iat\":0,\"jti\":\"\"}");
}

#[test]
fn claims_match_the_serde_json_form() {
    let t = claims("weird \"user\"\t\u{7f}😀", i64::MIN, i64::MAX, JTI);
    let value: serde_json::Value = serde_json::from_str(&t.to_json()).unwrap();
    assert_eq!(value["sub"], "weird \"user\"\t\u{7f}😀");
    assert_eq!(value["exp"], i64::MIN);
    assert_eq!(value["iat"], i64::MAX);
    assert_eq!(value["jti"], JTI);
}

#[test]
fn claims_read_back_as_written() {
    for t in [
        claims("username", 1_700_003_600, 1_700_000_000, JTI),
        claims("", i64::MIN, i64::MAX, ""),
        claims("a\"b\\c\nd\u{1}é😀", 0, -1, "x"),
    ] {
        let back = Token::from_json(&t.to_json()).unwrap();
        assert_eq!(back.sub, t.sub);
        assert_eq!(back.exp, t.exp);
        assert_eq!(back.iat, t.iat);
        assert_eq!(back.jti, t.jti);
    }
}

#[test]
fn claims_reader_accepts_whitespace_order_and_escapes() {
    let t = Token::from_json(
        " { \"jti\" : \"j\" ,\n\"iat\":2,\t\"s\\u0075b\":\"\\ud83d\\ude00\\/\\u00e9\", \"exp\" : -3 }\r\n",
    )
    .unwrap();
    assert_eq!(t.sub, "😀/é");
    assert_eq!(t.exp, -3);
    assert_eq!(t.iat, 2);
    assert_eq!(t.jti, "j");
}

#[test]
fn claims_reader_refuses_what_is_not_a_token() {
    let ok = "{\"sub\":\"u\",\"exp\":1,\"iat\":2,\"jti\":\"j\"}";
    assert!(Token::from_json(ok).is_some());
    let refused = [
        "",
        "{}",
        "[\"u\",1,2,\"j\"]",
        "{\"sub\":\"u\",\"exp\":1,\"iat\":2}",
        "{\"sub\":\"u\",\"sub\":\"v\",\"exp\":1,\"iat\":2,\"jti\":\"j\"}",
        "{\"sub\":\"u\",\"exp\":01,\"iat\":2,\"jti\":\"j\"}",
        "{\"sub\":\"u\",\"exp\":1.0,\"iat\":2,\"jti\":\"j\"}",
        "{\"sub\":\"u\",\"exp\":1e3,\"iat\":2,\"jti\":\"j\"}",
        "{\"sub\":\"u\",\"exp\":9223372036854775808,\"iat\":2,\"jti\":\"j\"}",
        "{\"sub\":\"u\",\"exp\":-,\"iat\":2,\"jti\":\"j\"}",
        "{\"sub\":1,\"exp\":1,\"iat\":2,\"jti\":\"j\"}",
        "{\"sub\":\"u\",\"exp\":\"1\",\"iat\":2,\"jti\":\"j\"}",
        "{\"sub\":\"u\nv\",\"exp\":1,\"iat\":2,\"jti\":\"j\"}",
        "{\"sub\":\"\\ud83d\",\"exp\":1,\"iat\":2,\"jti\":\"j\"}",
        "{\"sub\":\"\\ude00\",\"exp\":1,\"iat\":2,\"jti\":\"j\"}",
        "{\"sub\":\"\\x\",\"exp\":1,\"iat\":2,\"jti\":\"j\"}",
        "{\"sub\":\"u\",\"exp\":1,\"iat\":2,\"jti\":\"j\"} x",
        "{\"sub\":\"u\",\"exp\":1,\"iat\":2,\"jti\":\"j\",}",
        "{\"sub\":\"u\" \"exp\":1,\"iat\":2,\"jti\":\"j\"}",
    ];
    for text in refused {
        assert!(Token::from_json(text).is_none(), "{}", text);
    }
    let min = Token::from_json("{\"sub\":\"u\",\"exp\":-9223372036854775808,\"iat\":2,\"jti\":\"j\"}")
        .unwrap();
    assert_eq!(min.exp, i64::MIN);
}

#[test]
fn new_claims_are_valid_for_an_hour() {
    let t = Token::new("username", 1_000, JTI.to_owned());
    assert_eq!(t.sub, "username");
    assert_eq!(t.iat, 1_000);
    assert_eq!(t.exp, 4_600);
    assert_eq!(t.jti, JTI);
}

#[test]
fn create_at_signs_the_issued_claims() {
    let token = Token::create_at("username", Some(1_700_000_000), JTI.to_owned()).unwrap();
    assert_eq!(token.len(), 211);
    assert_eq!(token.split('.').count(), 3);
    let c = carried_claims(&token);
    assert_eq!(c["sub"], "username");
    assert_eq!(c["iat"], 1_700_000_000i64);
    assert_eq!(c["exp"], 1_700_003_600i64);
    assert_eq!(c["jti"], JTI);
    let again = Token::create_at("username", Some(1_700_000_000), JTI.to_owned()).unwrap();
    assert_eq!(again, token);
    let other = Token::create_at("other", Some(1_700_000_000), JTI.to_owned()).unwrap();
    assert_ne!(other, token);
}

#[test]
fn create_at_fails_without_a_usable_time() {
    assert_eq!(Token::create_at("username", None, JTI.to_owned()), Err(TokenError::Create));
    assert_eq!(
        Token::create_at("username", Some(i64::MAX as u64), JTI.to_owned()),
        Err(TokenError::Create)
    );
    assert!(Token::create_at("username", Some(i64::MAX as u64 - 3600), JTI.to_owned()).is_ok());
}

#[test]
fn created_token_names_its_user() {
    let token = Token::create("username").unwrap();
    assert_eq!(token.len(), 211);
    let c = carried_claims(&token);
    assert_eq!(c["sub"], "username");
    assert_eq!(c["exp"].as_i64().unwrap(), c["iat"].as_i64().unwrap() + 3600);
    let jti = c["jti"].as_str().unwrap();
    assert_eq!(jti.len(), 36);
    assert_eq!(jti.matches('-').count(), 4);
    assert_eq!(&jti[14..15], "4");
    assert!(["8", "9", "a", "b"].contains(&&jti[19..20]));
}

#[test]
fn verified_token_is_renewed_for_the_same_user() {
    let token = Token::create("alice").unwrap();
    let renewed = Token::verify(&token).unwrap();
    assert_eq!(carried_claims(&renewed)["sub"], "alice");
    assert_ne!(carried_claims(&renewed)["jti"], carried_claims(&token)["jti"]);
}

#[test]
fn expired_token_is_refused() {
    let token = Token::create_at("alice", Some(1_000), JTI.to_owned()).unwrap();
    assert_eq!(Token::verify(&token), Err(TokenError::Verify));
}

#[test]
fn tampered_token_is_refused() {
    let token = Token::create("alice").unwrap();
    let mut tampered = token.clone();
    tampered.push('x');
    assert_eq!(Token::verify(&tampered), Err(TokenError::Verify));
    assert_eq!(Token::verify(""), Err(TokenError::Verify));
}

#[test]
fn token_with_foreign_claims_is_refused() {
    // Signed with the right secret, but the claims lack `jti`.
    let claims = serde_json::value::RawValue::from_string(
        "{\"sub\":\"alice\",\"exp\":99999999999,\"iat\":1}".to_owned(),
    )
    .unwrap();
    let token = jsonwebtoken::encode(
        &jsonwebtoken::Header::default(),
        &claims,
        &jsonwebtoken::EncodingKey::from_secret(b"my_secret"),
    )
    .unwrap();
    assert_eq!(Token::verify(&token), Err(TokenError::Verify));
}

#[test]
fn sessions_hold_their_token() {
    let s = Session::new("abc");
    assert_eq!(s.token, "abc");
    assert_eq!(s, Session::new("abc"));
    assert_ne!(s, Session::new("abd"));
    let row = CreateSession("tok".to_owned()).session();
    assert_eq!(row.token, "tok");
}

#[test]
fn claims_reader_passes_over_other_members() {
    let t = Token::from_json(
        "{\"aud\":[\"a\",{\"b\":null,\"\\ud800\":true}],\"sub\":\"u\",\"exp\":1,\"x\":-1.5e+3,\"iat\":2,\"jti\":\"j\",\"n\":{},\"m\":[],\"s\":\"\\ud800\",\"f\":false,\"z\":0.0E-0}",
    )
    .unwrap();
    assert_eq!(t.sub, "u");
    assert_eq!(t.exp, 1);
    assert_eq!(t.iat, 2);
    assert_eq!(t.jti, "j");
    let refused = [
        "{\"sub\":\"u\",\"exp\":1,\"iat\":2,\"jti\":\"j\",\"x\":tru}",
        "{\"sub\":\"u\",\"exp\":1,\"iat\":2,\"jti\":\"j\",\"x\":[1,]}",
        "{\"sub\":\"u\",\"exp\":1,\"iat\":2,\"jti\":\"j\",\"x\":{\"a\"}}",
        "{\"sub\":\"u\",\"exp\":1,\"iat\":2,\"jti\":\"j\",\"x\":01}",
        "{\"sub\":\"u\",\"exp\":1,\"iat\":2,\"jti\":\"j\",\"x\":1.}",
        "{\"sub\":\"u\",\"exp\":1,\"iat\":2,\"jti\":\"j\",\"x\":1e}",
        "{\"sub\":\"u\",\"exp\":1,\"iat\":2,\"jti\":\"j\",\"x\":\"\\q\"}",
        "{\"sub\":\"u\",\"exp\":1,\"iat\":2,\"jti\":\"j\",\"\\ud800\":1}",
    ];
    for text in refused {
        assert!(Token::from_json(text).is_none(), "{}", text);
    }
}

#[test]
fn token_with_other_claims_is_renewed() {
    // Signed with the right secret, with an extra claim.
    let claims = serde_json::value::RawValue::from_string(
        "{\"sub\":\"alice\",\"exp\":99999999999,\"iat\":1,\"jti\":\"j\",\"aud\":\"x\"}".to_owned(),
    )
    .unwrap();
    let token = jsonwebtoken::encode(
        &jsonwebtoken::Header::default(),
        &claims,
        &jsonwebtoken::EncodingKey::from_secret(b"my_secret"),
    )
    .unwrap();
    let renewed = Token::verify(&token).unwrap();
    assert_eq!(carried_claims(&renewed)["sub"], "alice");
}

#[test]
fn any_user_name_is_signed_and_read_back() {
    for name in ["", "a\"b", "back\\slash", "line\nfeed\u{0}\u{1f}", "émoji 😀", "\u{7f}\u{2028}"] {
        let token = Token::create_at(name, Some(1_700_000_000), JTI.to_owned()).unwrap();
        assert_eq!(carried_claims(&token)["sub"], name);
        let claims = Token::new(name, 5, JTI.to_owned());
        assert_eq!(claims.encode().unwrap(), Token::create_at(name, Some(5), JTI.to_owned()).unwrap());
    }
}

#[test]
fn renew_refuses_what_did_not_decode_or_has_expired() {
    let claims = Token::new("alice", 1_000, JTI.to_owned()).to_json();
    assert_eq!(Token::renew(None, Some(1_000), JTI.to_owned()), Err(TokenError::Verify));
    assert_eq!(Token::renew(Some(claims.clone()), None, JTI.to_owned()), Err(TokenError::Verify));
    assert_eq!(
        Token::renew(Some("{}".to_owned()), Some(1_000), JTI.to_owned()),
        Err(TokenError::Verify)
    );
    // expiry 4600, leeway 60
    assert_eq!(
        Token::renew(Some(claims.clone()), Some(4_661), JTI.to_owned()),
        Err(TokenError::Verify)
    );
    let negative = claims_with_exp(-1);
    assert_eq!(Token::renew(Some(negative), Some(0), JTI.to_owned()), Err(TokenError::Verify));
}

fn claims_with_exp(exp: i64) -> String {
    Token { sub: "alice".to_owned(), exp, iat: 0, jti: JTI.to_owned() }.to_json()
}

#[test]
fn renew_answers_the_token_made_for_the_same_user() {
    let claims = Token::new("alice", 1_000, JTI.to_owned()).to_json();
    for now in [0u64, 1_000, 4_600, 4_660] {
        let renewed = Token::renew(Some(claims.clone()), Some(now), "j".to_owned()).unwrap();
        assert_eq!(renewed, Token::create_at("alice", Some(now), "j".to_owned()).unwrap());
        assert_eq!(carried_claims(&renewed)["sub"], "alice");
        assert_eq!(carried_claims(&renewed)["iat"], now as i64);
    }
}

#[test]
fn renewed_token_renews_again() {
    let t = Token::create("username").unwrap();
    let t2 = Token::verify(&t).unwrap();
    let t3 = Token::verify(&t2).unwrap();
    assert_eq!(t3.len(), 211);
    assert_eq!(carried_claims(&t3)["sub"], "username");
}

/// URL-safe base64 without padding, written out for checking token layouts.
fn b64url(bytes: &[u8]) -> String {
    const ALPHABET: &[u8] = b"ABCDEFGHIJKLMNOPQRSTUVWXYZabcdefghijklmnopqrstuvwxyz0123456789-_";
    let mut out = String::new();
    for chunk in bytes.chunks(3) {
        let b = [chunk[0], *chunk.get(1).unwrap_or(&0), *chunk.get(2).unwrap_or(&0)];
        let n = ((b[0] as u32) << 16) | ((b[1] as u32) << 8) | b[2] as u32;
        for i in 0..chunk.len() + 1 {
            out.push(ALPHABET[((n >> (18 - 6 * i)) & 63) as usize] as char);
        }
    }
    out
}

#[test]
fn token_is_header_claims_and_signature() {
    let token = Token::create_at("username", Some(1_700_000_000), JTI.to_owned()).unwrap();
    let parts: Vec<&str> = token.split('.').collect();
    assert_eq!(parts.len(), 3);
    assert_eq!(parts[0], b64url(b"{\"typ\":\"JWT\",\"alg\":\"HS256\"}"));
    assert_eq!(parts[0], "eyJ0eXAiOiJKV1QiLCJhbGciOiJIUzI1NiJ9");
    let claims = Token::new("username", 1_700_000_000, JTI.to_owned()).to_json();
    assert_eq!(parts[1], b64url(claims.as_bytes()));
    assert_eq!(parts[2].len(), 43);
    assert_eq!(token.len(), 81 + (4 * claims.len() + 2) / 3);
    assert_eq!(token.len(), 211);
}
