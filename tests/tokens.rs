use std::collections::BTreeMap;

use jsonwebtoken::{crypto, encode, Algorithm, EncodingKey, Header};
use ticketdesk::error::TokenError;
use ticketdesk::token::{claims_at, sign_token, validate_token, verify_signature};

const INPUT: &[u8] = b"eyJhbGciOiJIUzI1NiJ9.eyJzdWIiOjF9";

#[test]
fn signed_token_has_hs256_signature() {
    let token = sign_token(INPUT, b"secret");
    let sig = crypto::sign(INPUT, &EncodingKey::from_secret(b"secret"), Algorithm::HS256).unwrap();
    let expected = format!("{}.{}", std::str::from_utf8(INPUT).unwrap(), sig);
    assert_eq!(String::from_utf8(token).unwrap(), expected);
}

#[test]
fn sign_then_verify_returns_signed_part() {
    let token = sign_token(INPUT, b"secret");
    assert_eq!(verify_signature(&token, b"secret"), Some(INPUT.to_vec()));
    assert_eq!(verify_signature(&token, b"other"), None);
}

#[test]
fn tokens_from_jsonwebtoken_verify() {
    let mut claims: BTreeMap<String, i64> = BTreeMap::new();
    claims.insert("sub".to_string(), 3);
    claims.insert("exp".to_string(), 4_000_000_000);
    let token = encode(&Header::default(), &claims, &EncodingKey::from_secret(b"k")).unwrap();
    let signed = verify_signature(token.as_bytes(), b"k").unwrap();
    let dot = token.rfind('.').unwrap();
    assert_eq!(signed, token.as_bytes()[..dot].to_vec());
}

#[test]
fn single_bit_flips_in_signature_are_invalid() {
    let token = sign_token(INPUT, b"secret");
    let claims = claims_at(1, "a@x.com".to_string(), "customer".to_string(), 0).unwrap();
    assert_eq!(validate_token(&token, b"secret", Some(claims.clone()), 10), Ok(claims.clone()));
    for pos in INPUT.len() + 1..token.len() {
        for bit in 0..8 {
            let mut bad = token.clone();
            bad[pos] ^= 1 << bit;
            assert_eq!(
                validate_token(&bad, b"secret", Some(claims.clone()), 10),
                Err(TokenError::Invalid)
            );
        }
    }
}

#[test]
fn tampered_payload_is_invalid() {
    let mut token = sign_token(INPUT, b"secret");
    token[25] ^= 2;
    assert_eq!(verify_signature(&token, b"secret"), None);
    assert_eq!(verify_signature(b"no-dot-here", b"secret"), None);
    assert_eq!(verify_signature(b"", b"secret"), None);
}

#[test]
fn validate_token_reports_expiry_and_bad_payload() {
    let token = sign_token(INPUT, b"secret");
    let claims = claims_at(1, "a@x.com".to_string(), "customer".to_string(), 0).unwrap();
    assert_eq!(validate_token(&token, b"secret", Some(claims), 86_401), Err(TokenError::Expired));
    assert_eq!(validate_token(&token, b"secret", None, 5), Err(TokenError::Invalid));
}
