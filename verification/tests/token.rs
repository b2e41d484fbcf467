use base64::Engine;
use hmac::{KeyInit, Mac};

use zero2prod::crypto::{SigningKey, Token, TokenError};

fn test_key() -> SigningKey {
    SigningKey::new(b"test_key").expect("Failed to build key")
}

fn hand_rolled_token(secret: &[u8], message: &str) -> String {
    let mac = <hmac::Hmac<sha2::Sha256> as KeyInit>::new_from_slice(secret)
        .expect("Failed to build MAC");
    let sig = mac.chain_update(message.as_bytes()).finalize().into_bytes();
    format!(
        "{}.{}",
        base64::engine::general_purpose::URL_SAFE_NO_PAD.encode(message.as_bytes()),
        base64::engine::general_purpose::URL_SAFE_NO_PAD.encode(sig)
    )
}

#[test]
fn can_sign_token() {
    let id = 8080usize;
    let key = test_key();

    let token = Token::builder(id.to_string())
        .expires_in(5 * 60)
        .sign(&key)
        .expect("Failed to sign token");

    let token_value: usize = token
        .verify(&key)
        .expect("Failed to verify token")
        .parse()
        .expect("Payload is not numeric");
    assert_eq!(token_value, id);
}

#[test]
fn non_expiry_tokens() {
    let id = 8080usize;
    let key = test_key();

    let token = Token::builder(id.to_string()).sign(&key).expect("Failed to sign token");
    assert!(token.verify(&key).is_ok());
}

#[test]
fn fail_on_expired_in() {
    let id = 8080usize;
    let key = test_key();

    let token = Token::builder(id.to_string())
        .expires_in(0)
        .sign(&key)
        .expect("Failed to sign token");

    assert!(token.verify(&key).is_err());
}

#[test]
fn fail_on_expired_at() {
    let id = 8080usize;
    let key = test_key();

    let token = Token::builder(id.to_string())
        .expires_at(chrono::Utc::now().timestamp())
        .sign(&key)
        .expect("Failed to sign token");

    assert!(token.verify(&key).is_err());
}

#[test]
fn fail_on_wrong_type() {
    let id = 8080usize;
    let key = test_key();

    let token = Token::builder(id.to_string())
        .expires_in(5 * 60)
        .sign(&key)
        .expect("Failed to sign token");

    // The payload carries a JSON number; reading it back while expecting a
    // JSON string must fail rather than silently coerce.
    let payload = token.verify(&key).expect("Failed to verify token");
    assert!(serde_json::from_str::<String>(&payload).is_err());
}

#[test]
fn wire_format_is_bit_exact() {
    let key = test_key();

    let token = Token::builder("8080".to_string()).sign(&key).expect("Failed to sign token");
    assert_eq!(token.as_str(), hand_rolled_token(b"test_key", "{\"exp\":null,\"data\":8080}"));

    let token = Token::builder("8080".to_string())
        .expires_at(1700000000)
        .sign(&key)
        .expect("Failed to sign token");
    assert_eq!(
        token.as_str(),
        hand_rolled_token(b"test_key", "{\"exp\":1700000000,\"data\":8080}")
    );

    let token = Token::builder("8080".to_string())
        .expires_at(-5)
        .sign(&key)
        .expect("Failed to sign token");
    assert_eq!(token.as_str(), hand_rolled_token(b"test_key", "{\"exp\":-5,\"data\":8080}"));
}

#[test]
fn tampering_never_verifies() {
    let key = test_key();
    let token = Token::builder("\"3fa85f64-5717-4562-b3fc-2c963f66afa6\"".to_string())
        .sign(&key)
        .expect("Failed to sign token");
    let text = token.as_str().to_string();
    let dot = text.find('.').expect("Token has no separator");

    const ALPHABET: &[u8] =
        b"ABCDEFGHIJKLMNOPQRSTUVWXYZabcdefghijklmnopqrstuvwxyz0123456789-_";
    for i in 0..text.len() {
        if i == dot {
            continue;
        }
        let mut bytes = text.clone().into_bytes();
        let replacement = ALPHABET
            .iter()
            .copied()
            .find(|b| *b != bytes[i])
            .expect("No replacement byte");
        bytes[i] = replacement;
        let tampered = String::from_utf8(bytes).expect("Tampered token is not text");

        let parsed = Token::parse(&tampered).expect("Tampered token keeps the shape");
        match parsed.verify(&key) {
            Ok(_) => panic!("A tampered token verified (position {})", i),
            Err(TokenError::SignatureMismatch) | Err(TokenError::DecodeError) => {}
            Err(other) => panic!("Unexpected failure kind {:?} (position {})", other, i),
        }
    }
}

#[test]
fn cross_key_rejection() {
    let pairs = [
        (b"test_key".as_slice(), b"other_key".as_slice()),
        (b"a".as_slice(), b"b".as_slice()),
        (b"0123456789012345678901234567890123456789012345678901234567890123".as_slice(),
            b"0123456789012345678901234567890123456789012345678901234567890124".as_slice()),
    ];
    for (s1, s2) in pairs {
        let k1 = SigningKey::new(s1).expect("Failed to build key");
        let k2 = SigningKey::new(s2).expect("Failed to build key");
        let token = Token::builder("42".to_string()).sign(&k1).expect("Failed to sign token");
        let reparsed = Token::parse(token.as_str()).expect("Failed to parse token");
        assert!(matches!(reparsed.verify(&k2), Err(TokenError::SignatureMismatch)));
    }
}

#[test]
fn format_rejection() {
    for raw in ["", "abc", "a.b.c", ".abc", "abc.", "a$b.cd", "..", "a b.cd", "abc=.def"] {
        match Token::parse(raw) {
            Err(TokenError::FormatError) => {}
            other => panic!("{:?} accepted or misclassified: {:?}", raw, other),
        }
    }
}

#[test]
fn bad_base64_segment_is_a_decode_error() {
    let key = test_key();
    // Five characters cannot be an unpadded base64 segment.
    let parsed = Token::parse("abcde.fghi").expect("Shape is fine");
    assert!(matches!(parsed.verify(&key), Err(TokenError::DecodeError)));
}

#[test]
fn scenario_uuid_roundtrip() {
    let key = test_key();
    let uuid = "3fa85f64-5717-4562-b3fc-2c963f66afa6";

    let token = Token::builder(format!("\"{}\"", uuid))
        .sign(&key)
        .expect("Failed to sign token");
    let text = token.as_str().to_string();
    assert_eq!(text.matches('.').count(), 1);
    assert!(text.split('.').all(|segment| !segment.is_empty()));

    let parsed: Token = text.parse().expect("Failed to parse token");
    let payload = parsed.verify(&key).expect("Failed to verify token");
    assert_eq!(payload, format!("\"{}\"", uuid));

    let other = SigningKey::new(b"other_key").expect("Failed to build key");
    let reparsed = Token::parse(&text).expect("Failed to parse token");
    assert!(matches!(reparsed.verify(&other), Err(TokenError::SignatureMismatch)));
}

#[test]
fn scenario_negative_duration() {
    let key = test_key();
    let token = Token::builder("42".to_string())
        .expires_in(-1)
        .sign(&key)
        .expect("Failed to sign token");
    assert!(matches!(token.verify(&key), Err(TokenError::Expired)));
}

#[test]
fn expiration_boundary_is_strict() {
    let key = test_key();
    let sign = |exp: i64| {
        Token::builder("42".to_string())
            .expires_at(exp)
            .sign(&key)
            .expect("Failed to sign token")
    };

    assert!(sign(100).verify_at(&key, 99, 999_999_999).is_ok());
    assert!(sign(100).verify_at(&key, 100, 0).is_ok());
    assert!(matches!(sign(100).verify_at(&key, 100, 1), Err(TokenError::Expired)));
    assert!(matches!(sign(100).verify_at(&key, 101, 0), Err(TokenError::Expired)));
}

#[test]
fn unmappable_expiration_fails_closed() {
    let key = test_key();
    // One second past the latest representable calendar instant.
    let token = Token::builder("42".to_string())
        .expires_at(8210266876800)
        .sign(&key)
        .expect("Failed to sign token");
    assert!(matches!(token.verify_at(&key, 0, 0), Err(TokenError::Expired)));

    // One second before the earliest: also no calendar instant.
    let token = Token::builder("42".to_string())
        .expires_at(-8334601228801)
        .sign(&key)
        .expect("Failed to sign token");
    assert!(matches!(token.verify_at(&key, 0, 0), Err(TokenError::Expired)));
}

#[test]
fn tokens_without_expiration_never_time_out() {
    let key = test_key();
    let token = Token::builder("42".to_string()).sign(&key).expect("Failed to sign token");
    let text = token.as_str().to_string();
    for (secs, nanos) in [(0i64, 0u32), (8210266876799, 1_999_999_999), (-8334601228800, 0)] {
        let parsed = Token::parse(&text).expect("Failed to parse token");
        assert!(parsed.verify_at(&key, secs, nanos).is_ok());
    }
}

#[test]
fn empty_payload_roundtrips() {
    let key = test_key();
    let token = Token::builder(String::new()).sign(&key).expect("Failed to sign token");
    assert_eq!(token.as_str(), hand_rolled_token(b"test_key", "{\"exp\":null,\"data\":}"));
    let payload = Token::parse(token.as_str())
        .expect("Failed to parse token")
        .verify(&key)
        .expect("Failed to verify token");
    assert_eq!(payload, "");
}

#[test]
fn non_ascii_payload_roundtrips() {
    let key = test_key();
    let text = "\"h\u{e9}llo \u{2026} \u{451}\"";
    let token = Token::builder(text.to_string()).sign(&key).expect("Failed to sign token");
    let payload = Token::parse(token.as_str())
        .expect("Failed to parse token")
        .verify(&key)
        .expect("Failed to verify token");
    assert_eq!(payload, text);
}

#[test]
fn error_kinds_map_to_status_classes() {
    assert_eq!(TokenError::FormatError.status_code(), 400);
    assert_eq!(TokenError::DecodeError.status_code(), 400);
    assert_eq!(TokenError::SignatureMismatch.status_code(), 401);
    assert_eq!(TokenError::Expired.status_code(), 401);
    assert_eq!(TokenError::KeyError.status_code(), 500);
    assert_eq!(TokenError::SerializationError.status_code(), 500);
}

#[test]
fn verify_from_bytes_checks_the_signature_first() {
    let key = test_key();
    let message = b"{\"exp\":null,\"data\":8080}";
    let mac = <hmac::Hmac<sha2::Sha256> as KeyInit>::new_from_slice(b"test_key")
        .expect("Failed to build MAC");
    let sig = mac.chain_update(message.as_slice()).finalize().into_bytes();

    let payload = zero2prod::crypto::token::verify_from_bytes(&key, message, &sig)
        .expect("Failed to verify message bytes");
    assert_eq!(payload, "8080");

    // A valid signature over garbage bytes is refused only after the
    // signature check passes; a wrong signature is refused before the
    // payload is ever read.
    assert!(matches!(
        zero2prod::crypto::token::verify_from_bytes(&key, message, b"short"),
        Err(TokenError::SignatureMismatch)
    ));
    let mac = <hmac::Hmac<sha2::Sha256> as KeyInit>::new_from_slice(b"test_key")
        .expect("Failed to build MAC");
    let garbage_sig = mac.chain_update(b"not the wire form".as_slice()).finalize().into_bytes();
    assert!(matches!(
        zero2prod::crypto::token::verify_from_bytes(&key, b"not the wire form", &garbage_sig),
        Err(TokenError::DecodeError)
    ));
}

#[test]
fn split_returns_the_segments() {
    let key = test_key();
    let token = Token::builder("42".to_string()).sign(&key).expect("Failed to sign token");
    let text = token.as_str().to_string();
    let (msg, sig) = token.split().expect("Failed to split token");
    assert_eq!(format!("{}.{}", msg, sig), text);
    assert!(!msg.is_empty() && !sig.is_empty());
}
