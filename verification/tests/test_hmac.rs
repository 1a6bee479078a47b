use monkey::hmac_auth::{
    HmacError, hmac_sign, hmac_sign_with_timestamp, signatures_match, timestamped_payload,
    verify_github_signature, verify_internal_signature, verify_internal_signature_at,
};
use std::time::{SystemTime, UNIX_EPOCH};

const SECRET: &str = "test-secret";
const BODY: &[u8] = b"{\"action\":\"opened\",\"issue\":{\"number\":123}}";

#[test]
fn test_valid_github_signature_passes() {
    let sig = hmac_sign(SECRET, BODY);
    assert!(verify_github_signature(SECRET, BODY, Some(&sig)).is_ok());
}

#[test]
fn test_wrong_secret_raises() {
    let sig = hmac_sign("other-secret", BODY);
    assert_eq!(
        verify_github_signature(SECRET, BODY, Some(&sig)),
        Err(HmacError::SignatureMismatch)
    );
}

#[test]
fn test_tampered_body_raises() {
    let sig = hmac_sign(SECRET, BODY);
    let mut tampered = BODY.to_vec();
    tampered.push(b'x');
    assert_eq!(
        verify_github_signature(SECRET, &tampered, Some(&sig)),
        Err(HmacError::SignatureMismatch)
    );
}

#[test]
fn test_missing_header_raises() {
    assert_eq!(
        verify_github_signature(SECRET, BODY, None),
        Err(HmacError::MissingSignature)
    );
}

#[test]
fn test_unsupported_scheme_raises() {
    assert_eq!(
        verify_github_signature(SECRET, BODY, Some("sha1=abc")),
        Err(HmacError::UnsupportedScheme)
    );
}

#[test]
fn test_github_signature_hex_is_case_insensitive() {
    let signature = hmac_sign(SECRET, BODY);
    let hex_part = &signature["sha256=".len()..];
    let upper_signature = format!("sha256={}", hex_part.to_uppercase());

    assert!(verify_github_signature(SECRET, BODY, Some(&upper_signature)).is_ok());
}

#[test]
fn test_github_signature_wrong_length_is_rejected() {
    assert_eq!(
        verify_github_signature(SECRET, BODY, Some("sha256=abcd")),
        Err(HmacError::SignatureMismatch)
    );
}

#[test]
fn test_internal_signature_extreme_timestamp_does_not_overflow() {
    // i64::MIN would overflow a plain (now - timestamp) subtraction.
    let signature = hmac_sign_with_timestamp(SECRET, BODY, 0);
    assert_eq!(
        verify_internal_signature(
            SECRET,
            BODY,
            Some(&signature),
            Some(&i64::MIN.to_string()),
            30,
        ),
        Err(HmacError::TimestampSkew)
    );
}

#[test]
fn test_internal_signature_within_skew_passes() {
    let ts = SystemTime::now()
        .duration_since(UNIX_EPOCH)
        .unwrap()
        .as_secs() as i64;
    let sig = hmac_sign_with_timestamp(SECRET, BODY, ts);
    assert!(verify_internal_signature(SECRET, BODY, Some(&sig), Some(&ts.to_string()), 30).is_ok());
}

#[test]
fn test_internal_signature_replay_rejected() {
    let ts = SystemTime::now()
        .duration_since(UNIX_EPOCH)
        .unwrap()
        .as_secs() as i64
        - 100; // outside +-30s skew
    let sig = hmac_sign_with_timestamp(SECRET, BODY, ts);
    assert_eq!(
        verify_internal_signature(SECRET, BODY, Some(&sig), Some(&ts.to_string()), 30),
        Err(HmacError::TimestampSkew)
    );
}

#[test]
fn test_internal_signature_rejects_fresh_timestamp_replay() {
    let old_timestamp = SystemTime::now()
        .duration_since(UNIX_EPOCH)
        .unwrap()
        .as_secs() as i64
        - 3600;
    let fresh_timestamp = old_timestamp + 3600;
    let captured_signature = hmac_sign_with_timestamp(SECRET, BODY, old_timestamp);

    assert_eq!(
        verify_internal_signature(
            SECRET,
            BODY,
            Some(&captured_signature),
            Some(&fresh_timestamp.to_string()),
            30,
        ),
        Err(HmacError::SignatureMismatch)
    );
}

#[test]
fn test_internal_signature_rejects_unbound_signature() {
    let timestamp = SystemTime::now()
        .duration_since(UNIX_EPOCH)
        .unwrap()
        .as_secs() as i64;
    let unbound_signature = hmac_sign(SECRET, BODY);

    assert_eq!(
        verify_internal_signature(
            SECRET,
            BODY,
            Some(&unbound_signature),
            Some(&timestamp.to_string()),
            30,
        ),
        Err(HmacError::SignatureMismatch)
    );
}

#[test]
fn signature_of_known_values() {
    // A widely published pair of key and message.
    assert_eq!(
        hmac_sign("Jefe", b"what do ya want for nothing?"),
        "sha256=5bdcc146bf60754e6a042426089575c75a003f089d2739839dec58b964ec3843"
    );
}

#[test]
fn timestamped_signature_signs_time_colon_body() {
    assert_eq!(
        hmac_sign_with_timestamp(SECRET, b"body", -5),
        hmac_sign(SECRET, b"-5:body")
    );
}

#[test]
fn internal_signature_reports_what_is_missing_or_wrong() {
    let signature = hmac_sign_with_timestamp(SECRET, BODY, 1000);
    let check = |signature: Option<&str>, timestamp: Option<&str>| {
        verify_internal_signature_at(SECRET, BODY, signature, timestamp, 30, 1000)
    };
    assert_eq!(check(None, None), Err(HmacError::MissingSignature));
    assert_eq!(
        check(Some(&signature), None),
        Err(HmacError::MissingTimestamp)
    );
    assert_eq!(
        check(Some(&signature), Some("soon")),
        Err(HmacError::BadTimestamp)
    );
    assert_eq!(
        check(Some("md5=00"), Some("1000")),
        Err(HmacError::UnsupportedScheme)
    );
    assert_eq!(check(Some(&signature), Some("1000")), Ok(()));
    assert_eq!(check(Some(&signature), Some("+1000")), Ok(()));
}

#[test]
fn skew_window_is_inclusive_on_both_sides() {
    let signature = hmac_sign_with_timestamp(SECRET, BODY, 1000);
    for (now, expected) in [
        (970, Ok(())),
        (1030, Ok(())),
        (969, Err(HmacError::TimestampSkew)),
        (1031, Err(HmacError::TimestampSkew)),
        (i64::MIN, Err(HmacError::TimestampSkew)),
        (i64::MAX, Err(HmacError::TimestampSkew)),
    ] {
        assert_eq!(
            verify_internal_signature_at(SECRET, BODY, Some(&signature), Some("1000"), 30, now),
            expected
        );
    }
}

#[test]
fn malformed_hex_is_a_mismatch() {
    let signature = hmac_sign(SECRET, BODY);
    let mut broken = signature.clone();
    broken.pop();
    broken.push('g');
    assert_eq!(
        verify_github_signature(SECRET, BODY, Some(&broken)),
        Err(HmacError::SignatureMismatch)
    );
    let non_ascii = format!("sha256={}", "é".repeat(32));
    assert_eq!(
        verify_github_signature(SECRET, BODY, Some(&non_ascii)),
        Err(HmacError::SignatureMismatch)
    );
}

#[test]
fn hmac_errors_in_words() {
    assert_eq!(
        HmacError::TimestampSkew.to_text(),
        "timestamp outside skew window"
    );
    assert_eq!(
        HmacError::MissingSignature.to_text(),
        "missing signature header"
    );
    assert_eq!(
        HmacError::MissingTimestamp.to_text(),
        "missing timestamp header"
    );
    assert_eq!(HmacError::BadTimestamp.to_text(), "bad timestamp");
    assert_eq!(
        HmacError::UnsupportedScheme.to_text(),
        "unsupported signature scheme"
    );
    assert_eq!(
        HmacError::SignatureMismatch.to_text(),
        "signature mismatch"
    );
}

#[test]
fn test_hmac_test_valid_github_signature_passes() {
    let sig = hmac_sign(SECRET, BODY);
    assert!(verify_github_signature(SECRET, BODY, Some(&sig)).is_ok());
}

#[test]
fn test_hmac_test_wrong_secret_raises() {
    let sig = hmac_sign("other-secret", BODY);
    assert_eq!(
        verify_github_signature(SECRET, BODY, Some(&sig)),
        Err(HmacError::SignatureMismatch)
    );
}

#[test]
fn test_hmac_test_tampered_body_raises() {
    let sig = hmac_sign(SECRET, BODY);
    let mut tampered = BODY.to_vec();
    tampered.push(b'x');
    assert_eq!(
        verify_github_signature(SECRET, &tampered, Some(&sig)),
        Err(HmacError::SignatureMismatch)
    );
}

#[test]
fn test_hmac_test_missing_header_raises() {
    assert_eq!(
        verify_github_signature(SECRET, BODY, None),
        Err(HmacError::MissingSignature)
    );
}

#[test]
fn test_hmac_test_unsupported_scheme_raises() {
    assert_eq!(
        verify_github_signature(SECRET, BODY, Some("sha1=abc")),
        Err(HmacError::UnsupportedScheme)
    );
}

#[test]
fn test_hmac_test_internal_signature_replay_rejected() {
    let ts = SystemTime::now()
        .duration_since(UNIX_EPOCH)
        .unwrap()
        .as_secs() as i64
        - 100; // outside +-30s skew
    let sig = hmac_sign(SECRET, BODY);
    assert_eq!(
        verify_internal_signature(SECRET, BODY, Some(&sig), Some(&ts.to_string()), 30),
        Err(HmacError::TimestampSkew)
    );
}

#[test]
fn digests_match_whatever_their_case() {
    let lower = "0123456789abcdef".repeat(4);
    let upper = lower.to_uppercase();
    assert!(signatures_match(&lower, &upper));
    assert!(signatures_match(&upper, &lower));
    let other = format!("{}0", &lower[..63]);
    assert!(!signatures_match(&lower, &other));
    assert!(!signatures_match(&other, &lower));
}

#[test]
fn texts_that_are_no_digests_do_not_match_themselves() {
    let short = "abcd".to_string();
    let long = "a".repeat(66);
    let odd = "g".repeat(64);
    for text in [String::new(), short, long, odd] {
        assert!(!signatures_match(&text, &text), "{text}");
    }
}

#[test]
fn signed_bytes_tell_time_and_body_apart() {
    assert_eq!(timestamped_payload(1000, b"{}"), b"1000:{}");
    assert_eq!(timestamped_payload(-7, b""), b"-7:");
    assert_ne!(timestamped_payload(1, b"2:x"), timestamped_payload(12, b"x"));
    assert_ne!(timestamped_payload(1, b":x"), timestamped_payload(1, b"x"));
}
