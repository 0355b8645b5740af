use slack_relay::request::{InboundRequest, InvalidReason, VerificationOutcome};
use slack_relay::sigverify::verify_request;

fn mac_hex(secret: &str, ts: i64, body: &str) -> String {
    let base = format!("v0:{}:{}", ts, body);
    let mut mac =
        <hmac::Hmac<sha2::Sha256> as hmac::KeyInit>::new_from_slice(secret.as_bytes()).unwrap();
    hmac::Mac::update(&mut mac, base.as_bytes());
    let out = hmac::Mac::finalize(mac).into_bytes();
    hex::encode(out)
}

fn request(ts_header: Option<&str>, sig_header: Option<&str>, body: &str) -> InboundRequest {
    let mut headers: Vec<(String, String)> = Vec::new();
    if let Some(t) = ts_header {
        headers.push(("X-Slack-Request-Timestamp".to_string(), t.to_string()));
    }
    if let Some(s) = sig_header {
        headers.push(("X-Slack-Signature".to_string(), s.to_string()));
    }
    InboundRequest { headers, body: body.to_string() }
}

const SECRET: &str = "8f742231b10e8888abcd99yyyzzz85a5";
const BODY: &str = "{\"token\":\"t\",\"challenge\":\"abc\"}";
const TS: i64 = 1700000000;

#[test]
fn valid_signature_accepted() {
    let sig = format!("v0={}", mac_hex(SECRET, TS, BODY));
    let req = request(Some(&TS.to_string()), Some(&sig), BODY);
    assert_eq!(verify_request(&req, SECRET, TS + 100), VerificationOutcome::Valid);
}

#[test]
fn window_boundaries() {
    let sig = format!("v0={}", mac_hex(SECRET, TS, BODY));
    let req = request(Some(&TS.to_string()), Some(&sig), BODY);
    assert_eq!(verify_request(&req, SECRET, TS), VerificationOutcome::Valid);
    assert_eq!(verify_request(&req, SECRET, TS + 300), VerificationOutcome::Valid);
    assert_eq!(
        verify_request(&req, SECRET, TS + 301),
        VerificationOutcome::Invalid(InvalidReason::TimestampOutOfWindow)
    );
    assert_eq!(
        verify_request(&req, SECRET, TS - 1),
        VerificationOutcome::Invalid(InvalidReason::TimestampOutOfWindow)
    );
}

#[test]
fn out_of_window_beats_bad_signature() {
    let req = request(Some(&TS.to_string()), Some("v0=ffff"), BODY);
    assert_eq!(
        verify_request(&req, SECRET, TS + 301),
        VerificationOutcome::Invalid(InvalidReason::TimestampOutOfWindow)
    );
}

#[test]
fn missing_timestamp_header() {
    let sig = format!("v0={}", mac_hex(SECRET, TS, BODY));
    let req = request(None, Some(&sig), BODY);
    assert_eq!(
        verify_request(&req, SECRET, TS + 100),
        VerificationOutcome::Invalid(InvalidReason::MissingTimestamp)
    );
}

#[test]
fn malformed_timestamp_header() {
    for bad in ["", "12x", "x12", "+", "-", " 12", "12 ", "99999999999999999999999"] {
        let req = request(Some(bad), Some("v0=00"), BODY);
        assert_eq!(
            verify_request(&req, SECRET, TS + 100),
            VerificationOutcome::Invalid(InvalidReason::MalformedTimestamp),
            "timestamp text {:?}",
            bad
        );
    }
}

#[test]
fn plus_signed_timestamp_is_canonicalized() {
    // The header may spell the timestamp with a leading plus; the signing
    // base string uses the canonical decimal, as the platform computes it.
    let sig = format!("v0={}", mac_hex(SECRET, TS, BODY));
    let ts_text = format!("+{}", TS);
    let req = request(Some(&ts_text), Some(&sig), BODY);
    assert_eq!(verify_request(&req, SECRET, TS + 100), VerificationOutcome::Valid);
}

#[test]
fn missing_signature_header() {
    let req = request(Some(&TS.to_string()), None, BODY);
    assert_eq!(
        verify_request(&req, SECRET, TS + 100),
        VerificationOutcome::Invalid(InvalidReason::MissingSignature)
    );
}

#[test]
fn wrong_version_prefix_rejected() {
    // Even a correct digest under a hypothetical other version scheme is
    // rejected before any comparison.
    let sig = format!("v1={}", mac_hex(SECRET, TS, BODY));
    let req = request(Some(&TS.to_string()), Some(&sig), BODY);
    assert_eq!(
        verify_request(&req, SECRET, TS + 100),
        VerificationOutcome::Invalid(InvalidReason::UnsupportedSignatureVersion)
    );
}

#[test]
fn short_signature_header_rejected() {
    for bad in ["", "v", "v0"] {
        let req = request(Some(&TS.to_string()), Some(bad), BODY);
        assert_eq!(
            verify_request(&req, SECRET, TS + 100),
            VerificationOutcome::Invalid(InvalidReason::UnsupportedSignatureVersion)
        );
    }
}

#[test]
fn bad_hex_rejected() {
    for bad in ["v0=xyz1", "v0=abc", "v0=0g"] {
        let req = request(Some(&TS.to_string()), Some(bad), BODY);
        assert_eq!(
            verify_request(&req, SECRET, TS + 100),
            VerificationOutcome::Invalid(InvalidReason::MalformedSignatureEncoding),
            "signature {:?}",
            bad
        );
    }
}

#[test]
fn uppercase_hex_accepted() {
    let sig = format!("v0={}", mac_hex(SECRET, TS, BODY).to_uppercase());
    let req = request(Some(&TS.to_string()), Some(&sig), BODY);
    assert_eq!(verify_request(&req, SECRET, TS + 100), VerificationOutcome::Valid);
}

#[test]
fn flipped_signature_digit_rejected() {
    let good = mac_hex(SECRET, TS, BODY);
    let mut chars: Vec<char> = good.chars().collect();
    // Replace the first hex digit by a digit of a different value.
    chars[0] = if chars[0] == '0' { '1' } else { '0' };
    let flipped: String = chars.into_iter().collect();
    assert_ne!(flipped, good);
    let sig = format!("v0={}", flipped);
    let req = request(Some(&TS.to_string()), Some(&sig), BODY);
    assert_eq!(
        verify_request(&req, SECRET, TS + 100),
        VerificationOutcome::Invalid(InvalidReason::SignatureMismatch)
    );
}

#[test]
fn flipped_body_byte_rejected() {
    let sig = format!("v0={}", mac_hex(SECRET, TS, BODY));
    let mut body2 = BODY.to_string();
    // Change one byte of the body, holding timestamp and signature fixed.
    body2.replace_range(10..11, "u");
    assert_ne!(body2, BODY);
    let req = request(Some(&TS.to_string()), Some(&sig), &body2);
    assert_eq!(
        verify_request(&req, SECRET, TS + 100),
        VerificationOutcome::Invalid(InvalidReason::SignatureMismatch)
    );
}

#[test]
fn reasons_have_descriptions() {
    assert_eq!(InvalidReason::MissingTimestamp.describe(), "key not found");
    assert_eq!(InvalidReason::MalformedTimestamp.describe(), "malformed time stamp");
    assert_eq!(InvalidReason::TimestampOutOfWindow.describe(), "invalid time stamp");
    assert_eq!(InvalidReason::MissingSignature.describe(), "signature not found");
    assert_eq!(InvalidReason::UnsupportedSignatureVersion.describe(), "invalid version");
    assert_eq!(InvalidReason::MalformedSignatureEncoding.describe(), "malformed signature encoding");
    assert_eq!(InvalidReason::SignatureMismatch.describe(), "signature mismatch");
}

#[test]
fn wrong_secret_rejected() {
    let sig = format!("v0={}", mac_hex(SECRET, TS, BODY));
    let req = request(Some(&TS.to_string()), Some(&sig), BODY);
    assert_eq!(
        verify_request(&req, "another-secret", TS + 100),
        VerificationOutcome::Invalid(InvalidReason::SignatureMismatch)
    );
}
