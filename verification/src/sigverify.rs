//! Request authentication: timestamp-windowed HMAC signature verification.

use vstd::prelude::*;

use crate::hexcode::{hex_bytes, hex_decode, hex_digit_val, hex_text_ok, is_hex_digit};
use crate::hmac256::{hmac_sha256_check, hmac_sha256_of};
use crate::request::{header_value, InboundRequest, InvalidReason, VerificationOutcome};
use crate::text::{append_i64_dec, dec_text_i64, parse_i64, spec_parse_i64};

verus! {

/// Replays are rejected beyond this age, in seconds.
pub const REPLAY_WINDOW_SECONDS: i64 = 300;

pub open spec fn timestamp_header_name() -> Seq<char> {
    "X-Slack-Request-Timestamp"@
}

pub open spec fn signature_header_name() -> Seq<char> {
    "X-Slack-Signature"@
}

/// The signing base string: `"v0:" + timestamp + ":" + body`, with the
/// timestamp in canonical decimal.
pub open spec fn base_text(ts: int, body: Seq<char>) -> Seq<char> {
    seq!['v', '0', ':'] + dec_text_i64(ts) + seq![':'] + body
}

/// Whether a signature header carries the supported `v0=` version prefix.
pub open spec fn has_v0_prefix(sig: Seq<char>) -> bool {
    sig.len() >= 3 && sig[0] == 'v' && sig[1] == '0' && sig[2] == '='
}

/// What verifying a request yields. Each step short-circuits in protocol
/// order: timestamp header, timestamp syntax, replay window, signature
/// header, version prefix, hex encoding, digest comparison.
pub open spec fn verify_spec(
    headers: Seq<(String, String)>,
    body: Seq<char>,
    secret: Seq<char>,
    now: int,
) -> VerificationOutcome {
    match header_value(headers, timestamp_header_name()) {
        None => VerificationOutcome::Invalid(InvalidReason::MissingTimestamp),
        Some(ts_text) => match spec_parse_i64(ts_text) {
            None => VerificationOutcome::Invalid(InvalidReason::MalformedTimestamp),
            Some(ts) => if now - ts < 0 || now - ts > REPLAY_WINDOW_SECONDS {
                VerificationOutcome::Invalid(InvalidReason::TimestampOutOfWindow)
            } else {
                match header_value(headers, signature_header_name()) {
                    None => VerificationOutcome::Invalid(InvalidReason::MissingSignature),
                    Some(sig) => if !has_v0_prefix(sig) {
                        VerificationOutcome::Invalid(InvalidReason::UnsupportedSignatureVersion)
                    } else if !hex_text_ok(sig.skip(3)) {
                        VerificationOutcome::Invalid(InvalidReason::MalformedSignatureEncoding)
                    } else if hex_bytes(sig.skip(3)) == hmac_sha256_of(
                        secret,
                        base_text(ts as int, body),
                    ) {
                        VerificationOutcome::Valid
                    } else {
                        VerificationOutcome::Invalid(InvalidReason::SignatureMismatch)
                    },
                }
            },
        },
    }
}

/// Verifies that the request was signed by the holder of the shared
/// secret within the replay window ending at `now` (seconds since epoch).
pub fn verify_request(req: &InboundRequest, secret: &str, now: i64) -> (r: VerificationOutcome)
    requires
        0 <= now,
    ensures
        r == verify_spec(req.headers@, req.body@, secret@, now as int),
{
    let ts_text = match crate::request::header_lookup(&req.headers, "X-Slack-Request-Timestamp") {
        None => {
            return VerificationOutcome::Invalid(InvalidReason::MissingTimestamp);
        },
        Some(t) => t,
    };
    let ts = match parse_i64(ts_text.as_str()) {
        None => {
            return VerificationOutcome::Invalid(InvalidReason::MalformedTimestamp);
        },
        Some(t) => t,
    };
    if ts > now || ts < now - REPLAY_WINDOW_SECONDS {
        return VerificationOutcome::Invalid(InvalidReason::TimestampOutOfWindow);
    }
    let sig = match crate::request::header_lookup(&req.headers, "X-Slack-Signature") {
        None => {
            return VerificationOutcome::Invalid(InvalidReason::MissingSignature);
        },
        Some(s) => s,
    };
    let sig_len = sig.as_str().unicode_len();
    if sig_len < 3 || sig.as_str().get_char(0) != 'v' || sig.as_str().get_char(1) != '0'
        || sig.as_str().get_char(2) != '=' {
        return VerificationOutcome::Invalid(InvalidReason::UnsupportedSignatureVersion);
    }
    let sig_hex = sig.as_str().substring_char(3, sig_len);
    proof {
        assert(sig_hex@ =~= sig@.skip(3));
    }
    let decoded = match hex_decode(sig_hex) {
        None => {
            return VerificationOutcome::Invalid(InvalidReason::MalformedSignatureEncoding);
        },
        Some(d) => d,
    };
    let mut base = String::new();
    base.append("v0:");
    append_i64_dec(&mut base, ts);
    base.append(":");
    base.append(req.body.as_str());
    proof {
        reveal_strlit("v0:");
        reveal_strlit(":");
        assert(base@ =~= base_text(ts as int, req.body@));
    }
    if hmac_sha256_check(secret, base.as_str(), decoded.as_slice()) {
        VerificationOutcome::Valid
    } else {
        VerificationOutcome::Invalid(InvalidReason::SignatureMismatch)
    }
}

/// A request whose timestamp is within the replay window and whose
/// signature header carries the `v0=` prefix over the hex of the true
/// digest of the signing base string verifies as Valid.
pub proof fn lemma_valid_signature_in_window(
    headers: Seq<(String, String)>,
    body: Seq<char>,
    secret: Seq<char>,
    now: int,
    ts_text: Seq<char>,
    ts: i64,
    sig: Seq<char>,
)
    requires
        header_value(headers, timestamp_header_name()) == Some(ts_text),
        spec_parse_i64(ts_text) == Some(ts),
        0 <= now - ts <= REPLAY_WINDOW_SECONDS,
        header_value(headers, signature_header_name()) == Some(sig),
        has_v0_prefix(sig),
        hex_text_ok(sig.skip(3)),
        hex_bytes(sig.skip(3)) == hmac_sha256_of(secret, base_text(ts as int, body)),
    ensures
        verify_spec(headers, body, secret, now) == VerificationOutcome::Valid,
{
}

/// A timestamp from the future or older than the replay window is
/// rejected as TimestampOutOfWindow, whatever the signature says.
pub proof fn lemma_out_of_window_rejected(
    headers: Seq<(String, String)>,
    body: Seq<char>,
    secret: Seq<char>,
    now: int,
    ts_text: Seq<char>,
    ts: i64,
)
    requires
        header_value(headers, timestamp_header_name()) == Some(ts_text),
        spec_parse_i64(ts_text) == Some(ts),
        now - ts < 0 || now - ts > REPLAY_WINDOW_SECONDS,
    ensures
        verify_spec(headers, body, secret, now) == VerificationOutcome::Invalid(
            InvalidReason::TimestampOutOfWindow,
        ),
{
}

/// A signature header that does not start with `v0=` is rejected as
/// UnsupportedSignatureVersion, even if its remainder were a correct
/// digest under some other scheme.
pub proof fn lemma_unsupported_version(
    headers: Seq<(String, String)>,
    body: Seq<char>,
    secret: Seq<char>,
    now: int,
    ts_text: Seq<char>,
    ts: i64,
    sig: Seq<char>,
)
    requires
        header_value(headers, timestamp_header_name()) == Some(ts_text),
        spec_parse_i64(ts_text) == Some(ts),
        0 <= now - ts <= REPLAY_WINDOW_SECONDS,
        header_value(headers, signature_header_name()) == Some(sig),
        !has_v0_prefix(sig),
    ensures
        verify_spec(headers, body, secret, now) == VerificationOutcome::Invalid(
            InvalidReason::UnsupportedSignatureVersion,
        ),
{
}

/// Replacing one hex digit of a Valid request's signature by a digit of
/// a different value turns the outcome into SignatureMismatch, with the
/// timestamp and body held fixed. (A digit replaced by the other-case
/// digit of the same value decodes to the same byte and stays Valid,
/// so only value-changing replacements are covered.)
pub proof fn lemma_signature_digit_flip(
    headers: Seq<(String, String)>,
    headers2: Seq<(String, String)>,
    body: Seq<char>,
    secret: Seq<char>,
    now: int,
    ts_text: Seq<char>,
    ts: i64,
    sig: Seq<char>,
    sig2: Seq<char>,
    k: int,
)
    requires
        verify_spec(headers, body, secret, now) == VerificationOutcome::Valid,
        header_value(headers, timestamp_header_name()) == Some(ts_text),
        spec_parse_i64(ts_text) == Some(ts),
        header_value(headers, signature_header_name()) == Some(sig),
        header_value(headers2, timestamp_header_name()) == Some(ts_text),
        header_value(headers2, signature_header_name()) == Some(sig2),
        sig2.len() == sig.len(),
        3 <= k < sig.len(),
        forall|i: int| 0 <= i < sig.len() && i != k ==> sig2[i] == sig[i],
        is_hex_digit(sig2[k]),
        hex_digit_val(sig2[k]) != hex_digit_val(sig[k]),
    ensures
        verify_spec(headers2, body, secret, now) == VerificationOutcome::Invalid(
            InvalidReason::SignatureMismatch,
        ),
{
    assert(0 <= now - ts <= REPLAY_WINDOW_SECONDS);
    assert(has_v0_prefix(sig));
    assert(hex_text_ok(sig.skip(3)));
    assert(has_v0_prefix(sig2));
    let h = sig.skip(3);
    let h2 = sig2.skip(3);
    assert(forall|i: int| 0 <= i < h.len() && i != k - 3 ==> h2[i] == h[i]);
    assert(h2[k - 3] == sig2[k]);
    assert(hex_text_ok(h2));
    let j = (k - 3) / 2;
    assert(0 <= j < h.len() / 2);
    let a = hex_digit_val(h[2 * j]);
    let b = hex_digit_val(h[2 * j + 1]);
    let a2 = hex_digit_val(h2[2 * j]);
    let b2 = hex_digit_val(h2[2 * j + 1]);
    assert(is_hex_digit(h[2 * j]) && is_hex_digit(h[2 * j + 1]));
    assert(0 <= a < 16 && 0 <= b < 16 && 0 <= a2 < 16 && 0 <= b2 < 16);
    assert(k - 3 == 2 * j || k - 3 == 2 * j + 1);
    assert(a != a2 || b != b2);
    assert(a == a2 || b == b2);
    assert(a * 16 + b != a2 * 16 + b2) by {
        if a != a2 {
            assert(a * 16 - a2 * 16 == (a - a2) * 16) by (nonlinear_arith);
        }
    }
    assert(hex_bytes(h)[j] == (a * 16 + b) as u8);
    assert(hex_bytes(h2)[j] == (a2 * 16 + b2) as u8);
    assert(hex_bytes(h2)[j] != hex_bytes(h)[j]);
    assert(hex_bytes(h2) != hex_bytes(h));
    assert(hex_bytes(h) == hmac_sha256_of(secret, base_text(ts as int, body)));
}

} // verus!
