use std::collections::HashMap;

use slack_relay::classify::ClassificationError;
use slack_relay::pipeline::{
    batch_plan, decode_envelope, dispatch, ApiGatewayOutput, DispatchAction, PipelineError,
};
use slack_relay::render::render_channel;
use slack_relay::request::{InboundRequest, InvalidReason};

fn signed_request(secret: &str, ts: i64, body: &str) -> InboundRequest {
    let base = format!("v0:{}:{}", ts, body);
    let mut mac =
        <hmac::Hmac<sha2::Sha256> as hmac::KeyInit>::new_from_slice(secret.as_bytes()).unwrap();
    hmac::Mac::update(&mut mac, base.as_bytes());
    let sig = format!("v0={}", hex::encode(hmac::Mac::finalize(mac).into_bytes()));
    InboundRequest {
        headers: vec![
            ("X-Slack-Request-Timestamp".to_string(), ts.to_string()),
            ("X-Slack-Signature".to_string(), sig),
        ],
        body: body.to_string(),
    }
}

const SECRET: &str = "8f742231b10e8888abcd99yyyzzz85a5";
const TS: i64 = 1700000000;
const CHANNEL_BODY: &str = "{\"token\":\"t\",\"event\":{\"type\":\"channel_created\",\"channel\":{\"id\":\"C1\",\"name\":\"general\",\"created\":1700000000,\"creator\":\"U1\"}}}";
const CHANNEL_JSON: &str =
    "{\"id\":\"C1\",\"name\":\"general\",\"created\":1700000000,\"creator\":\"U1\"}";

#[test]
fn dispatch_answers_handshake() {
    let req = signed_request(SECRET, TS, "{\"challenge\":\"abc\",\"token\":\"t\"}");
    match dispatch(&req, SECRET, TS + 10) {
        Ok(DispatchAction::Reply { body }) => {
            let v: serde_json::Value = serde_json::from_str(&body).unwrap();
            assert_eq!(v.get("challenge").and_then(|c| c.as_str()), Some("abc"));
        },
        _ => panic!("expected a plain reply"),
    }
}

#[test]
fn dispatch_forwards_created_channel() {
    let req = signed_request(SECRET, TS, CHANNEL_BODY);
    match dispatch(&req, SECRET, TS + 10) {
        Ok(DispatchAction::ForwardAndReply { message, body }) => {
            assert_eq!(message, CHANNEL_JSON);
            assert_eq!(body, "{\"challenge\":null}");
        },
        _ => panic!("expected forward and reply"),
    }
}

#[test]
fn dispatch_surfaces_authentication_failure() {
    let mut req = signed_request(SECRET, TS, CHANNEL_BODY);
    req.headers[1].1 = "v0=00112233".to_string();
    assert!(matches!(
        dispatch(&req, SECRET, TS + 10),
        Err(PipelineError::Authentication(InvalidReason::SignatureMismatch))
    ));
}

#[test]
fn dispatch_surfaces_replay() {
    let req = signed_request(SECRET, TS, CHANNEL_BODY);
    assert!(matches!(
        dispatch(&req, SECRET, TS + 301),
        Err(PipelineError::Authentication(InvalidReason::TimestampOutOfWindow))
    ));
}

#[test]
fn dispatch_surfaces_classification_failure() {
    let req = signed_request(SECRET, TS, "{\"token\":\"t\"}");
    assert!(matches!(
        dispatch(&req, SECRET, TS + 10),
        Err(PipelineError::Classification(ClassificationError::UnrecognizedShape))
    ));
    let req = signed_request(SECRET, TS, "{nope");
    assert!(matches!(
        dispatch(&req, SECRET, TS + 10),
        Err(PipelineError::Classification(ClassificationError::MalformedJson))
    ));
}

fn envelope_of(channel_json: &str) -> String {
    format!("{{\"Message\":{}}}", serde_json::to_string(channel_json).unwrap())
}

#[test]
fn envelope_decodes_nested_channel() {
    let c = decode_envelope(&envelope_of(CHANNEL_JSON)).expect("a channel");
    assert_eq!(c.id, "C1");
    assert_eq!(c.name, "general");
    assert_eq!(c.created, 1700000000i64);
    assert_eq!(c.creator, "U1");
}

#[test]
fn envelope_rejects_bad_nesting() {
    assert!(decode_envelope("not json").is_none());
    assert!(decode_envelope("{\"NotMessage\":\"x\"}").is_none());
    assert!(decode_envelope("{\"Message\":5}").is_none());
    assert!(decode_envelope(&envelope_of("not json either")).is_none());
    assert!(decode_envelope(&envelope_of("{\"id\":\"C1\"}")).is_none());
}

#[test]
fn batch_skips_undecodable_record() {
    let records = vec![
        Some(envelope_of(CHANNEL_JSON)),
        Some("totally broken".to_string()),
    ];
    let plan = batch_plan(&records);
    assert_eq!(plan.len(), 1);
    assert_eq!(plan[0].id, "C1");
    assert_eq!(plan[0].created, 1700000000i64);
}

#[test]
fn batch_skips_missing_body_and_keeps_order() {
    let second = "{\"id\":\"C2\",\"name\":\"random\",\"created\":1700000001,\"creator\":\"U2\"}";
    let records = vec![
        Some(envelope_of(CHANNEL_JSON)),
        None,
        Some(envelope_of(second)),
    ];
    let plan = batch_plan(&records);
    assert_eq!(plan.len(), 2);
    assert_eq!(plan[0].id, "C1");
    assert_eq!(plan[1].id, "C2");
    assert_eq!(plan[1].created, 1700000001i64);
}

#[test]
fn rendered_channel_is_exact_json() {
    let c = decode_envelope(&envelope_of(CHANNEL_JSON)).unwrap();
    assert_eq!(render_channel(&c), CHANNEL_JSON);
}

#[test]
fn api_gateway_output_keeps_fields() {
    let out = ApiGatewayOutput::new(200, HashMap::new(), "{\"challenge\":null}".to_string());
    assert_eq!(out.status_code, 200);
    assert!(out.headers.is_empty());
    assert_eq!(out.body, "{\"challenge\":null}");
}

#[test]
fn slack_response_keeps_challenge() {
    let r = slack_relay::render::SlackResponse::new(Some("abc".to_string()));
    assert_eq!(r.challenge.as_deref(), Some("abc"));
}
