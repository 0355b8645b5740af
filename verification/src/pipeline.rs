//! The dispatch pipeline: verify, classify, then act — and the batch
//! path that unwraps relayed records.

use std::collections::HashMap;

use vstd::prelude::*;

use crate::classify::{
    channel_of_json, classify, classify_spec, Channel, ChannelModel,
    ClassificationError, EventModel, SlackEvent,
};
use crate::json::{json_of, obj_get, obj_lookup, parse_json, Json};
use crate::render::{channel_json_text, render_channel, reply_body_text, SlackResponse};
use crate::request::{InboundRequest, InvalidReason, VerificationOutcome};
use crate::sigverify::{verify_request, verify_spec};

verus! {

/// Why a synchronous invocation failed: the request was not
/// authenticated, or its payload could not be classified. Neither is
/// ever masked as success.
#[derive(Clone, Copy, Debug, PartialEq, Eq, Structural)]
pub enum PipelineError {
    Authentication(InvalidReason),
    Classification(ClassificationError),
}

/// What the caller must do for a handled request: reply, or first
/// forward the message to the relay target and then reply.
#[derive(Clone, Debug)]
pub enum DispatchAction {
    Reply { body: String },
    ForwardAndReply { message: String, body: String },
}

/// The mathematical value of a DispatchAction.
pub enum ActionModel {
    Reply { body: Seq<char> },
    ForwardAndReply { message: Seq<char>, body: Seq<char> },
}

impl View for DispatchAction {
    type V = ActionModel;

    open spec fn view(&self) -> ActionModel {
        match self {
            DispatchAction::Reply { body } => ActionModel::Reply { body: body@ },
            DispatchAction::ForwardAndReply { message, body } => ActionModel::ForwardAndReply {
                message: message@,
                body: body@,
            },
        }
    }
}

/// What dispatching a request yields: the verifier's failure, the
/// classifier's failure, or the action for the classified event — the
/// handshake probe is answered with its challenge and nothing is
/// forwarded; a created channel is forwarded as JSON and acknowledged
/// with a null challenge.
pub open spec fn dispatch_spec(
    headers: Seq<(String, String)>,
    body: Seq<char>,
    secret: Seq<char>,
    now: int,
) -> Result<ActionModel, PipelineError> {
    match verify_spec(headers, body, secret, now) {
        VerificationOutcome::Invalid(reason) => Err(PipelineError::Authentication(reason)),
        VerificationOutcome::Valid => match classify_spec(body) {
            Err(e) => Err(PipelineError::Classification(e)),
            Ok(EventModel::UrlVerification { challenge }) => Ok(
                ActionModel::Reply { body: reply_body_text(Some(challenge)) },
            ),
            Ok(EventModel::ChannelCreated { channel }) => Ok(
                ActionModel::ForwardAndReply {
                    message: channel_json_text(channel),
                    body: reply_body_text(None),
                },
            ),
        },
    }
}

/// Runs one synchronous invocation up to its side effects: verifies the
/// request under the shared secret at time `now`, classifies the body,
/// and plans the action. Any failure aborts the request with its
/// originating error; nothing partial is returned.
pub fn dispatch(req: &InboundRequest, secret: &str, now: i64) -> (r: Result<
    DispatchAction,
    PipelineError,
>)
    requires
        0 <= now,
    ensures
        match r {
            Ok(a) => dispatch_spec(req.headers@, req.body@, secret@, now as int) == Ok::<
                ActionModel,
                PipelineError,
            >(a@),
            Err(e) => dispatch_spec(req.headers@, req.body@, secret@, now as int) == Err::<
                ActionModel,
                PipelineError,
            >(e),
        },
{
    match verify_request(req, secret, now) {
        VerificationOutcome::Invalid(reason) => {
            return Err(PipelineError::Authentication(reason));
        },
        VerificationOutcome::Valid => {},
    }
    match classify(req.body.as_str()) {
        Err(e) => Err(PipelineError::Classification(e)),
        Ok(SlackEvent::UrlVerification { challenge }) => {
            let reply = SlackResponse::new(Some(challenge));
            Ok(DispatchAction::Reply { body: reply.body_text() })
        },
        Ok(SlackEvent::ChannelCreated { channel }) => {
            let message = render_channel(&channel);
            let reply = SlackResponse::new(None);
            Ok(DispatchAction::ForwardAndReply { message, body: reply.body_text() })
        },
    }
}

/// A failed verification or classification is surfaced as the failed
/// invocation's error, never masked as a successful reply.
pub proof fn lemma_failure_never_masked(
    headers: Seq<(String, String)>,
    body: Seq<char>,
    secret: Seq<char>,
    now: int,
)
    requires
        verify_spec(headers, body, secret, now) != VerificationOutcome::Valid || classify_spec(
            body,
        ) is Err,
    ensures
        dispatch_spec(headers, body, secret, now) is Err,
{
}

/// The channel a relayed record's body describes, through the two nested
/// decodes the relay service imposes: the body is JSON carrying a
/// `Message` string, which is itself the JSON of a channel.
pub open spec fn envelope_channel(body: Seq<char>) -> Option<ChannelModel> {
    match json_of(body) {
        None => None,
        Some(j) => match j {
            Json::Obj(fields) => match obj_get(fields@, "Message"@) {
                Some(Json::Str(m)) => match json_of(m@) {
                    None => None,
                    Some(inner) => channel_of_json(inner),
                },
                _ => None,
            },
            _ => None,
        },
    }
}

/// Decodes one relayed record body into its channel, if both nested
/// decodes succeed.
pub fn decode_envelope(body: &str) -> (r: Option<Channel>)
    ensures
        match r {
            Some(c) => envelope_channel(body@) == Some(c@),
            None => envelope_channel(body@) is None,
        },
{
    let outer = match parse_json(body) {
        None => {
            return None;
        },
        Some(j) => j,
    };
    let fields = match &outer {
        Json::Obj(fields) => fields,
        _ => {
            return None;
        },
    };
    let message = match obj_lookup(fields, "Message") {
        Some(Json::Str(m)) => m,
        _ => {
            return None;
        },
    };
    let inner = match parse_json(message.as_str()) {
        None => {
            return None;
        },
        Some(j) => j,
    };
    crate::classify::channel_from_json(&inner)
}

/// The channels a batch of records carries, in order: records whose body
/// is missing or fails either decode contribute nothing.
pub open spec fn batch_channels(records: Seq<Option<String>>) -> Seq<ChannelModel>
    decreases records.len(),
{
    if records.len() == 0 {
        Seq::empty()
    } else {
        batch_channels(records.drop_last()) + match records.last() {
            Some(b) => match envelope_channel(b@) {
                Some(c) => seq![c],
                None => Seq::empty(),
            },
            None => Seq::empty(),
        }
    }
}

/// A record that does not decode leaves the batch's channels unchanged:
/// a bad record is skipped, never fatal to the others.
pub proof fn lemma_bad_record_skipped(records: Seq<Option<String>>, bad: Option<String>)
    requires
        bad matches Some(b) ==> envelope_channel(b@) is None,
    ensures
        batch_channels(records.push(bad)) == batch_channels(records),
{
    assert(records.push(bad).drop_last() =~= records);
    assert(records.push(bad).last() == bad);
    assert(batch_channels(records.push(bad)) =~= batch_channels(records));
}

/// Decodes every record of a batch independently, keeping the channels
/// of those that decode, in order.
pub fn batch_plan(records: &Vec<Option<String>>) -> (r: Vec<Channel>)
    ensures
        r@.map_values(|c: Channel| c@) == batch_channels(records@),
{
    let mut out: Vec<Channel> = Vec::new();
    let mut i: usize = 0;
    proof {
        assert(records@.take(0) =~= Seq::<Option<String>>::empty());
        assert(out@.map_values(|c: Channel| c@) =~= batch_channels(records@.take(0)));
    }
    while i < records.len()
        invariant
            0 <= i <= records@.len(),
            out@.map_values(|c: Channel| c@) == batch_channels(records@.take(i as int)),
        decreases records@.len() - i,
    {
        let ghost prev = out@;
        match &records[i] {
            None => {},
            Some(body) => {
                match decode_envelope(body.as_str()) {
                    None => {},
                    Some(c) => {
                        out.push(c);
                    },
                }
            },
        }
        proof {
            assert(records@.take(i + 1).drop_last() =~= records@.take(i as int));
            assert(records@.take(i + 1).last() == records@[i as int]);
            assert(out@.map_values(|c: Channel| c@) =~= batch_channels(records@.take(i + 1)));
        }
        i += 1;
    }
    proof {
        assert(records@.take(records@.len() as int) =~= records@);
    }
    out
}

/// The transport-level reply: always status 200 with a JSON body on
/// success; failures never reach this shape.
#[derive(Debug)]
pub struct ApiGatewayOutput {
    pub status_code: u8,
    pub headers: HashMap<String, String>,
    pub body: String,
}

impl ApiGatewayOutput {
    pub fn new(status_code: u8, headers: HashMap<String, String>, body: String) -> (r: Self)
        ensures
            r.status_code == status_code,
            r.headers == headers,
            r.body == body,
    {
        ApiGatewayOutput { status_code, headers, body }
    }
}

} // verus!
