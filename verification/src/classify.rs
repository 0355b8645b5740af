//! Event classification: the union-by-shape decode of an authenticated
//! payload into the closed set of event variants.

use vstd::prelude::*;

use crate::json::{json_of, obj_get, obj_lookup, parse_json, Json};

verus! {

/// A created channel, as the platform reports it. The creation time is
/// seconds since epoch and needs a signed 64-bit field: real timestamps
/// exceed any byte-sized count.
#[derive(Clone, Debug)]
pub struct Channel {
    pub id: String,
    pub name: String,
    pub created: i64,
    pub creator: String,
}

/// The mathematical value of a Channel.
pub struct ChannelModel {
    pub id: Seq<char>,
    pub name: Seq<char>,
    pub created: i64,
    pub creator: Seq<char>,
}

impl View for Channel {
    type V = ChannelModel;

    open spec fn view(&self) -> ChannelModel {
        ChannelModel { id: self.id@, name: self.name@, created: self.created, creator: self.creator@ }
    }
}

/// A well-formed channel: every field present came out non-empty and the
/// creation time is a plausible epoch second.
pub open spec fn channel_wf(c: ChannelModel) -> bool {
    &&& c.id.len() > 0
    &&& c.name.len() > 0
    &&& c.creator.len() > 0
    &&& c.created >= 0
}

/// A classified payload: the platform's handshake probe, or a domain
/// event. Anything else is rejected, not silently ignored.
#[derive(Clone, Debug)]
pub enum SlackEvent {
    UrlVerification { challenge: String },
    ChannelCreated { channel: Channel },
}

/// The mathematical value of a SlackEvent.
pub enum EventModel {
    UrlVerification { challenge: Seq<char> },
    ChannelCreated { channel: ChannelModel },
}

impl View for SlackEvent {
    type V = EventModel;

    open spec fn view(&self) -> EventModel {
        match self {
            SlackEvent::UrlVerification { challenge } => EventModel::UrlVerification {
                challenge: challenge@,
            },
            SlackEvent::ChannelCreated { channel } => EventModel::ChannelCreated {
                channel: channel@,
            },
        }
    }
}

/// Why a payload failed classification.
#[derive(Clone, Copy, Debug, PartialEq, Eq, Structural)]
pub enum ClassificationError {
    MalformedJson,
    UnrecognizedShape,
}

/// The channel a JSON value describes, if it is an object carrying the
/// four fields with the right types and a well-formed content.
pub open spec fn channel_of_json(j: Json) -> Option<ChannelModel> {
    match j {
        Json::Obj(fields) => match (
            obj_get(fields@, "id"@),
            obj_get(fields@, "name"@),
            obj_get(fields@, "created"@),
            obj_get(fields@, "creator"@),
        ) {
            (
                Some(Json::Str(id)),
                Some(Json::Str(name)),
                Some(Json::Int(created)),
                Some(Json::Str(creator)),
            ) => {
                let c = ChannelModel {
                    id: id@,
                    name: name@,
                    created: created,
                    creator: creator@,
                };
                if channel_wf(c) {
                    Some(c)
                } else {
                    None
                }
            },
            _ => None,
        },
        _ => None,
    }
}

/// What classifying a parsed payload yields. Shapes are tried in a fixed
/// order, the handshake shape first: a `challenge`/`token` pair of
/// strings wins over an `event`/`token` pair, whose inner `type` selects
/// the variant. Unknown types and everything else are unrecognized.
pub open spec fn classify_json_spec(j: Json) -> Result<EventModel, ClassificationError> {
    match j {
        Json::Obj(fields) => match (obj_get(fields@, "challenge"@), obj_get(fields@, "token"@)) {
            (Some(Json::Str(challenge)), Some(Json::Str(_token))) => Ok(
                EventModel::UrlVerification { challenge: challenge@ },
            ),
            _ => match (obj_get(fields@, "event"@), obj_get(fields@, "token"@)) {
                (Some(Json::Obj(ev)), Some(Json::Str(_token))) => match obj_get(ev@, "type"@) {
                    Some(Json::Str(ty)) => if ty@ == "channel_created"@ {
                        match obj_get(ev@, "channel"@) {
                            Some(ch) => match channel_of_json(ch) {
                                Some(c) => Ok(EventModel::ChannelCreated { channel: c }),
                                None => Err(ClassificationError::UnrecognizedShape),
                            },
                            None => Err(ClassificationError::UnrecognizedShape),
                        }
                    } else {
                        Err(ClassificationError::UnrecognizedShape)
                    },
                    _ => Err(ClassificationError::UnrecognizedShape),
                },
                _ => Err(ClassificationError::UnrecognizedShape),
            },
        },
        _ => Err(ClassificationError::UnrecognizedShape),
    }
}

/// What classifying a body text yields: a parse failure is malformed
/// JSON, anything parsed goes through the shape decode above.
pub open spec fn classify_spec(body: Seq<char>) -> Result<EventModel, ClassificationError> {
    match json_of(body) {
        None => Err(ClassificationError::MalformedJson),
        Some(j) => classify_json_spec(j),
    }
}

/// Reads the channel out of a JSON value, if it describes one.
pub fn channel_from_json(j: &Json) -> (r: Option<Channel>)
    ensures
        match r {
            Some(c) => channel_of_json(*j) == Some(c@),
            None => channel_of_json(*j) is None,
        },
{
    let fields = match j {
        Json::Obj(fields) => fields,
        _ => {
            return None;
        },
    };
    let id = match obj_lookup(fields, "id") {
        Some(Json::Str(s)) => s,
        _ => {
            return None;
        },
    };
    let name = match obj_lookup(fields, "name") {
        Some(Json::Str(s)) => s,
        _ => {
            return None;
        },
    };
    let created = match obj_lookup(fields, "created") {
        Some(Json::Int(n)) => *n,
        _ => {
            return None;
        },
    };
    let creator = match obj_lookup(fields, "creator") {
        Some(Json::Str(s)) => s,
        _ => {
            return None;
        },
    };
    if id.as_str().is_empty() || name.as_str().is_empty() || creator.as_str().is_empty()
        || created < 0 {
        return None;
    }
    Some(Channel { id: id.clone(), name: name.clone(), created, creator: creator.clone() })
}

/// Classifies a parsed payload into exactly one event variant.
pub fn classify_json(j: &Json) -> (r: Result<SlackEvent, ClassificationError>)
    ensures
        match r {
            Ok(ev) => classify_json_spec(*j) == Ok::<EventModel, ClassificationError>(ev@),
            Err(e) => classify_json_spec(*j) == Err::<EventModel, ClassificationError>(e),
        },
{
    let fields = match j {
        Json::Obj(fields) => fields,
        _ => {
            return Err(ClassificationError::UnrecognizedShape);
        },
    };
    let challenge = obj_lookup(fields, "challenge");
    let token = obj_lookup(fields, "token");
    if let (Some(Json::Str(challenge)), Some(Json::Str(_token))) = (challenge, token) {
        return Ok(SlackEvent::UrlVerification { challenge: challenge.clone() });
    }
    let ev_fields = match (obj_lookup(fields, "event"), token) {
        (Some(Json::Obj(ev)), Some(Json::Str(_token))) => ev,
        _ => {
            return Err(ClassificationError::UnrecognizedShape);
        },
    };
    let ty = match obj_lookup(ev_fields, "type") {
        Some(Json::Str(ty)) => ty,
        _ => {
            return Err(ClassificationError::UnrecognizedShape);
        },
    };
    if !crate::text::str_eq(ty.as_str(), "channel_created") {
        return Err(ClassificationError::UnrecognizedShape);
    }
    let ch = match obj_lookup(ev_fields, "channel") {
        Some(ch) => ch,
        None => {
            return Err(ClassificationError::UnrecognizedShape);
        },
    };
    match channel_from_json(ch) {
        Some(c) => Ok(SlackEvent::ChannelCreated { channel: c }),
        None => Err(ClassificationError::UnrecognizedShape),
    }
}

/// Classifies an authenticated body text into exactly one event variant.
/// A recognized domain event always carries a well-formed channel.
pub fn classify(body: &str) -> (r: Result<SlackEvent, ClassificationError>)
    ensures
        match r {
            Ok(ev) => classify_spec(body@) == Ok::<EventModel, ClassificationError>(ev@),
            Err(e) => classify_spec(body@) == Err::<EventModel, ClassificationError>(e),
        },
        r matches Ok(SlackEvent::ChannelCreated { channel }) ==> channel_wf(channel@),
{
    match parse_json(body) {
        None => Err(ClassificationError::MalformedJson),
        Some(j) => classify_json(&j),
    }
}

/// An event-shaped payload whose inner `type` is not a known variant is
/// classified as UnrecognizedShape — never as some default variant.
pub proof fn lemma_unknown_type_unrecognized(
    fields: Vec<(String, Json)>,
    ev: Vec<(String, Json)>,
    ty: String,
)
    requires
        !(obj_get(fields@, "challenge"@) matches Some(Json::Str(_))) || !(obj_get(
            fields@,
            "token"@,
        ) matches Some(Json::Str(_))),
        obj_get(fields@, "event"@) == Some(Json::Obj(ev)),
        obj_get(fields@, "token"@) matches Some(Json::Str(_)),
        obj_get(ev@, "type"@) matches Some(Json::Str(t)) && t@ == ty@,
        ty@ != "channel_created"@,
    ensures
        classify_json_spec(Json::Obj(fields)) == Err::<EventModel, ClassificationError>(
            ClassificationError::UnrecognizedShape,
        ),
{
}

} // verus!
