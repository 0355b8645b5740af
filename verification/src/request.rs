//! The inbound request as the transport adapter hands it over, and the
//! outcome of verifying it.

use vstd::prelude::*;

use crate::text::str_eq;

verus! {

/// An inbound webhook request: named headers and the raw body text,
/// exactly as received.
pub struct InboundRequest {
    pub headers: Vec<(String, String)>,
    pub body: String,
}

impl InboundRequest {
    /// Header names are unique; lookups below return the first match, so
    /// they agree with any map reading of the headers when this holds.
    pub open spec fn wf(&self) -> bool {
        forall|i: int, j: int|
            0 <= i < j < self.headers@.len() ==> self.headers@[i].0@ != self.headers@[j].0@
    }
}

/// The value of the first header with the given name, if any.
pub open spec fn header_value(headers: Seq<(String, String)>, name: Seq<char>) -> Option<Seq<char>>
    decreases headers.len(),
{
    if headers.len() == 0 {
        None
    } else if headers[0].0@ == name {
        Some(headers[0].1@)
    } else {
        header_value(headers.drop_first(), name)
    }
}

/// Finds the first header with the given name.
pub fn header_lookup<'a>(headers: &'a Vec<(String, String)>, name: &str) -> (r: Option<&'a String>)
    ensures
        match r {
            Some(v) => header_value(headers@, name@) == Some(v@),
            None => header_value(headers@, name@) is None,
        },
{
    let mut i: usize = 0;
    proof {
        assert(headers@.skip(0) =~= headers@);
    }
    while i < headers.len()
        invariant
            0 <= i <= headers@.len(),
            header_value(headers@, name@) == header_value(headers@.skip(i as int), name@),
        decreases headers@.len() - i,
    {
        proof {
            assert(headers@.skip(i as int)[0] == headers@[i as int]);
            assert(headers@.skip(i as int).drop_first() =~= headers@.skip(i + 1));
        }
        if str_eq(headers[i].0.as_str(), name) {
            return Some(&headers[i].1);
        }
        i += 1;
    }
    proof {
        assert(headers@.skip(i as int).len() == 0);
    }
    None
}

/// Why a request failed verification.
#[derive(Clone, Copy, Debug, PartialEq, Eq, Structural)]
pub enum InvalidReason {
    MissingTimestamp,
    MalformedTimestamp,
    TimestampOutOfWindow,
    MissingSignature,
    UnsupportedSignatureVersion,
    MalformedSignatureEncoding,
    SignatureMismatch,
}

/// The text describing each failure reason.
pub open spec fn reason_text(reason: InvalidReason) -> Seq<char> {
    match reason {
        InvalidReason::MissingTimestamp => "key not found"@,
        InvalidReason::MalformedTimestamp => "malformed time stamp"@,
        InvalidReason::TimestampOutOfWindow => "invalid time stamp"@,
        InvalidReason::MissingSignature => "signature not found"@,
        InvalidReason::UnsupportedSignatureVersion => "invalid version"@,
        InvalidReason::MalformedSignatureEncoding => "malformed signature encoding"@,
        InvalidReason::SignatureMismatch => "signature mismatch"@,
    }
}

impl InvalidReason {
    /// The description a failed invocation surfaces. The secret, the
    /// digest and the raw signature bytes appear in no message.
    pub fn describe(&self) -> (r: &'static str)
        ensures
            r@ == reason_text(*self),
    {
        match self {
            InvalidReason::MissingTimestamp => "key not found",
            InvalidReason::MalformedTimestamp => "malformed time stamp",
            InvalidReason::TimestampOutOfWindow => "invalid time stamp",
            InvalidReason::MissingSignature => "signature not found",
            InvalidReason::UnsupportedSignatureVersion => "invalid version",
            InvalidReason::MalformedSignatureEncoding => "malformed signature encoding",
            InvalidReason::SignatureMismatch => "signature mismatch",
        }
    }
}

/// The outcome of verifying a request against the shared secret.
#[derive(Clone, Copy, Debug, PartialEq, Eq, Structural)]
pub enum VerificationOutcome {
    Valid,
    Invalid(InvalidReason),
}

} // verus!
