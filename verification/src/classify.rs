//! ResponseClassifier: inspect the transport-level outcome of one request
//! and decide success, typed API error, or transport-class failure. A
//! failure status falls back from the structured error envelope to the
//! bare status code, because the upstream does not guarantee an envelope
//! on every failure mode.

use vstd::prelude::*;

use crate::types::{ApiError, Status};

verus! {

/// What the transport layer delivered: a status code with a body, or a
/// failure of the transfer itself.
#[derive(Debug, Clone, PartialEq, Eq)]
pub enum FetchResult {
    Delivered { status: u16, body: String },
    Failed { cause: String },
}

/// The classified outcome of one request.
#[derive(Debug, Clone, PartialEq, Eq)]
pub enum Classified {
    /// A success status; the body carries the typed response.
    Success { body: String },
    /// A failure status whose body held a well-formed error envelope.
    ApiFailure { status: u16, message: String },
    /// A failure status whose body held no envelope; the code stands alone.
    StatusFailure { status: u16 },
    /// The transfer itself failed.
    Transport { cause: String },
}

/// What the error envelope of a body text is: the message, version and
/// health that JSON decoding of `{message, status: {version, health}}`
/// yields, a function of the text alone; nothing where the text is not
/// such an envelope.
pub uninterp spec fn envelope_of(body: Seq<char>) -> Option<(Seq<char>, Seq<char>, i8)>;

/// Relies on serde_json::from_str: parsing is a function of the text
/// alone. Decodes the upstream's `{message, status: {version, health}}`
/// error envelope, or nothing where the text does not hold one.
#[verifier::external_body]
fn parse_error_envelope(body: &str) -> (r: Option<ApiError>)
    ensures
        match (r, envelope_of(body@)) {
            (Some(e), Some(t)) => e.message@ == t.0 && e.status.version@ == t.1 && e.status.health
                == t.2,
            (None, None) => true,
            _ => false,
        },
{
    let v: serde_json::Value = serde_json::from_str(body).ok()?;
    let message = v.get("message")?.as_str()?.to_owned();
    let status = v.get("status")?;
    let version = status.get("version")?.as_str()?.to_owned();
    let health = i8::try_from(status.get("health")?.as_i64()?).ok()?;
    Some(ApiError { message, status: Status { version, health } })
}

/// A status code that indicates success.
pub open spec fn is_success_status(status: int) -> bool {
    200 <= status < 300
}

/// Classify one transport outcome. A transport failure is surfaced as
/// such; a success status hands the body on for typed decoding; a
/// failure status carries the envelope's message where the body holds
/// one, and the bare status code where it does not.
pub fn classify_response(result: FetchResult) -> (r: Classified)
    ensures
        match result {
            FetchResult::Failed { cause } => r == (Classified::Transport { cause }),
            FetchResult::Delivered { status, body } => {
                if is_success_status(status as int) {
                    r == (Classified::Success { body })
                } else {
                    match envelope_of(body@) {
                        Some(t) => r matches Classified::ApiFailure { status: s, message } && s
                            == status && message@ == t.0,
                        None => r == (Classified::StatusFailure { status }),
                    }
                }
            },
        },
{
    match result {
        FetchResult::Failed { cause } => Classified::Transport { cause },
        FetchResult::Delivered { status, body } => {
            if 200 <= status && status < 300 {
                Classified::Success { body }
            } else {
                match parse_error_envelope(body.as_str()) {
                    Some(e) => Classified::ApiFailure { status, message: e.message },
                    None => Classified::StatusFailure { status },
                }
            }
        },
    }
}

} // verus!
