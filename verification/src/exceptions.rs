//! Error taxonomy and exchange error envelope classification.
//!
//! The exchange wraps every response in a JSON envelope `{code, msg, data}`.
//! A response whose `code` is anything but the success sentinel `"00000"`
//! is a business-level rejection and is surfaced as a [`BitgetApiError`].
//! Failures of the surrounding machinery (unsupported configuration,
//! transport problems) are kept strictly apart in [`BitgetError`].

use vstd::prelude::*;

verus! {

/// A well-formed error envelope returned by the exchange: code, message
/// and request trace id, verbatim.
#[derive(Clone, Debug)]
pub struct BitgetApiError {
    pub code: String,
    pub msg: String,
    pub request_id: String,
}

impl BitgetApiError {
    /// Human-readable rendering of the error, for callers that log it.
    pub fn describe(&self) -> (r: String)
        ensures
            r@ == "Bitget API error - code: "@ + self.code@ + ", message: "@ + self.msg@,
    {
        let mut s = String::from_str("Bitget API error - code: ");
        s.append(self.code.as_str());
        s.append(", message: ");
        s.append(self.msg.as_str());
        s
    }
}

/// Everything that can go wrong on the way to or from the exchange, kept
/// in disjoint classes so callers can branch on them.
#[derive(Clone, Debug)]
pub enum BitgetError {
    /// The HTTP method is not one the dispatcher supports; carries the
    /// offending method. Raised before any network activity.
    UnsupportedMethod(String),
    /// A signature scheme other than HMAC-SHA256 was requested; there is
    /// no fallback. Raised before any network activity.
    UnsupportedScheme,
    /// A parameter map could not be encoded. Reserved for richer value
    /// types: encoding a string-valued map is total and never raises it.
    Serialization(String),
    /// The transport failed or returned a non-success HTTP status; carries
    /// the status and the raw response body.
    Transport { status: u16, body: String },
    /// The exchange returned a well-formed error envelope.
    Exchange(BitgetApiError),
}

/// The `code`, `msg` and `requestId` fields that the envelope of a
/// response text carries, if the text is a JSON object with a string
/// `code` field and a `msg` field: the message rendered as a string (or
/// empty when not a string), likewise the trace id.
pub uninterp spec fn envelope_of(s: Seq<char>) -> Option<(Seq<char>, Seq<char>, Seq<char>)>;

/// Relies on serde_json::from_str::<Value> together with Value::get and
/// Value::as_str to read the `code`, `msg` and `requestId` members of the
/// envelope; the result is a function of the text alone.
#[verifier::external_body]
fn read_envelope(text: &str) -> (r: Option<(String, String, String)>)
    ensures
        r is Some <==> envelope_of(text@) is Some,
        r matches Some(t) ==> envelope_of(text@) matches Some(e) && t.0@ == e.0 && t.1@ == e.1
            && t.2@ == e.2,
{
    match serde_json::from_str::<serde_json::Value>(text) {
        Ok(v) => match (v.get("code"), v.get("msg")) {
            (Some(code), Some(msg)) => match code.as_str() {
                Some(c) => {
                    let m = msg.as_str().unwrap_or("");
                    let rid = v.get("requestId").and_then(|x| x.as_str()).unwrap_or("");
                    Some((c.to_string(), m.to_string(), rid.to_string()))
                },
                None => None,
            },
            _ => None,
        },
        Err(_) => None,
    }
}

/// Classify a raw response body: `Some` exactly when it carries an error
/// envelope, that is a string `code` field other than the success
/// sentinel `"00000"`; the error fields are passed through verbatim.
/// A body that is not JSON, lacks the fields, or reports success yields
/// `None` rather than an error: opaque success bodies pass through.
pub fn parse_error_response(response_text: &str) -> (r: Option<BitgetApiError>)
    ensures
        r is Some <==> (envelope_of(response_text@) matches Some(e) && e.0 != "00000"@),
        r matches Some(err) ==> envelope_of(response_text@) matches Some(e) && err.code@ == e.0
            && err.msg@ == e.1 && err.request_id@ == e.2,
{
    match read_envelope(response_text) {
        Some((code, msg, request_id)) => {
            if !code.eq(&String::from_str("00000")) {
                Some(BitgetApiError { code, msg, request_id })
            } else {
                None
            }
        },
        None => None,
    }
}

} // verus!
