//! WebSocket subscription messages.
//!
//! The connection itself is the caller's transport; this module builds
//! the exact text frame a subscription request sends.

use crate::utils::json_string_of;
use crate::utils::json_quote;
use vstd::prelude::*;

verus! {

/// The subscription request frame for a topic: a JSON object with the
/// operation `subscribe` and the topic as the single argument, keys in
/// ascending order as the serializer emits them.
pub open spec fn subscribe_message_of(topic: Seq<char>) -> Seq<char> {
    "{\"args\":["@ + json_string_of(topic) + "],\"op\":\"subscribe\"}"@
}

/// Build the text frame that subscribes to a topic: one frame per
/// subscription request.
pub fn subscribe_message(topic: &str) -> (r: String)
    ensures
        r@ == subscribe_message_of(topic@),
{
    let mut s = String::from_str("{\"args\":[");
    s.append(json_quote(topic).as_str());
    s.append("],\"op\":\"subscribe\"}");
    s
}

} // verus!
