//! Fixed endpoints and protocol constants of the exchange.

use vstd::prelude::*;

verus! {

/// Base URL of the REST API.
pub const API_URL: &'static str = "https://api.bitget.com";

/// URL of the WebSocket stream.
pub const WS_URL: &'static str = "wss://ws.bitget.com/spot/v1/stream";

/// HTTP method for reads.
pub const GET: &'static str = "GET";

/// HTTP method for writes.
pub const POST: &'static str = "POST";

/// Content type of every request body.
pub const CONTENT_TYPE: &'static str = "application/json";

} // verus!
