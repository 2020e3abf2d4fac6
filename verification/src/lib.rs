//! Authenticated client core for the Bitget exchange API.
//!
//! The crate covers the request signing and dispatch pipeline: canonical
//! parameter encoding, pre-signature string construction, HMAC-SHA256
//! signing, authentication header assembly, and response classification.

pub mod account_api;
pub mod asset_api;
pub mod client;
pub mod consts;
pub mod exceptions;
pub mod fund_flow_api;
pub mod history_api;
pub mod market_api;
pub mod order_api;
pub mod order_query_api;
pub mod params;
pub mod query;
pub mod transfer_api;
pub mod utils;
pub mod ws_api;

pub use client::BitgetClient;
pub use params::ParamMap;
