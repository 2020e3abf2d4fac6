//! Account endpoints: parameter builders and response shapes.
//!
//! Each builder assembles the canonical parameter map for one endpoint;
//! the dispatch itself is left to the caller's transport.

use crate::params::ParamMap;
use vstd::prelude::*;

verus! {

/// Account information, as the exchange reports it.
#[derive(Clone, Debug)]
pub struct AccountInfoResp {
    pub margin_coin: Option<String>,
    pub available: Option<String>,
    pub frozen: Option<String>,
    pub total: Option<String>,
    pub equity: Option<String>,
    pub account_type: Option<String>,
}

/// One open position, as the exchange reports it.
#[derive(Clone, Debug)]
pub struct PositionInfoResp {
    pub symbol: Option<String>,
    pub margin_coin: Option<String>,
    pub total: Option<String>,
    pub available: Option<String>,
    pub frozen: Option<String>,
    pub hold_side: Option<String>,
    pub hold_mode: Option<String>,
    pub average_open_price: Option<String>,
    pub leverage: Option<String>,
}

/// Parameters of the account information query: symbol and margin coin.
pub fn account_info_params(symbol: &str, margin_coin: &str) -> (r: ParamMap)
    ensures
        r.wf(),
        r.as_map() == map!["symbol"@ => symbol@, "marginCoin"@ => margin_coin@],
{
    let mut p = ParamMap::new();
    p.insert("symbol", symbol);
    p.insert("marginCoin", margin_coin);
    proof {
        assert(p.as_map() =~= map!["symbol"@ => symbol@, "marginCoin"@ => margin_coin@]);
    }
    p
}

/// Parameters of the position query: symbol and margin coin.
pub fn positions_params(symbol: &str, margin_coin: &str) -> (r: ParamMap)
    ensures
        r.wf(),
        r.as_map() == map!["symbol"@ => symbol@, "marginCoin"@ => margin_coin@],
{
    let mut p = ParamMap::new();
    p.insert("symbol", symbol);
    p.insert("marginCoin", margin_coin);
    proof {
        assert(p.as_map() =~= map!["symbol"@ => symbol@, "marginCoin"@ => margin_coin@]);
    }
    p
}

/// Parameters of the leverage change: symbol, margin coin, leverage and
/// hold side.
pub fn set_leverage_params(symbol: &str, margin_coin: &str, leverage: &str, hold_side: &str) -> (r:
    ParamMap)
    ensures
        r.wf(),
        r.as_map() == map![
            "symbol"@ => symbol@,
            "marginCoin"@ => margin_coin@,
            "leverage"@ => leverage@,
            "holdSide"@ => hold_side@,
        ],
{
    let mut p = ParamMap::new();
    p.insert("symbol", symbol);
    p.insert("marginCoin", margin_coin);
    p.insert("leverage", leverage);
    p.insert("holdSide", hold_side);
    proof {
        assert(p.as_map() =~= map![
            "symbol"@ => symbol@,
            "marginCoin"@ => margin_coin@,
            "leverage"@ => leverage@,
            "holdSide"@ => hold_side@,
        ]);
    }
    p
}

} // verus!
