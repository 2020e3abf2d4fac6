//! Market data endpoints: parameter builders and response shapes.

use crate::params::ParamMap;
use crate::utils::dec_str;
use crate::utils::u64_to_dec;
use crate::utils::with_opt;
use vstd::prelude::*;

verus! {

/// A ticker snapshot, as the exchange reports it.
#[derive(Clone, Debug)]
pub struct TickerResp {
    pub symbol: Option<String>,
    pub last: Option<String>,
    pub buy: Option<String>,
    pub sell: Option<String>,
    pub high: Option<String>,
    pub low: Option<String>,
    pub volume: Option<String>,
    pub quote_volume: Option<String>,
    pub timestamp: Option<String>,
}

/// One candle, as the exchange reports it.
#[derive(Clone, Debug)]
pub struct CandleResp {
    pub timestamp: Option<String>,
    pub open: Option<String>,
    pub high: Option<String>,
    pub low: Option<String>,
    pub close: Option<String>,
    pub volume: Option<String>,
}

/// Parameters of the ticker queries: the symbol alone.
pub fn ticker_params(symbol: &str) -> (r: ParamMap)
    ensures
        r.wf(),
        r.as_map() == map!["symbol"@ => symbol@],
{
    let mut p = ParamMap::new();
    p.insert("symbol", symbol);
    proof {
        assert(p.as_map() =~= map!["symbol"@ => symbol@]);
    }
    p
}

/// Parameters of the candle query: symbol, period, and the result cap
/// when one is given, printed in decimal.
pub fn candles_params(symbol: &str, period: &str, limit: Option<u32>) -> (r: ParamMap)
    ensures
        r.wf(),
        r.as_map() == with_opt(
            map!["symbol"@ => symbol@, "period"@ => period@],
            "limit"@,
            match limit {
                Some(n) => Some(dec_str(n as nat)),
                None => None,
            },
        ),
{
    let mut p = ParamMap::new();
    p.insert("symbol", symbol);
    p.insert("period", period);
    proof {
        assert(p.as_map() =~= map!["symbol"@ => symbol@, "period"@ => period@]);
    }
    if let Some(n) = limit {
        p.insert("limit", u64_to_dec(n as u64).as_str());
    }
    p
}

/// Parameters of the order book query: symbol, and the depth cap when
/// one is given, printed in decimal.
pub fn depth_params(symbol: &str, limit: Option<u32>) -> (r: ParamMap)
    ensures
        r.wf(),
        r.as_map() == with_opt(
            map!["symbol"@ => symbol@],
            "limit"@,
            match limit {
                Some(n) => Some(dec_str(n as nat)),
                None => None,
            },
        ),
{
    let mut p = ParamMap::new();
    p.insert("symbol", symbol);
    proof {
        assert(p.as_map() =~= map!["symbol"@ => symbol@]);
    }
    if let Some(n) = limit {
        p.insert("limit", u64_to_dec(n as u64).as_str());
    }
    p
}

} // verus!
