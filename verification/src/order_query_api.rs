//! Order query endpoints: parameter builders and response shapes.

use crate::params::ParamMap;
use crate::utils::dec_str;
use crate::utils::u64_to_dec;
use crate::utils::with_opt;
use vstd::prelude::*;

verus! {

/// An order's detail, as the exchange reports it.
#[derive(Clone, Debug)]
pub struct OrderDetailResp {
    pub order_id: Option<String>,
    pub status: Option<String>,
}

/// Parameters of the order detail query: symbol and order id.
pub fn order_detail_params(symbol: &str, order_id: &str) -> (r: ParamMap)
    ensures
        r.wf(),
        r.as_map() == map!["symbol"@ => symbol@, "orderId"@ => order_id@],
{
    let mut p = ParamMap::new();
    p.insert("symbol", symbol);
    p.insert("orderId", order_id);
    proof {
        assert(p.as_map() =~= map!["symbol"@ => symbol@, "orderId"@ => order_id@]);
    }
    p
}

/// Parameters of the unfilled-orders query: the symbol, and the time
/// window bounds and result cap when given, printed in decimal.
pub fn spot_unfilled_orders_params(
    symbol: &str,
    start_time: Option<u64>,
    end_time: Option<u64>,
    limit: Option<u32>,
) -> (r: ParamMap)
    ensures
        r.wf(),
        r.as_map() == with_opt(
            with_opt(
                with_opt(
                    map!["symbol"@ => symbol@],
                    "startTime"@,
                    match start_time {
                        Some(n) => Some(dec_str(n as nat)),
                        None => None,
                    },
                ),
                "endTime"@,
                match end_time {
                    Some(n) => Some(dec_str(n as nat)),
                    None => None,
                },
            ),
            "limit"@,
            match limit {
                Some(n) => Some(dec_str(n as nat)),
                None => None,
            },
        ),
{
    let mut p = ParamMap::new();
    p.insert("symbol", symbol);
    proof {
        assert(p.as_map() =~= map!["symbol"@ => symbol@]);
    }
    if let Some(start) = start_time {
        p.insert("startTime", u64_to_dec(start).as_str());
    }
    if let Some(end) = end_time {
        p.insert("endTime", u64_to_dec(end).as_str());
    }
    if let Some(lim) = limit {
        p.insert("limit", u64_to_dec(lim as u64).as_str());
    }
    p
}

} // verus!
