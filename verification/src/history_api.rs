//! Trade history endpoint: parameter builder and response shape.

use crate::params::ParamMap;
use vstd::prelude::*;

verus! {

/// One fill, as the exchange reports it.
#[derive(Clone, Debug)]
pub struct FillResp {
    pub trade_id: Option<String>,
    pub order_id: Option<String>,
    pub price: Option<String>,
    pub size: Option<String>,
}

/// Parameters of the fills query: symbol and order id.
pub fn fills_params(symbol: &str, order_id: &str) -> (r: ParamMap)
    ensures
        r.wf(),
        r.as_map() == map!["symbol"@ => symbol@, "orderId"@ => order_id@],
{
    let mut p = ParamMap::new();
    p.insert("symbol", symbol);
    p.insert("orderId", order_id);
    proof {
        assert(p.as_map() =~= map!["symbol"@ => symbol@, "orderId"@ => order_id@]);
    }
    p
}

} // verus!
