//! Asset endpoints: parameter builders and response shapes.

use crate::params::ParamMap;
use vstd::prelude::*;

verus! {

/// One asset balance, as the exchange reports it.
#[derive(Clone, Debug)]
pub struct AssetInfoResp {
    pub coin: Option<String>,
    pub available: Option<String>,
}

/// Parameters of the full asset listing: none.
pub fn assets_params() -> (r: ParamMap)
    ensures
        r.wf(),
        r.as_map() == Map::<Seq<char>, Seq<char>>::empty(),
        r.spec_len() == 0,
{
    ParamMap::new()
}

/// Parameters of the single-coin asset query.
pub fn asset_v2_params(coin: &str) -> (r: ParamMap)
    ensures
        r.wf(),
        r.as_map() == map!["coin"@ => coin@],
{
    let mut p = ParamMap::new();
    p.insert("coin", coin);
    proof {
        assert(p.as_map() =~= map!["coin"@ => coin@]);
    }
    p
}

} // verus!
