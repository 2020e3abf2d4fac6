//! Fund flow endpoint: request and response shapes. The exchange side of
//! this query is not wired up yet; the shapes stand ready for it.

use vstd::prelude::*;

verus! {

/// A fund flow query.
#[derive(Clone, Debug)]
pub struct FundFlowReq {
}

/// The fund flow listing.
#[derive(Clone, Debug)]
pub struct FundFlowResp {
}

/// Answer a fund flow query. The underlying endpoint is not wired up
/// yet; every query gets the empty listing.
pub fn get_fund_flow(req: &FundFlowReq) -> (r: FundFlowResp)
    ensures
        r == (FundFlowResp {  }),
{
    let _ = req;
    FundFlowResp {  }
}

} // verus!
