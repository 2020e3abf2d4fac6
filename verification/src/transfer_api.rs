//! Wallet transfer endpoint: parameter builder, request and response
//! shapes.

use crate::params::ParamMap;
use vstd::prelude::*;

verus! {

/// A transfer to perform between account types.
#[derive(Clone, Debug)]
pub struct TransferReq {
    pub from_type: String,
    pub to_type: String,
    pub coin: String,
    pub amount: String,
}

/// The acknowledgement of a transfer.
#[derive(Clone, Debug)]
pub struct TransferResp {
    pub transfer_id: Option<String>,
}

/// Parameters of a wallet transfer: source and target account types,
/// coin and amount.
pub fn transfer_params(req: &TransferReq) -> (r: ParamMap)
    ensures
        r.wf(),
        r.as_map() == map![
            "fromType"@ => req.from_type@,
            "toType"@ => req.to_type@,
            "coin"@ => req.coin@,
            "amount"@ => req.amount@,
        ],
{
    let mut p = ParamMap::new();
    p.insert("fromType", req.from_type.as_str());
    p.insert("toType", req.to_type.as_str());
    p.insert("coin", req.coin.as_str());
    p.insert("amount", req.amount.as_str());
    proof {
        assert(p.as_map() =~= map![
            "fromType"@ => req.from_type@,
            "toType"@ => req.to_type@,
            "coin"@ => req.coin@,
            "amount"@ => req.amount@,
        ]);
    }
    p
}

} // verus!
