//! Order placement and cancellation endpoints: parameter builders,
//! request and response shapes.

use crate::params::ParamMap;
use crate::utils::json_string_of;
use crate::utils::json_quote;
use crate::utils::with_opt;
use vstd::prelude::*;

verus! {

/// A cancellation acknowledgement envelope; the payload is kept as raw
/// JSON text for the caller.
#[derive(Clone, Debug)]
pub struct CancelOrderResp {
    pub code: String,
    pub msg: Option<String>,
    pub request_time: Option<u64>,
    pub data: Option<String>,
}

/// A batch cancellation acknowledgement envelope; the payload is kept as
/// raw JSON text for the caller.
#[derive(Clone, Debug)]
pub struct BatchCancelOrderResp {
    pub code: String,
    pub msg: Option<String>,
    pub request_time: Option<u64>,
    pub data: Option<String>,
}

/// A spot order to place.
#[derive(Clone, Debug)]
pub struct SpotOrderV2Req {
    pub symbol: String,
    pub side: String,
    pub order_type: String,
    pub force: String,
    pub price: Option<String>,
    pub size: String,
    pub client_oid: Option<String>,
}

/// The acknowledgement of a placed spot order.
#[derive(Clone, Debug)]
pub struct SpotOrderV2Resp {
    pub order_id: Option<String>,
    pub client_oid: Option<String>,
    pub msg: Option<String>,
}

/// Parameters of the spot order placement: the order's fields, with the
/// price only when one is given. The client order id is not sent.
pub fn spot_order_v2_params(req: &SpotOrderV2Req) -> (r: ParamMap)
    ensures
        r.wf(),
        r.as_map() == with_opt(
            map![
                "symbol"@ => req.symbol@,
                "side"@ => req.side@,
                "orderType"@ => req.order_type@,
                "force"@ => req.force@,
                "size"@ => req.size@,
            ],
            "price"@,
            match req.price {
                Some(ref pr) => Some(pr@),
                None => None,
            },
        ),
{
    let mut p = ParamMap::new();
    p.insert("symbol", req.symbol.as_str());
    p.insert("side", req.side.as_str());
    p.insert("orderType", req.order_type.as_str());
    p.insert("force", req.force.as_str());
    p.insert("size", req.size.as_str());
    proof {
        assert(p.as_map() =~= map![
            "symbol"@ => req.symbol@,
            "side"@ => req.side@,
            "orderType"@ => req.order_type@,
            "force"@ => req.force@,
            "size"@ => req.size@,
        ]);
    }
    if let Some(price) = &req.price {
        p.insert("price", price.as_str());
    }
    p
}

/// Parameters of a futures cancellation: symbol, order id, margin coin.
pub fn cancel_futures_order_params(symbol: &str, order_id: &str, margin_coin: &str) -> (r: ParamMap)
    ensures
        r.wf(),
        r.as_map() == map![
            "symbol"@ => symbol@,
            "orderId"@ => order_id@,
            "marginCoin"@ => margin_coin@,
        ],
{
    let mut p = ParamMap::new();
    p.insert("symbol", symbol);
    p.insert("orderId", order_id);
    p.insert("marginCoin", margin_coin);
    proof {
        assert(p.as_map() =~= map![
            "symbol"@ => symbol@,
            "orderId"@ => order_id@,
            "marginCoin"@ => margin_coin@,
        ]);
    }
    p
}

/// Parameters of a spot cancellation: symbol and order id.
pub fn cancel_spot_order_params(symbol: &str, order_id: &str) -> (r: ParamMap)
    ensures
        r.wf(),
        r.as_map() == map!["symbol"@ => symbol@, "orderId"@ => order_id@],
{
    let mut p = ParamMap::new();
    p.insert("symbol", symbol);
    p.insert("orderId", order_id);
    proof {
        assert(p.as_map() =~= map!["symbol"@ => symbol@, "orderId"@ => order_id@]);
    }
    p
}

/// Parameters of the cancel-all-for-symbol request: the symbol alone.
pub fn cancel_spot_symbol_orders_params(symbol: &str) -> (r: ParamMap)
    ensures
        r.wf(),
        r.as_map() == map!["symbol"@ => symbol@],
{
    let mut p = ParamMap::new();
    p.insert("symbol", symbol);
    proof {
        assert(p.as_map() =~= map!["symbol"@ => symbol@]);
    }
    p
}

/// A list of character sequences joined with commas, in order.
pub open spec fn comma_join(items: Seq<Seq<char>>) -> Seq<char>
    decreases items.len(),
{
    if items.len() == 0 {
        Seq::empty()
    } else if items.len() == 1 {
        items[0]
    } else {
        items[0] + seq![','] + comma_join(items.drop_first())
    }
}

/// Appending one item extends the joined list at the end.
pub proof fn lemma_comma_join_push(items: Seq<Seq<char>>, e: Seq<char>)
    ensures
        comma_join(items.push(e)) == if items.len() == 0 {
            e
        } else {
            comma_join(items) + seq![','] + e
        },
    decreases items.len(),
{
    let t = items.push(e);
    if items.len() == 0 {
        assert(t[0] == e);
        assert(comma_join(t) =~= e);
    } else {
        lemma_comma_join_push(items.drop_first(), e);
        assert(t.drop_first() =~= items.drop_first().push(e));
        assert(t[0] == items[0]);
        assert(comma_join(t) =~= comma_join(items) + seq![','] + e);
    }
}

/// Join order ids with commas, as the batch futures cancellation wants
/// them.
pub fn join_order_ids(ids: &Vec<String>) -> (r: String)
    ensures
        r@ == comma_join(ids@.map_values(|s: String| s@)),
{
    let ghost views = ids@.map_values(|s: String| s@);
    let n = ids.len();
    let mut s = String::new();
    let mut i: usize = 0;
    while i < n
        invariant
            n == views.len(),
            n == ids@.len(),
            0 <= i <= n,
            views == ids@.map_values(|s: String| s@),
            s@ == comma_join(views.take(i as int)),
        decreases n - i,
    {
        if i > 0 {
            s.append(",");
        }
        s.append(ids[i].as_str());
        proof {
            reveal_strlit(",");
            lemma_comma_join_push(views.take(i as int), views[i as int]);
            assert(views.take(i as int).push(views[i as int]) =~= views.take(i + 1));
            assert(s@ =~= comma_join(views.take(i + 1)));
        }
        i = i + 1;
    }
    proof {
        assert(views.take(n as int) =~= views);
    }
    s
}

/// Parameters of the batch futures cancellation: symbol, the order ids
/// joined with commas, and the margin coin.
pub fn cancel_futures_orders_params(symbol: &str, order_ids: &Vec<String>, margin_coin: &str) -> (r:
    ParamMap)
    ensures
        r.wf(),
        r.as_map() == map![
            "symbol"@ => symbol@,
            "orderIds"@ => comma_join(order_ids@.map_values(|s: String| s@)),
            "marginCoin"@ => margin_coin@,
        ],
{
    let mut p = ParamMap::new();
    p.insert("symbol", symbol);
    p.insert("orderIds", join_order_ids(order_ids).as_str());
    p.insert("marginCoin", margin_coin);
    proof {
        assert(p.as_map() =~= map![
            "symbol"@ => symbol@,
            "orderIds"@ => comma_join(order_ids@.map_values(|s: String| s@)),
            "marginCoin"@ => margin_coin@,
        ]);
    }
    p
}

/// The JSON object of one entry of the batch cancellation's order list:
/// the order id and the symbol, serialized as JSON strings.
pub open spec fn order_item_json(order_id: Seq<char>, symbol: Seq<char>) -> Seq<char> {
    seq!['{'] + json_string_of("order_id"@) + seq![':'] + json_string_of(order_id) + seq![',']
        + json_string_of("symbol"@) + seq![':'] + json_string_of(symbol) + seq!['}']
}

/// The JSON array of the batch cancellation's order list: one object per
/// order id, all with the same symbol, in the ids' order.
pub open spec fn order_list_json(ids: Seq<Seq<char>>, symbol: Seq<char>) -> Seq<char>
    decreases ids.len(),
{
    if ids.len() == 0 {
        seq!['['] + seq![']']
    } else {
        seq!['['] + order_items_json(ids, symbol) + seq![']']
    }
}

/// The comma-separated members of the order list array.
pub open spec fn order_items_json(ids: Seq<Seq<char>>, symbol: Seq<char>) -> Seq<char>
    decreases ids.len(),
{
    if ids.len() == 0 {
        Seq::empty()
    } else if ids.len() == 1 {
        order_item_json(ids[0], symbol)
    } else {
        order_item_json(ids[0], symbol) + seq![','] + order_items_json(ids.drop_first(), symbol)
    }
}

/// Appending one id extends the members at the end.
pub proof fn lemma_order_items_push(ids: Seq<Seq<char>>, e: Seq<char>, symbol: Seq<char>)
    ensures
        order_items_json(ids.push(e), symbol) == if ids.len() == 0 {
            order_item_json(e, symbol)
        } else {
            order_items_json(ids, symbol) + seq![','] + order_item_json(e, symbol)
        },
    decreases ids.len(),
{
    let t = ids.push(e);
    if ids.len() == 0 {
        assert(t[0] == e);
        assert(order_items_json(t, symbol) =~= order_item_json(e, symbol));
    } else {
        lemma_order_items_push(ids.drop_first(), e, symbol);
        assert(t.drop_first() =~= ids.drop_first().push(e));
        assert(t[0] == ids[0]);
        assert(order_items_json(t, symbol) =~= order_items_json(ids, symbol) + seq![',']
            + order_item_json(e, symbol));
    }
}

/// Serialize the batch cancellation's order list as a JSON array of
/// `{order id, symbol}` objects, in the ids' order.
pub fn build_order_list_json(order_ids: &Vec<String>, symbol: &str) -> (r: String)
    ensures
        r@ == order_list_json(order_ids@.map_values(|s: String| s@), symbol@),
{
    let ghost views = order_ids@.map_values(|s: String| s@);
    let n = order_ids.len();
    let mut s = String::from_str("[");
    proof {
        reveal_strlit("[");
        assert(s@ =~= seq!['['] + order_items_json(views.take(0), symbol@));
    }
    let mut i: usize = 0;
    while i < n
        invariant
            n == views.len(),
            n == order_ids@.len(),
            0 <= i <= n,
            views == order_ids@.map_values(|s: String| s@),
            s@ == seq!['['] + order_items_json(views.take(i as int), symbol@),
        decreases n - i,
    {
        if i > 0 {
            s.append(",");
        }
        s.append("{");
        s.append(json_quote("order_id").as_str());
        s.append(":");
        s.append(json_quote(order_ids[i].as_str()).as_str());
        s.append(",");
        s.append(json_quote("symbol").as_str());
        s.append(":");
        s.append(json_quote(symbol).as_str());
        s.append("}");
        proof {
            reveal_strlit(",");
            reveal_strlit(":");
            reveal_strlit("{");
            reveal_strlit("}");
            lemma_order_items_push(views.take(i as int), views[i as int], symbol@);
            assert(views.take(i as int).push(views[i as int]) =~= views.take(i + 1));
            assert(s@ =~= seq!['['] + order_items_json(views.take(i + 1), symbol@));
        }
        i = i + 1;
    }
    s.append("]");
    proof {
        reveal_strlit("]");
        assert(views.take(n as int) =~= views);
        assert(s@ =~= order_list_json(views, symbol@));
    }
    s
}

/// Parameters of the batch spot cancellation: the symbol, the batch
/// mode marker, and the order list serialized as a JSON array.
pub fn batch_cancel_spot_order_params(symbol: &str, order_ids: &Vec<String>) -> (r: ParamMap)
    ensures
        r.wf(),
        r.as_map() == map![
            "symbol"@ => symbol@,
            "batchMode"@ => "multiple"@,
            "orderList"@ => order_list_json(order_ids@.map_values(|s: String| s@), symbol@),
        ],
{
    let mut p = ParamMap::new();
    p.insert("symbol", symbol);
    p.insert("batchMode", "multiple");
    p.insert("orderList", build_order_list_json(order_ids, symbol).as_str());
    proof {
        assert(p.as_map() =~= map![
            "symbol"@ => symbol@,
            "batchMode"@ => "multiple"@,
            "orderList"@ => order_list_json(order_ids@.map_values(|s: String| s@), symbol@),
        ]);
    }
    p
}

} // verus!
