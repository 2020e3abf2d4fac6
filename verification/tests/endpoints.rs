use bitget_client::asset_api::asset_v2_params;
use bitget_client::asset_api::assets_params;
use bitget_client::market_api::candles_params;
use bitget_client::market_api::depth_params;
use bitget_client::market_api::ticker_params;
use bitget_client::order_api::SpotOrderV2Req;
use bitget_client::order_api::batch_cancel_spot_order_params;
use bitget_client::order_api::build_order_list_json;
use bitget_client::order_api::cancel_futures_orders_params;
use bitget_client::order_api::spot_order_v2_params;
use bitget_client::order_query_api::spot_unfilled_orders_params;
use bitget_client::transfer_api::TransferReq;
use bitget_client::transfer_api::transfer_params;
use bitget_client::utils::build_query;
use bitget_client::ws_api::subscribe_message;

#[test]
fn assets_params_are_empty() {
    assert_eq!(build_query(&assets_params()), "");
    assert_eq!(build_query(&asset_v2_params("USDT")), "coin=USDT");
}

#[test]
fn ticker_and_depth_params() {
    assert_eq!(build_query(&ticker_params("BTCUSDT")), "symbol=BTCUSDT");
    assert_eq!(build_query(&depth_params("BTCUSDT", None)), "symbol=BTCUSDT");
    assert_eq!(build_query(&depth_params("BTCUSDT", Some(50))), "limit=50&symbol=BTCUSDT");
}

#[test]
fn candles_params_include_limit_only_when_given() {
    assert_eq!(build_query(&candles_params("BTCUSDT", "1m", None)), "period=1m&symbol=BTCUSDT");
    assert_eq!(
        build_query(&candles_params("BTCUSDT", "1m", Some(500))),
        "limit=500&period=1m&symbol=BTCUSDT"
    );
}

#[test]
fn spot_order_params_skip_absent_price() {
    let req = SpotOrderV2Req {
        symbol: "BTCUSDT".to_string(),
        side: "buy".to_string(),
        order_type: "limit".to_string(),
        force: "gtc".to_string(),
        price: Some("50000".to_string()),
        size: "0.01".to_string(),
        client_oid: None,
    };
    assert_eq!(
        build_query(&spot_order_v2_params(&req)),
        "force=gtc&orderType=limit&price=50000&side=buy&size=0.01&symbol=BTCUSDT"
    );
    let market = SpotOrderV2Req { price: None, ..req };
    assert_eq!(
        build_query(&spot_order_v2_params(&market)),
        "force=gtc&orderType=limit&side=buy&size=0.01&symbol=BTCUSDT"
    );
}

#[test]
fn futures_batch_ids_join_with_commas() {
    let ids = vec!["1".to_string(), "2".to_string(), "3".to_string()];
    assert_eq!(
        build_query(&cancel_futures_orders_params("BTCUSDT", &ids, "USDT")),
        "marginCoin=USDT&orderIds=1,2,3&symbol=BTCUSDT"
    );
}

#[test]
fn order_list_json_matches_independent_serializer() {
    let ids = vec!["11".to_string(), "22".to_string()];
    let built = build_order_list_json(&ids, "BTCUSDT");
    assert_eq!(
        built,
        "[{\"order_id\":\"11\",\"symbol\":\"BTCUSDT\"},{\"order_id\":\"22\",\"symbol\":\"BTCUSDT\"}]"
    );
    let parsed: serde_json::Value = serde_json::from_str(&built).unwrap();
    assert_eq!(parsed.as_array().unwrap().len(), 2);
    assert_eq!(parsed[0]["order_id"], serde_json::Value::String("11".to_string()));
    let p = batch_cancel_spot_order_params("BTCUSDT", &ids);
    let q = build_query(&p);
    assert!(q.starts_with("batchMode=multiple&orderList=["));
}

#[test]
fn unfilled_orders_params_take_optional_bounds() {
    assert_eq!(
        build_query(&spot_unfilled_orders_params("BTCUSDT", Some(1), Some(2), Some(3))),
        "endTime=2&limit=3&startTime=1&symbol=BTCUSDT"
    );
    assert_eq!(
        build_query(&spot_unfilled_orders_params("BTCUSDT", None, None, None)),
        "symbol=BTCUSDT"
    );
}

#[test]
fn transfer_params_cover_all_fields() {
    let req = TransferReq {
        from_type: "spot".to_string(),
        to_type: "mix_usdt".to_string(),
        coin: "USDT".to_string(),
        amount: "100".to_string(),
    };
    assert_eq!(
        build_query(&transfer_params(&req)),
        "amount=100&coin=USDT&fromType=spot&toType=mix_usdt"
    );
}

#[test]
fn subscribe_message_is_one_json_frame() {
    let m = subscribe_message("ticker.BTCUSDT");
    assert_eq!(m, "{\"args\":[\"ticker.BTCUSDT\"],\"op\":\"subscribe\"}");
    let v: serde_json::Value = serde_json::from_str(&m).unwrap();
    assert_eq!(v["op"], serde_json::Value::String("subscribe".to_string()));
    assert_eq!(v["args"][0], serde_json::Value::String("ticker.BTCUSDT".to_string()));
}
