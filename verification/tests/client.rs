use bitget_client::BitgetClient;
use bitget_client::account_api::account_info_params;
use bitget_client::account_api::set_leverage_params;
use bitget_client::exceptions::BitgetError;

fn test_client() -> BitgetClient {
    BitgetClient::new(
        "K".to_string(),
        "S".to_string(),
        "P".to_string(),
        false,
        false,
    )
}

#[test]
fn unsupported_method_fails_before_any_network() {
    let client = test_client();
    let params = account_info_params("BTCUSDT", "USDT");
    let r = client.build_signed_request("DELETE", "/api/x", &params, "1700000000000");
    match r {
        Err(BitgetError::UnsupportedMethod(m)) => assert_eq!(m, "DELETE"),
        _ => panic!("expected an unsupported-method error"),
    }
    let r = client.build_signed_request("get", "/api/x", &params, "1700000000000");
    assert!(matches!(r, Err(BitgetError::UnsupportedMethod(_))));
}

#[test]
fn get_request_end_to_end() {
    let client = test_client();
    let params = account_info_params("BTCUSDT", "USDT");
    let r = client
        .build_signed_request("GET", "/api/mix/v1/account/account", &params, "1700000000000")
        .unwrap();
    assert_eq!(r.method, "GET");
    assert_eq!(
        r.url,
        "https://api.bitget.com/api/mix/v1/account/account?marginCoin=USDT&symbol=BTCUSDT"
    );
    assert!(r.body.is_none());
    let headers: Vec<(String, String)> = r.headers;
    assert_eq!(headers.len(), 5);
    assert_eq!(headers[0].0, "Content-Type");
    assert_eq!(headers[0].1, "application/json");
    assert_eq!(headers[1].0, "ACCESS-KEY");
    assert_eq!(headers[1].1, "K");
    assert_eq!(headers[2].0, "ACCESS-SIGN");
    assert_eq!(headers[2].1, "r94Bb/bngrbmMmFAd+UQdYNr2IDX+EuXvXv16CGqY/c=");
    assert_eq!(headers[3].0, "ACCESS-TIMESTAMP");
    assert_eq!(headers[3].1, "1700000000000");
    assert_eq!(headers[4].0, "ACCESS-PASSPHRASE");
    assert_eq!(headers[4].1, "P");
}

#[test]
fn post_request_signs_the_exact_body_sent() {
    let client = test_client();
    let params = set_leverage_params("BTCUSDT", "USDT", "20", "long");
    let r = client
        .build_signed_request("POST", "/api/mix/v1/account/setLeverage", &params, "1700000000000")
        .unwrap();
    assert_eq!(r.url, "https://api.bitget.com/api/mix/v1/account/setLeverage");
    let body = r.body.clone().unwrap();
    assert_eq!(
        body,
        "{\"holdSide\":\"long\",\"leverage\":\"20\",\"marginCoin\":\"USDT\",\"symbol\":\"BTCUSDT\"}"
    );
    let prehash = format!("1700000000000POST/api/mix/v1/account/setLeverage{}", body);
    let expected_sign = bitget_client::utils::sign(&prehash, "S").unwrap();
    assert_eq!(r.headers[2].1, expected_sign);
}

#[test]
fn prepare_request_stamps_current_time() {
    let client = test_client();
    let params = account_info_params("BTCUSDT", "USDT");
    let r = client
        .prepare_request("GET", "/api/mix/v1/account/account", &params)
        .unwrap();
    let ts = &r.headers[3].1;
    assert!(!ts.is_empty());
    assert!(ts.chars().all(|c| c.is_ascii_digit()));
    assert!(ts.len() >= 13);
}
