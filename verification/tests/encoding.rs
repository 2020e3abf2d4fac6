use bitget_client::ParamMap;
use bitget_client::account_api::account_info_params;
use bitget_client::query::parse_query;
use bitget_client::utils::build_query;
use bitget_client::utils::params_to_json;
use bitget_client::utils::parse_params_to_str;
use bitget_client::utils::u64_to_dec;
use bitget_client::utils::i64_to_dec;

#[test]
fn query_keys_are_sorted() {
    let p = account_info_params("BTCUSDT", "USDT");
    assert_eq!(build_query(&p), "marginCoin=USDT&symbol=BTCUSDT");
    assert_eq!(parse_params_to_str(&p), "?marginCoin=USDT&symbol=BTCUSDT");
}

#[test]
fn empty_map_encodes_empty() {
    let p = ParamMap::new();
    assert_eq!(parse_params_to_str(&p), "");
    assert_eq!(build_query(&p), "");
    assert_eq!(params_to_json(&p), "{}");
}

#[test]
fn insert_replaces_existing_key() {
    let mut p = ParamMap::new();
    p.insert("k", "old");
    p.insert("k", "new");
    assert_eq!(p.len(), 1);
    assert_eq!(build_query(&p), "k=new");
}

#[test]
fn encoding_is_insertion_order_independent() {
    let mut a = ParamMap::new();
    a.insert("zeta", "1");
    a.insert("alpha", "2");
    a.insert("mid", "3");
    let mut b = ParamMap::new();
    b.insert("mid", "3");
    b.insert("zeta", "1");
    b.insert("alpha", "2");
    assert_eq!(build_query(&a), build_query(&b));
    assert_eq!(params_to_json(&a), params_to_json(&b));
    assert_eq!(build_query(&a), "alpha=2&mid=3&zeta=1");
}

#[test]
fn json_body_matches_independent_serializer() {
    let p = account_info_params("BTCUSDT", "USDT");
    let mut reference = std::collections::BTreeMap::new();
    reference.insert("symbol".to_string(), "BTCUSDT".to_string());
    reference.insert("marginCoin".to_string(), "USDT".to_string());
    let expected = serde_json::to_string(&reference).unwrap();
    assert_eq!(params_to_json(&p), expected);
    assert_eq!(params_to_json(&p), "{\"marginCoin\":\"USDT\",\"symbol\":\"BTCUSDT\"}");
}

#[test]
fn json_body_escapes_values() {
    let mut p = ParamMap::new();
    p.insert("k", "a\"b\\c");
    assert_eq!(params_to_json(&p), "{\"k\":\"a\\\"b\\\\c\"}");
}

#[test]
fn reencoding_decoded_query_is_identity() {
    let mut p = ParamMap::new();
    p.insert("symbol", "BTCUSDT");
    p.insert("marginCoin", "USDT");
    p.insert("leverage", "20");
    let encoded = build_query(&p);
    let decoded = parse_query(&encoded);
    assert_eq!(build_query(&decoded), encoded);
    assert_eq!(parse_params_to_str(&decoded), parse_params_to_str(&p));
}

#[test]
fn decoding_splits_at_separators() {
    let p = parse_query("a=1&b=2&c");
    assert_eq!(build_query(&p), "a=1&b=2&c=");
    let later_wins = parse_query("k=1&k=2");
    assert_eq!(build_query(&later_wins), "k=2");
}

#[test]
fn decimal_printing_is_exact() {
    assert_eq!(u64_to_dec(0), "0");
    assert_eq!(u64_to_dec(7), "7");
    assert_eq!(u64_to_dec(1700000000000), "1700000000000");
    assert_eq!(u64_to_dec(u64::MAX), "18446744073709551615");
    assert_eq!(i64_to_dec(-42), "-42");
    assert_eq!(i64_to_dec(i64::MIN), "-9223372036854775808");
}
