use bitget_client::exceptions::BitgetError;
use bitget_client::utils::SignScheme;
use bitget_client::utils::pre_hash;
use bitget_client::utils::sign;
use bitget_client::utils::sign_with_scheme;

#[test]
fn pre_hash_concatenates_without_delimiters() {
    let r = pre_hash("1700000000000", "GET", "/api/mix/v1/account/account", "");
    assert_eq!(r, "1700000000000GET/api/mix/v1/account/account");
    let r = pre_hash("1", "POST", "/p", "{\"a\":\"b\"}");
    assert_eq!(r, "1POST/p{\"a\":\"b\"}");
}

#[test]
fn pre_hash_is_deterministic() {
    let a = pre_hash("123", "GET", "/x?y=z", "");
    let b = pre_hash("123", "GET", "/x?y=z", "");
    assert_eq!(a, b);
}

#[test]
fn sign_matches_known_vector() {
    let r = sign("hello", "secret").unwrap();
    assert_eq!(r, "iKqz7ejTrflNJquQ07r9SiCDBww7zOnAFO4EpEOEfAs=");
}

#[test]
fn sign_is_deterministic() {
    let a = sign("some prehash", "some secret").unwrap();
    let b = sign("some prehash", "some secret").unwrap();
    assert_eq!(a, b);
}

#[test]
fn sign_output_is_padded_base64_of_32_bytes() {
    let r = sign("x", "y").unwrap();
    assert_eq!(r.len(), 44);
    assert!(r.ends_with('='));
}

#[test]
fn rsa_scheme_fails_distinctly() {
    let r = sign_with_scheme(SignScheme::Rsa, "hello", "secret");
    assert!(matches!(r, Err(BitgetError::UnsupportedScheme)));
}

#[test]
fn hmac_scheme_agrees_with_sign() {
    let a = sign_with_scheme(SignScheme::HmacSha256, "hello", "secret").unwrap();
    let b = sign("hello", "secret").unwrap();
    assert_eq!(a, b);
}
