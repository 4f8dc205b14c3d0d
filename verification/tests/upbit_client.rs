use jsonwebtoken::{decode, Algorithm, DecodingKey, Validation};
use cex_board::client::{
    is_success_status, minute_candle_url, my_balance_url, order_book_url, order_url, ticker_url, UpbitError,
    UpbitPublicClient, BASE_URL,
};

#[test]
fn normalize_strips_wrapping_quotes_via_new() {
    let c = UpbitPublicClient::new(
        Some("  'my_access'  ".to_string()),
        Some("\"sec_x\"".to_string()),
    )
    .unwrap();
    assert_eq!(c.access_key.as_deref(), Some("my_access"));
    assert_eq!(c.secret_key.as_deref(), Some("sec_x"));
}

#[test]
fn ticker_url_joins_base_and_markets() {
    assert_eq!(
        ticker_url("https://api.upbit.com", &["KRW-BTC", "KRW-ETH"]),
        "https://api.upbit.com/v1/ticker?markets=KRW-BTC,KRW-ETH"
    );
}

#[test]
fn ticker_url_strips_trailing_slash_on_base() {
    assert_eq!(
        ticker_url("https://example.com/", &["KRW-XRP"]),
        "https://example.com/v1/ticker?markets=KRW-XRP"
    );
}

#[test]
fn ticker_url_strips_every_trailing_slash() {
    assert_eq!(
        ticker_url("https://example.com///", &["KRW-XRP"]),
        ticker_url("https://example.com", &["KRW-XRP"])
    );
}

#[test]
fn ticker_url_with_no_market() {
    assert_eq!(ticker_url("https://x", &[]), "https://x/v1/ticker?markets=");
}

#[test]
fn order_book_url_asks_for_ten_levels() {
    assert_eq!(
        order_book_url("https://api.upbit.com/", &["KRW-BTC", "KRW-ETH"]),
        "https://api.upbit.com/v1/orderbook?markets=KRW-BTC,KRW-ETH&count=10"
    );
}

#[test]
fn minute_candle_url_writes_numbers_in_decimal() {
    assert_eq!(
        minute_candle_url("https://api.upbit.com", 240, "KRW-BTC".to_string(), 200),
        "https://api.upbit.com/v1/candles/minutes/240?market=KRW-BTC&count=200"
    );
    assert_eq!(
        minute_candle_url("b/", -7, "M".to_string(), 0),
        "b/v1/candles/minutes/-7?market=M&count=0"
    );
    assert_eq!(
        minute_candle_url("b", i32::MIN, "M".to_string(), i32::MAX),
        "b/v1/candles/minutes/-2147483648?market=M&count=2147483647"
    );
}

#[test]
fn balance_and_order_urls() {
    assert_eq!(my_balance_url("https://api.upbit.com/"), "https://api.upbit.com/v1/accounts");
    assert_eq!(order_url("https://api.upbit.com"), "https://api.upbit.com/v1/orders");
}

#[test]
fn new_uses_the_upbit_base_url() {
    let c = UpbitPublicClient::new(None, None).unwrap();
    assert_eq!(c.url, BASE_URL);
    assert_eq!(c.url, "https://api.upbit.com");
    assert!(c.access_key.is_none());
    assert!(c.secret_key.is_none());
}

#[test]
fn normalize_removes_bom_whitespace_and_nested_quotes() {
    let c = UpbitPublicClient::new(
        Some("\u{feff}\u{feff} \" ' inner key ' \" \n".to_string()),
        Some("\t\u{3000}plain\u{a0}".to_string()),
    )
    .unwrap();
    assert_eq!(c.access_key.as_deref(), Some("inner key"));
    assert_eq!(c.secret_key.as_deref(), Some("plain"));
}

#[test]
fn normalize_keeps_unmatched_quotes() {
    let c = UpbitPublicClient::new(Some("'abc\"".to_string()), Some("'".to_string())).unwrap();
    assert_eq!(c.access_key.as_deref(), Some("'abc\""));
    assert_eq!(c.secret_key.as_deref(), Some("'"));
}

#[test]
fn normalize_turns_empty_keys_into_none() {
    let c = UpbitPublicClient::new(Some("   ".to_string()), Some("' '".to_string())).unwrap();
    assert!(c.access_key.is_none());
    assert!(c.secret_key.is_none());
}

#[test]
fn normalize_removes_every_leading_byte_order_mark() {
    let once = UpbitPublicClient::new(Some("\u{feff} \u{feff}x".to_string()), None).unwrap();
    assert_eq!(once.access_key.as_deref(), Some("x"));
    let inside = UpbitPublicClient::new(
        Some("'\u{feff}k'".to_string()),
        Some("\" \u{feff} 's\u{feff}' \"".to_string()),
    )
    .unwrap();
    assert_eq!(inside.access_key.as_deref(), Some("k"));
    assert_eq!(inside.secret_key.as_deref(), Some("s\u{feff}"));
}

#[test]
fn normalize_is_stable_otherwise() {
    let once = UpbitPublicClient::new(Some(" \"'k e y'\" ".to_string()), None).unwrap();
    let bom = UpbitPublicClient::new(Some("\u{feff}'\u{feff}x' ".to_string()), None).unwrap();
    let bom_again = UpbitPublicClient::new(bom.access_key.clone(), None).unwrap();
    assert_eq!(bom.access_key.as_deref(), Some("x"));
    assert_eq!(bom_again.access_key, bom.access_key);
    let twice = UpbitPublicClient::new(once.access_key.clone(), None).unwrap();
    assert_eq!(once.access_key.as_deref(), Some("k e y"));
    assert_eq!(twice.access_key, once.access_key);
}

#[test]
fn with_base_url_keeps_keys_as_given() {
    let c = UpbitPublicClient::with_base_url(
        "http://127.0.0.1:1/".to_string(),
        Some(" 'a' ".to_string()),
        None,
    )
    .unwrap();
    assert_eq!(c.url, "http://127.0.0.1:1/");
    assert_eq!(c.access_key.as_deref(), Some(" 'a' "));
}

#[test]
fn authorization_header_without_keys_is_an_authorization_error() {
    let c = UpbitPublicClient::new(Some("ak".to_string()), None).unwrap();
    assert!(matches!(c.authorization_header(""), Err(UpbitError::AuthorizationError)));
    let c = UpbitPublicClient::with_base_url("x".to_string(), Some("ak".to_string()), Some("  ".to_string()))
        .unwrap();
    assert!(matches!(c.authorization_header("a=b"), Err(UpbitError::AuthorizationError)));
}

#[test]
fn authorization_header_is_a_bearer_token_signed_with_the_trimmed_secret() {
    let c = UpbitPublicClient::with_base_url(
        "x".to_string(),
        Some("  ak ".to_string()),
        Some(" sk_sk ".to_string()),
    )
    .unwrap();
    let h = c.authorization_header("").unwrap();
    assert!(h.starts_with("Bearer "));
    let mut validation = Validation::new(Algorithm::HS512);
    validation.validate_exp = false;
    validation.required_spec_claims.clear();
    let data = decode::<serde_json::Value>(
        &h["Bearer ".len()..],
        &DecodingKey::from_secret(b"sk_sk"),
        &validation,
    )
    .unwrap();
    assert_eq!(data.claims["access_key"], "ak");
    assert!(c.authorization_header("market=KRW-BTC").is_ok());
}

#[test]
fn only_two_hundreds_are_success() {
    assert!(is_success_status(200));
    assert!(is_success_status(204));
    assert!(is_success_status(299));
    assert!(!is_success_status(199));
    assert!(!is_success_status(300));
    assert!(!is_success_status(400));
}

#[test]
fn order_book_request_needs_a_market() {
    let c = UpbitPublicClient::with_base_url("https://h/".to_string(), None, None).unwrap();
    assert!(matches!(c.order_book_request_url(&[]), Err(UpbitError::EmptyMarkets)));
    assert_eq!(
        c.order_book_request_url(&["KRW-BTC"]).unwrap(),
        "https://h/v1/orderbook?markets=KRW-BTC&count=10"
    );
}
