use cex_board::client::{UpbitError, UpbitPublicClient};
use cex_board::constants::{BuySellType, ContStrategy, OrderType, SmpType};
use cex_board::model::{Decimal, UpbitOrderRequest};
use cex_board::web::{
    browser_action, error_status, is_minute_candle_unit, market_is_listed, requested_markets,
    validate_minute_candle_query, validate_new_order_request, BrowserAction, BrowserEvent,
    OrderRule, UpbitMinuteCandleQuery, UpbitOrderbookQuery, MINUTE_CANDLE_UNITS,
};

fn dec(m: i128, scale: u32) -> Option<Decimal> {
    Some(Decimal { mantissa: m, scale })
}

fn order(side: BuySellType, ord_type: OrderType) -> UpbitOrderRequest {
    UpbitOrderRequest {
        market: "KRW-BTC".to_string(),
        side,
        ord_type,
        volume: None,
        price: None,
        time_in_force: None,
        smp_type: None,
        identifier: None,
    }
}

fn limit() -> UpbitOrderRequest {
    let mut o = order(BuySellType::Buy, OrderType::LIMIT);
    o.volume = dec(1, 2);
    o.price = dec(50_000_000, 0);
    o
}

#[test]
fn limit_order_with_volume_and_price_is_accepted() {
    assert_eq!(validate_new_order_request(&limit()), Ok(()));
    let mut o = limit();
    o.time_in_force = Some(ContStrategy::PostOnly);
    assert_eq!(validate_new_order_request(&o), Ok(()));
}

#[test]
fn blank_market_is_refused_first() {
    let mut o = order(BuySellType::Buy, OrderType::PRICE);
    o.market = " \t ".to_string();
    assert_eq!(validate_new_order_request(&o), Err(OrderRule::MarketRequired.message()));
    assert_eq!(validate_new_order_request(&o), Err("market은 비어 있을 수 없습니다."));
}

#[test]
fn blank_identifier_is_refused() {
    let mut o = limit();
    o.identifier = Some("  ".to_string());
    assert_eq!(
        validate_new_order_request(&o),
        Err("identifier를 보낼 때는 비어 있지 않은 문자열이어야 합니다.")
    );
    o.identifier = Some("id-1".to_string());
    assert_eq!(validate_new_order_request(&o), Ok(()));
}

#[test]
fn post_only_rules() {
    let mut o = limit();
    o.time_in_force = Some(ContStrategy::PostOnly);
    o.smp_type = Some(SmpType::Reduce);
    assert_eq!(validate_new_order_request(&o), Err("post_only는 smp_type과 함께 사용할 수 없습니다."));
    let mut o = order(BuySellType::Buy, OrderType::BEST);
    o.price = dec(1, 0);
    o.time_in_force = Some(ContStrategy::PostOnly);
    assert_eq!(validate_new_order_request(&o), Err("post_only는 지정가(limit)에서만 사용할 수 있습니다."));
}

#[test]
fn limit_needs_positive_volume_and_price() {
    let mut o = limit();
    o.volume = dec(0, 3);
    assert_eq!(validate_new_order_request(&o), Err("지정가(limit)는 volume이 필요합니다."));
    let mut o = limit();
    o.price = dec(-5, 0);
    assert_eq!(validate_new_order_request(&o), Err("지정가(limit)는 price가 필요합니다."));
    let mut o = limit();
    o.price = None;
    assert_eq!(validate_new_order_request(&o), Err(OrderRule::LimitNeedsPrice.message()));
}

#[test]
fn market_buy_rules() {
    let mut o = order(BuySellType::Buy, OrderType::PRICE);
    o.price = dec(10_000, 0);
    assert_eq!(validate_new_order_request(&o), Ok(()));
    let mut bad = o.clone();
    bad.time_in_force = Some(ContStrategy::IOC);
    assert_eq!(validate_new_order_request(&bad), Err(OrderRule::MarketBuyNoTimeInForce.message()));
    let mut bad = o.clone();
    bad.side = BuySellType::Sell;
    assert_eq!(validate_new_order_request(&bad), Err(OrderRule::MarketBuyIsBid.message()));
    let mut bad = o.clone();
    bad.price = None;
    assert_eq!(validate_new_order_request(&bad), Err(OrderRule::MarketBuyNeedsPrice.message()));
    let mut bad = o.clone();
    bad.volume = dec(1, 0);
    assert_eq!(validate_new_order_request(&bad), Err(OrderRule::MarketBuyNoVolume.message()));
}

#[test]
fn market_sell_rules() {
    let mut o = order(BuySellType::Sell, OrderType::MARKET);
    o.volume = dec(3, 1);
    assert_eq!(validate_new_order_request(&o), Ok(()));
    let mut bad = o.clone();
    bad.time_in_force = Some(ContStrategy::FOK);
    assert_eq!(validate_new_order_request(&bad), Err(OrderRule::MarketSellNoTimeInForce.message()));
    let mut bad = o.clone();
    bad.side = BuySellType::Buy;
    assert_eq!(validate_new_order_request(&bad), Err(OrderRule::MarketSellIsAsk.message()));
    let mut bad = o.clone();
    bad.volume = None;
    assert_eq!(validate_new_order_request(&bad), Err(OrderRule::MarketSellNeedsVolume.message()));
    let mut bad = o.clone();
    bad.price = dec(1, 0);
    assert_eq!(validate_new_order_request(&bad), Err(OrderRule::MarketSellNoPrice.message()));
}

#[test]
fn best_order_rules() {
    let mut buy = order(BuySellType::Buy, OrderType::BEST);
    buy.price = dec(5_000, 0);
    buy.time_in_force = Some(ContStrategy::IOC);
    assert_eq!(validate_new_order_request(&buy), Ok(()));
    let mut bad = buy.clone();
    bad.price = None;
    assert_eq!(validate_new_order_request(&bad), Err(OrderRule::BestBuyNeedsPrice.message()));
    let mut bad = buy.clone();
    bad.volume = dec(1, 0);
    assert_eq!(validate_new_order_request(&bad), Err(OrderRule::BestBuyNoVolume.message()));
    let mut bad = buy.clone();
    bad.time_in_force = None;
    assert_eq!(
        validate_new_order_request(&bad),
        Err("최유리(best)는 time_in_force에 ioc 또는 fok가 필요합니다.")
    );

    let mut sell = order(BuySellType::Sell, OrderType::BEST);
    sell.volume = dec(2, 0);
    sell.time_in_force = Some(ContStrategy::FOK);
    assert_eq!(validate_new_order_request(&sell), Ok(()));
    let mut bad = sell.clone();
    bad.volume = dec(0, 0);
    assert_eq!(validate_new_order_request(&bad), Err(OrderRule::BestSellNeedsVolume.message()));
    let mut bad = sell.clone();
    bad.price = dec(1, 0);
    assert_eq!(validate_new_order_request(&bad), Err(OrderRule::BestSellNoPrice.message()));
}

#[test]
fn requested_markets_split_trim_and_drop_empty() {
    let q = UpbitOrderbookQuery { markets: Some(" KRW-BTC , ,KRW-ETH,, ".to_string()) };
    assert_eq!(requested_markets(&q), vec!["KRW-BTC".to_string(), "KRW-ETH".to_string()]);
    let q = UpbitOrderbookQuery { markets: None };
    assert_eq!(requested_markets(&q), vec!["KRW-BTC".to_string()]);
    let q = UpbitOrderbookQuery { markets: Some(" , ,".to_string()) };
    assert!(requested_markets(&q).is_empty());
    let q = UpbitOrderbookQuery { markets: Some(String::new()) };
    assert!(requested_markets(&q).is_empty());
}

#[test]
fn minute_candle_units() {
    for u in MINUTE_CANDLE_UNITS {
        assert!(is_minute_candle_unit(u));
    }
    for u in [0, 2, 10, 60 * 24, -1] {
        assert!(!is_minute_candle_unit(u));
    }
}

#[test]
fn minute_candle_query_checks_market_unit_count_in_order() {
    let krw = vec!["KRW-BTC".to_string(), "KRW-ETH".to_string()];
    let q = |market: &str, unit: i32, count: i32| UpbitMinuteCandleQuery {
        market: market.to_string(),
        unit,
        count,
    };
    assert_eq!(validate_minute_candle_query(&q("KRW-ETH", 15, 200), &krw), Ok(()));
    assert_eq!(validate_minute_candle_query(&q("KRW-ETH", 1, 1), &krw), Ok(()));
    assert_eq!(
        validate_minute_candle_query(&q("BTC-ETH", 2, 0), &krw),
        Err("market은 업비트 KRW 마켓 목록에 있는 코드여야 합니다.")
    );
    assert_eq!(
        validate_minute_candle_query(&q("KRW-BTC", 2, 0), &krw),
        Err("unit은 1, 3, 5, 15, 30, 60, 240 중 하나여야 합니다.")
    );
    assert_eq!(
        validate_minute_candle_query(&q("KRW-BTC", 3, 201), &krw),
        Err("count는 1 이상 200 이하여야 합니다.")
    );
    assert_eq!(
        validate_minute_candle_query(&q("KRW-BTC", 3, 0), &krw),
        Err("count는 1 이상 200 이하여야 합니다.")
    );
}

#[test]
fn market_listing_is_exact() {
    let krw = vec!["KRW-BTC".to_string()];
    assert!(market_is_listed(&krw, &"KRW-BTC".to_string()));
    assert!(!market_is_listed(&krw, &"krw-btc".to_string()));
    assert!(!market_is_listed(&vec![], &"KRW-BTC".to_string()));
}

#[test]
fn authorization_errors_answer_401_others_502() {
    assert_eq!(error_status(&UpbitError::AuthorizationError), 401);
    assert_eq!(error_status(&UpbitError::EmptyMarkets), 502);
    let c = UpbitPublicClient::with_base_url("x".to_string(), None, None).unwrap();
    let e = c.authorization_header("").unwrap_err();
    assert_eq!(error_status(&e), 401);
}

#[test]
fn browser_socket_actions() {
    assert!(matches!(browser_action(BrowserEvent::Ticker("{}".to_string())), BrowserAction::SendText(t) if t == "{}"));
    assert!(matches!(browser_action(BrowserEvent::SocketPing(vec![1, 2])), BrowserAction::SendPong(p) if p == vec![1, 2]));
    assert!(matches!(browser_action(BrowserEvent::FeedLagged), BrowserAction::Skip));
    assert!(matches!(browser_action(BrowserEvent::TickerNotEncoded), BrowserAction::Skip));
    assert!(matches!(browser_action(BrowserEvent::SocketOther), BrowserAction::Skip));
    for e in [
        BrowserEvent::FeedClosed,
        BrowserEvent::SocketEnded,
        BrowserEvent::SocketClose,
        BrowserEvent::SocketError,
    ] {
        assert!(matches!(browser_action(e), BrowserAction::Finish));
    }
}
