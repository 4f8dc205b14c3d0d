//! The dashboard server's request rules: new-order validation, the query
//! parameters of the order-book and minute-candle endpoints, the status of an
//! error response, and what the browser ticker socket does with each event.

use vstd::prelude::*;

use crate::client::UpbitError;
use crate::constants::{BuySellType, ContStrategy, OrderType};
use crate::model::{Decimal, UpbitOrderRequest};
use crate::text::{is_blank, str_chars, string_from_chars, trim_chars};

verus! {

/// The minute units that the candle API accepts.
pub const MINUTE_CANDLE_UNITS: [i32; 7] = [1, 3, 5, 15, 30, 60, 240];

/// The rules of a new order, each with the message that reports its breach.
#[derive(Debug, Clone, Copy, PartialEq, Eq, Structural)]
pub enum OrderRule {
    MarketRequired,
    IdentifierNotBlank,
    PostOnlyWithoutSmp,
    PostOnlyLimitOnly,
    LimitNeedsVolume,
    LimitNeedsPrice,
    MarketBuyNoTimeInForce,
    MarketBuyIsBid,
    MarketBuyNeedsPrice,
    MarketBuyNoVolume,
    MarketSellNoTimeInForce,
    MarketSellIsAsk,
    MarketSellNeedsVolume,
    MarketSellNoPrice,
    BestBuyNeedsPrice,
    BestBuyNoVolume,
    BestSellNeedsVolume,
    BestSellNoPrice,
    BestNeedsIocOrFok,
}

/// The message that reports a breach of `rule`.
pub open spec fn rule_message(rule: OrderRule) -> Seq<char> {
    match rule {
        OrderRule::MarketRequired => "market은 비어 있을 수 없습니다."@,
        OrderRule::IdentifierNotBlank => "identifier를 보낼 때는 비어 있지 않은 문자열이어야 합니다."@,
        OrderRule::PostOnlyWithoutSmp => "post_only는 smp_type과 함께 사용할 수 없습니다."@,
        OrderRule::PostOnlyLimitOnly => "post_only는 지정가(limit)에서만 사용할 수 있습니다."@,
        OrderRule::LimitNeedsVolume => "지정가(limit)는 volume이 필요합니다."@,
        OrderRule::LimitNeedsPrice => "지정가(limit)는 price가 필요합니다."@,
        OrderRule::MarketBuyNoTimeInForce => "시장가 매수(ord_type=price)에는 time_in_force를 보내면 안 됩니다."@,
        OrderRule::MarketBuyIsBid => "시장가 매수(ord_type=price)는 side가 bid여야 합니다."@,
        OrderRule::MarketBuyNeedsPrice => "시장가 매수는 주문 총액 price가 필요합니다."@,
        OrderRule::MarketBuyNoVolume => "시장가 매수에는 volume을 보내면 안 됩니다."@,
        OrderRule::MarketSellNoTimeInForce => "시장가 매도(ord_type=market)에는 time_in_force를 보내면 안 됩니다."@,
        OrderRule::MarketSellIsAsk => "시장가 매도(ord_type=market)는 side가 ask여야 합니다."@,
        OrderRule::MarketSellNeedsVolume => "시장가 매도는 volume이 필요합니다."@,
        OrderRule::MarketSellNoPrice => "시장가 매도에는 price를 보내면 안 됩니다."@,
        OrderRule::BestBuyNeedsPrice => "최유리 매수(best·bid)는 주문 총액 price가 필요합니다."@,
        OrderRule::BestBuyNoVolume => "최유리 매수에는 volume을 보내면 안 됩니다."@,
        OrderRule::BestSellNeedsVolume => "최유리 매도(best·ask)는 volume이 필요합니다."@,
        OrderRule::BestSellNoPrice => "최유리 매도에는 price를 보내면 안 됩니다."@,
        OrderRule::BestNeedsIocOrFok => "최유리(best)는 time_in_force에 ioc 또는 fok가 필요합니다."@,
    }
}

impl OrderRule {
    /// The message that reports a breach of this rule.
    pub fn message(&self) -> (res: &'static str)
        ensures
            res@ == rule_message(*self),
    {
        match self {
            OrderRule::MarketRequired => "market은 비어 있을 수 없습니다.",
            OrderRule::IdentifierNotBlank => "identifier를 보낼 때는 비어 있지 않은 문자열이어야 합니다.",
            OrderRule::PostOnlyWithoutSmp => "post_only는 smp_type과 함께 사용할 수 없습니다.",
            OrderRule::PostOnlyLimitOnly => "post_only는 지정가(limit)에서만 사용할 수 있습니다.",
            OrderRule::LimitNeedsVolume => "지정가(limit)는 volume이 필요합니다.",
            OrderRule::LimitNeedsPrice => "지정가(limit)는 price가 필요합니다.",
            OrderRule::MarketBuyNoTimeInForce => "시장가 매수(ord_type=price)에는 time_in_force를 보내면 안 됩니다.",
            OrderRule::MarketBuyIsBid => "시장가 매수(ord_type=price)는 side가 bid여야 합니다.",
            OrderRule::MarketBuyNeedsPrice => "시장가 매수는 주문 총액 price가 필요합니다.",
            OrderRule::MarketBuyNoVolume => "시장가 매수에는 volume을 보내면 안 됩니다.",
            OrderRule::MarketSellNoTimeInForce => "시장가 매도(ord_type=market)에는 time_in_force를 보내면 안 됩니다.",
            OrderRule::MarketSellIsAsk => "시장가 매도(ord_type=market)는 side가 ask여야 합니다.",
            OrderRule::MarketSellNeedsVolume => "시장가 매도는 volume이 필요합니다.",
            OrderRule::MarketSellNoPrice => "시장가 매도에는 price를 보내면 안 됩니다.",
            OrderRule::BestBuyNeedsPrice => "최유리 매수(best·bid)는 주문 총액 price가 필요합니다.",
            OrderRule::BestBuyNoVolume => "최유리 매수에는 volume을 보내면 안 됩니다.",
            OrderRule::BestSellNeedsVolume => "최유리 매도(best·ask)는 volume이 필요합니다.",
            OrderRule::BestSellNoPrice => "최유리 매도에는 price를 보내면 안 됩니다.",
            OrderRule::BestNeedsIocOrFok => "최유리(best)는 time_in_force에 ioc 또는 fok가 필요합니다.",
        }
    }
}

/// An amount that is present and greater than zero.
pub open spec fn positive(d: Option<Decimal>) -> bool {
    d matches Some(x) && x.positive_spec()
}

/// The first rule, in the order in which they are checked, that `b` breaks.
pub open spec fn first_broken_rule(b: UpbitOrderRequest) -> Option<OrderRule> {
    let tif = b.time_in_force;
    if crate::text::blank(b.market@) {
        Some(OrderRule::MarketRequired)
    } else if b.identifier matches Some(id) && crate::text::blank(id@) {
        Some(OrderRule::IdentifierNotBlank)
    } else if tif == Some(ContStrategy::PostOnly) && b.smp_type is Some {
        Some(OrderRule::PostOnlyWithoutSmp)
    } else if tif == Some(ContStrategy::PostOnly) && b.ord_type != OrderType::LIMIT {
        Some(OrderRule::PostOnlyLimitOnly)
    } else {
        match b.ord_type {
            OrderType::LIMIT => if !positive(b.volume) {
                Some(OrderRule::LimitNeedsVolume)
            } else if !positive(b.price) {
                Some(OrderRule::LimitNeedsPrice)
            } else {
                None
            },
            OrderType::PRICE => if tif is Some {
                Some(OrderRule::MarketBuyNoTimeInForce)
            } else if b.side != BuySellType::Buy {
                Some(OrderRule::MarketBuyIsBid)
            } else if !positive(b.price) {
                Some(OrderRule::MarketBuyNeedsPrice)
            } else if b.volume is Some {
                Some(OrderRule::MarketBuyNoVolume)
            } else {
                None
            },
            OrderType::MARKET => if tif is Some {
                Some(OrderRule::MarketSellNoTimeInForce)
            } else if b.side != BuySellType::Sell {
                Some(OrderRule::MarketSellIsAsk)
            } else if !positive(b.volume) {
                Some(OrderRule::MarketSellNeedsVolume)
            } else if b.price is Some {
                Some(OrderRule::MarketSellNoPrice)
            } else {
                None
            },
            OrderType::BEST => {
                let side_rule = match b.side {
                    BuySellType::Buy => if !positive(b.price) {
                        Some(OrderRule::BestBuyNeedsPrice)
                    } else if b.volume is Some {
                        Some(OrderRule::BestBuyNoVolume)
                    } else {
                        None
                    },
                    BuySellType::Sell => if !positive(b.volume) {
                        Some(OrderRule::BestSellNeedsVolume)
                    } else if b.price is Some {
                        Some(OrderRule::BestSellNoPrice)
                    } else {
                        None
                    },
                };
                if side_rule is Some {
                    side_rule
                } else if tif == Some(ContStrategy::IOC) || tif == Some(ContStrategy::FOK) {
                    None
                } else {
                    Some(OrderRule::BestNeedsIocOrFok)
                }
            },
        }
    }
}

/// What a valid new order is: a market; an identifier, when given, not blank;
/// `post_only` only for a limit order without `smp_type`; and per order type:
/// limit with positive volume and price; market buy (`price`) as a bid with a
/// positive total price, no volume and no `time_in_force`; market sell
/// (`market`) as an ask with a positive volume, no price and no
/// `time_in_force`; best-price with `ioc` or `fok`, a bid giving only a positive
/// total price and an ask only a positive volume.
pub open spec fn order_acceptable(b: UpbitOrderRequest) -> bool {
    let tif = b.time_in_force;
    &&& !crate::text::blank(b.market@)
    &&& (b.identifier matches Some(id) ==> !crate::text::blank(id@))
    &&& (tif == Some(ContStrategy::PostOnly) ==> b.smp_type is None && b.ord_type
        == OrderType::LIMIT)
    &&& match b.ord_type {
        OrderType::LIMIT => positive(b.volume) && positive(b.price),
        OrderType::PRICE => tif is None && b.side == BuySellType::Buy && positive(b.price)
            && b.volume is None,
        OrderType::MARKET => tif is None && b.side == BuySellType::Sell && positive(b.volume)
            && b.price is None,
        OrderType::BEST => {
            &&& (tif == Some(ContStrategy::IOC) || tif == Some(ContStrategy::FOK))
            &&& (b.side == BuySellType::Buy ==> positive(b.price) && b.volume is None)
            &&& (b.side == BuySellType::Sell ==> positive(b.volume) && b.price is None)
        },
    }
}

/// An order passes every check exactly when it is acceptable.
pub proof fn lemma_no_broken_rule_iff_acceptable(b: UpbitOrderRequest)
    ensures
        first_broken_rule(b) is None <==> order_acceptable(b),
{
}

fn is_positive_amount(d: &Option<Decimal>) -> (res: bool)
    ensures
        res == positive(*d),
{
    match d {
        Some(x) => x.is_positive(),
        None => false,
    }
}

fn is_post_only(t: &Option<ContStrategy>) -> (res: bool)
    ensures
        res == (*t == Some(ContStrategy::PostOnly)),
{
    match t {
        Some(ContStrategy::PostOnly) => true,
        _ => false,
    }
}

/// Checks a new order against the API's rules
/// (https://docs.upbit.com/kr/reference/new-order); the error is the message of
/// the first rule broken.
pub fn validate_new_order_request(body: &UpbitOrderRequest) -> (res: Result<(), &'static str>)
    ensures
        match first_broken_rule(*body) {
            None => res is Ok,
            Some(rule) => res matches Err(m) && m@ == rule_message(rule),
        },
{
    let rule = broken_rule(body);
    match rule {
        None => Ok(()),
        Some(r) => Err(r.message()),
    }
}

/// The first rule that `body` breaks, if any.
fn broken_rule(body: &UpbitOrderRequest) -> (res: Option<OrderRule>)
    ensures
        res == first_broken_rule(*body),
{
    if is_blank(body.market.as_str()) {
        return Some(OrderRule::MarketRequired);
    }
    if let Some(id) = &body.identifier {
        if is_blank(id.as_str()) {
            return Some(OrderRule::IdentifierNotBlank);
        }
    }
    let post_only = is_post_only(&body.time_in_force);
    if post_only && body.smp_type.is_some() {
        return Some(OrderRule::PostOnlyWithoutSmp);
    }
    if post_only && body.ord_type != OrderType::LIMIT {
        return Some(OrderRule::PostOnlyLimitOnly);
    }
    match body.ord_type {
        OrderType::LIMIT => {
            if !is_positive_amount(&body.volume) {
                return Some(OrderRule::LimitNeedsVolume);
            }
            if !is_positive_amount(&body.price) {
                return Some(OrderRule::LimitNeedsPrice);
            }
        },
        OrderType::PRICE => {
            if body.time_in_force.is_some() {
                return Some(OrderRule::MarketBuyNoTimeInForce);
            }
            if body.side != BuySellType::Buy {
                return Some(OrderRule::MarketBuyIsBid);
            }
            if !is_positive_amount(&body.price) {
                return Some(OrderRule::MarketBuyNeedsPrice);
            }
            if body.volume.is_some() {
                return Some(OrderRule::MarketBuyNoVolume);
            }
        },
        OrderType::MARKET => {
            if body.time_in_force.is_some() {
                return Some(OrderRule::MarketSellNoTimeInForce);
            }
            if body.side != BuySellType::Sell {
                return Some(OrderRule::MarketSellIsAsk);
            }
            if !is_positive_amount(&body.volume) {
                return Some(OrderRule::MarketSellNeedsVolume);
            }
            if body.price.is_some() {
                return Some(OrderRule::MarketSellNoPrice);
            }
        },
        OrderType::BEST => {
            match body.side {
                BuySellType::Buy => {
                    if !is_positive_amount(&body.price) {
                        return Some(OrderRule::BestBuyNeedsPrice);
                    }
                    if body.volume.is_some() {
                        return Some(OrderRule::BestBuyNoVolume);
                    }
                },
                BuySellType::Sell => {
                    if !is_positive_amount(&body.volume) {
                        return Some(OrderRule::BestSellNeedsVolume);
                    }
                    if body.price.is_some() {
                        return Some(OrderRule::BestSellNoPrice);
                    }
                },
            }
            match body.time_in_force {
                Some(ContStrategy::IOC) | Some(ContStrategy::FOK) => {},
                _ => return Some(OrderRule::BestNeedsIocOrFok),
            }
        },
    }
    None
}

// ---------------------------------------------------------------- order book query

/// Query of the order-book endpoint: `markets`, comma-separated (for example
/// `KRW-BTC` or `KRW-BTC,KRW-ETH`); `KRW-BTC` when absent.
pub struct UpbitOrderbookQuery {
    pub markets: Option<String>,
}

/// Query of the minute-candle endpoint.
pub struct UpbitMinuteCandleQuery {
    pub market: String,
    pub unit: i32,
    pub count: i32,
}

/// The pieces of `s` between the separators `sep` (what `str::split` yields):
/// always at least one piece.
pub open spec fn split_on(s: Seq<char>, sep: char) -> Seq<Seq<char>>
    decreases s.len(),
{
    if s.len() == 0 {
        seq![Seq::empty()]
    } else {
        let prev = split_on(s.drop_last(), sep);
        if s.last() == sep {
            prev.push(Seq::empty())
        } else {
            prev.update(prev.len() - 1, prev.last().push(s.last()))
        }
    }
}

/// The trimmed pieces that are not empty, in order.
pub open spec fn nonblank_trimmed(pieces: Seq<Seq<char>>) -> Seq<Seq<char>>
    decreases pieces.len(),
{
    if pieces.len() == 0 {
        Seq::empty()
    } else {
        let rest = nonblank_trimmed(pieces.drop_last());
        let t = crate::text::trim_ws(pieces.last());
        if t.len() == 0 {
            rest
        } else {
            rest.push(t)
        }
    }
}

/// The market list of an order-book query: the `markets` parameter (or
/// `KRW-BTC`) split at `,`, each code trimmed, empty codes dropped.
pub open spec fn requested_markets_spec(q: UpbitOrderbookQuery) -> Seq<Seq<char>> {
    let raw = match q.markets {
        Some(m) => m@,
        None => "KRW-BTC"@,
    };
    nonblank_trimmed(split_on(raw, ','))
}

/// Every requested market code is non-empty and has no whitespace at either end.
pub proof fn lemma_requested_markets_clean(q: UpbitOrderbookQuery)
    ensures
        forall|i: int|
            0 <= i < requested_markets_spec(q).len() ==> {
                &&& #[trigger] requested_markets_spec(q)[i].len() > 0
                &&& crate::text::trim_ws(requested_markets_spec(q)[i]) == requested_markets_spec(
                    q,
                )[i]
            },
{
    let raw = match q.markets {
        Some(m) => m@,
        None => "KRW-BTC"@,
    };
    lemma_nonblank_trimmed_clean(split_on(raw, ','));
}

proof fn lemma_nonblank_trimmed_clean(pieces: Seq<Seq<char>>)
    ensures
        forall|i: int|
            0 <= i < nonblank_trimmed(pieces).len() ==> {
                &&& #[trigger] nonblank_trimmed(pieces)[i].len() > 0
                &&& crate::text::trim_ws(nonblank_trimmed(pieces)[i]) == nonblank_trimmed(
                    pieces,
                )[i]
            },
    decreases pieces.len(),
{
    if pieces.len() > 0 {
        let rest = nonblank_trimmed(pieces.drop_last());
        lemma_nonblank_trimmed_clean(pieces.drop_last());
        crate::text::lemma_trim_idempotent(pieces.last());
        let all = nonblank_trimmed(pieces);
        assert forall|i: int| 0 <= i < all.len() implies {
            &&& #[trigger] all[i].len() > 0
            &&& crate::text::trim_ws(all[i]) == all[i]
        } by {
            if i < rest.len() {
                assert(all[i] == rest[i]);
            }
        }
    }
}

/// The market codes that an order-book query asks for; empty means a bad query.
pub fn requested_markets(q: &UpbitOrderbookQuery) -> (res: Vec<String>)
    ensures
        res@.map_values(|s: String| s@) == requested_markets_spec(*q),
{
    let raw = match &q.markets {
        Some(m) => str_chars(m.as_str()),
        None => str_chars("KRW-BTC"),
    };
    let mut out: Vec<String> = Vec::new();
    let mut cur: Vec<char> = Vec::new();
    let mut i: usize = 0;
    proof {
        assert(raw@.take(0) =~= Seq::<char>::empty());
    }
    while i < raw.len()
        invariant
            i <= raw.len(),
            split_on(raw@.take(i as int), ',').len() >= 1,
            split_on(raw@.take(i as int), ',').last() == cur@,
            out@.map_values(|s: String| s@) == nonblank_trimmed(
                split_on(raw@.take(i as int), ',').drop_last(),
            ),
        decreases raw.len() - i,
    {
        let ghost prev = split_on(raw@.take(i as int), ',');
        let ghost before = out@;
        assert(raw@.take(i + 1).drop_last() =~= raw@.take(i as int));
        let c = raw[i];
        if c == ',' {
            let t = trim_chars(&cur);
            if t.len() > 0 {
                out.push(string_from_chars(t.as_slice()));
                assert(out@.map_values(|s: String| s@) =~= before.map_values(|s: String| s@).push(
                    t@,
                ));
            }
            assert(prev.push(Seq::empty()).drop_last() =~= prev);
            assert(prev.drop_last().push(prev.last()) =~= prev);
            cur = Vec::new();
        } else {
            cur.push(c);
            assert(prev.update(prev.len() - 1, prev.last().push(c)).drop_last()
                =~= prev.drop_last());
        }
        i = i + 1;
    }
    assert(raw@.take(raw.len() as int) =~= raw@);
    assert(raw@ == match q.markets {
        Some(m) => m@,
        None => "KRW-BTC"@,
    });
    let ghost pieces = split_on(raw@, ',');
    let ghost before = out@;
    let t = trim_chars(&cur);
    if t.len() > 0 {
        out.push(string_from_chars(t.as_slice()));
        assert(out@.map_values(|s: String| s@) =~= before.map_values(|s: String| s@).push(t@));
    }
    assert(pieces.drop_last().push(pieces.last()) =~= pieces);
    out
}

// ---------------------------------------------------------------- minute candles

/// Whether `unit` is one of the accepted minute units.
pub open spec fn is_minute_unit(unit: int) -> bool {
    unit == 1 || unit == 3 || unit == 5 || unit == 15 || unit == 30 || unit == 60 || unit == 240
}

/// Whether `unit` is one of `MINUTE_CANDLE_UNITS`.
pub fn is_minute_candle_unit(unit: i32) -> (res: bool)
    ensures
        res == is_minute_unit(unit as int),
{
    let units = MINUTE_CANDLE_UNITS;
    assert(units@ == seq![1i32, 3, 5, 15, 30, 60, 240]);
    let mut k: usize = 0;
    while k < 7
        invariant
            k <= 7,
            units@ == seq![1i32, 3, 5, 15, 30, 60, 240],
            forall|j: int| 0 <= j < k ==> units@[j] != unit,
        decreases 7 - k,
    {
        if units[k] == unit {
            return true;
        }
        k = k + 1;
    }
    false
}

/// Whether `market` is among `listed`.
pub open spec fn is_listed(codes: Seq<String>, market: Seq<char>) -> bool {
    exists|i: int| 0 <= i < codes.len() && #[trigger] codes[i]@ == market
}

/// Whether `market` is one of the codes in `listed`.
pub fn market_is_listed(listed: &Vec<String>, market: &String) -> (res: bool)
    ensures
        res == is_listed(listed@, market@),
{
    let mut i: usize = 0;
    while i < listed.len()
        invariant
            i <= listed.len(),
            forall|j: int| 0 <= j < i ==> #[trigger] listed@[j]@ != market@,
        decreases listed.len() - i,
    {
        if listed[i] == *market {
            return true;
        }
        i = i + 1;
    }
    false
}

/// Message for a market that is not a listed KRW market.
pub open spec fn unlisted_market_message() -> Seq<char> {
    "market은 업비트 KRW 마켓 목록에 있는 코드여야 합니다."@
}

/// The message that a minute-candle query with these values is refused with, if any:
/// the market must be listed, the unit accepted, the count between 1 and 200.
pub open spec fn candle_query_problem(q: UpbitMinuteCandleQuery, krw: Seq<String>) -> Option<
    Seq<char>,
> {
    if !is_listed(krw, q.market@) {
        Some(unlisted_market_message())
    } else if !is_minute_unit(q.unit as int) {
        Some("unit은 1, 3, 5, 15, 30, 60, 240 중 하나여야 합니다."@)
    } else if !(1 <= q.count <= 200) {
        Some("count는 1 이상 200 이하여야 합니다."@)
    } else {
        None
    }
}

/// Checks a minute-candle query against the listed KRW markets.
pub fn validate_minute_candle_query(q: &UpbitMinuteCandleQuery, krw: &Vec<String>) -> (res: Result<
    (),
    &'static str,
>)
    ensures
        match candle_query_problem(*q, krw@) {
            None => res is Ok,
            Some(m) => res matches Err(e) && e@ == m,
        },
{
    if !market_is_listed(krw, &q.market) {
        return Err(unlisted_market_text());
    }
    if !is_minute_candle_unit(q.unit) {
        return Err("unit은 1, 3, 5, 15, 30, 60, 240 중 하나여야 합니다.");
    }
    if !(1 <= q.count && q.count <= 200) {
        return Err("count는 1 이상 200 이하여야 합니다.");
    }
    Ok(())
}

/// The message for a market that is not a listed KRW market.
pub fn unlisted_market_text() -> (res: &'static str)
    ensures
        res@ == unlisted_market_message(),
{
    "market은 업비트 KRW 마켓 목록에 있는 코드여야 합니다."
}

// ---------------------------------------------------------------- responses

/// HTTP status of a failed Upbit call: 401 when the keys are missing, 502 otherwise.
pub fn error_status(e: &UpbitError) -> (res: u16)
    ensures
        res == (if e is AuthorizationError {
            401u16
        } else {
            502u16
        }),
{
    match e {
        UpbitError::AuthorizationError => 401,
        _ => 502,
    }
}

// ---------------------------------------------------------------- browser ticker socket

/// What happens next on a browser's ticker socket: a ticker from the feed (as
/// JSON), the feed lagging or closing, or something from the browser.
pub enum BrowserEvent {
    /// A ticker from the feed, written as JSON.
    Ticker(String),
    /// A ticker from the feed that could not be written as JSON.
    TickerNotEncoded,
    FeedLagged,
    FeedClosed,
    SocketEnded,
    SocketClose,
    SocketPing(Vec<u8>),
    SocketError,
    SocketOther,
}

/// What the server does about it.
pub enum BrowserAction {
    /// Send this text frame; stop when sending fails.
    SendText(String),
    /// Answer with this pong; a failure is ignored.
    SendPong(Vec<u8>),
    /// Nothing; wait for the next event.
    Skip,
    /// Close the session.
    Finish,
}

/// The action for each event: tickers are forwarded, pings answered, lag and a
/// ticker that cannot be written skipped;
/// a closed feed or a closed, ended or failed socket ends the session.
pub open spec fn browser_action_spec(e: BrowserEvent) -> BrowserAction {
    match e {
        BrowserEvent::Ticker(t) => BrowserAction::SendText(t),
        BrowserEvent::SocketPing(p) => BrowserAction::SendPong(p),
        BrowserEvent::FeedLagged => BrowserAction::Skip,
        BrowserEvent::TickerNotEncoded => BrowserAction::Skip,
        BrowserEvent::SocketOther => BrowserAction::Skip,
        _ => BrowserAction::Finish,
    }
}

/// Decides what to do with one event of a browser's ticker socket.
pub fn browser_action(e: BrowserEvent) -> (res: BrowserAction)
    ensures
        res == browser_action_spec(e),
{
    match e {
        BrowserEvent::Ticker(t) => BrowserAction::SendText(t),
        BrowserEvent::SocketPing(p) => BrowserAction::SendPong(p),
        BrowserEvent::FeedLagged => BrowserAction::Skip,
        BrowserEvent::TickerNotEncoded => BrowserAction::Skip,
        BrowserEvent::SocketOther => BrowserAction::Skip,
        BrowserEvent::FeedClosed => BrowserAction::Finish,
        BrowserEvent::SocketEnded => BrowserAction::Finish,
        BrowserEvent::SocketClose => BrowserAction::Finish,
        BrowserEvent::SocketError => BrowserAction::Finish,
    }
}

// ---------------------------------------------------------------- laws

/// Splitting gives at least one piece.
proof fn lemma_split_nonempty(s: Seq<char>, sep: char)
    ensures
        split_on(s, sep).len() >= 1,
    decreases s.len(),
{
    if s.len() > 0 {
        lemma_split_nonempty(s.drop_last(), sep);
    }
}

/// Text without the separator is one piece, itself.
proof fn lemma_split_without_sep(s: Seq<char>, sep: char)
    requires
        !s.contains(sep),
    ensures
        split_on(s, sep) == seq![s],
    decreases s.len(),
{
    if s.len() > 0 {
        assert(!s.drop_last().contains(sep)) by {
            if s.drop_last().contains(sep) {
                let k = choose|k: int| 0 <= k < s.drop_last().len() && s.drop_last()[k] == sep;
                assert(s[k] == sep);
            }
        }
        lemma_split_without_sep(s.drop_last(), sep);
        assert(s.drop_last().push(s.last()) =~= s);
        assert(seq![s.drop_last()].update(0, s.drop_last().push(s.last())) =~= seq![s]);
    } else {
        assert(s =~= Seq::<char>::empty());
    }
}

/// Splitting `a`, a separator, `b` gives the pieces of `a` and then those of `b`.
proof fn lemma_split_concat(a: Seq<char>, b: Seq<char>, sep: char)
    ensures
        split_on(a + seq![sep] + b, sep) == split_on(a, sep) + split_on(b, sep),
    decreases b.len(),
{
    let whole = a + seq![sep] + b;
    if b.len() == 0 {
        assert(whole.drop_last() =~= a);
        assert(whole =~= a + seq![sep]);
        assert(split_on(a, sep).push(Seq::empty()) =~= split_on(a, sep) + seq![Seq::<char>::empty()]);
    } else {
        let b0 = b.drop_last();
        assert(whole.drop_last() =~= a + seq![sep] + b0);
        assert(whole.last() == b.last());
        lemma_split_concat(a, b0, sep);
        lemma_split_nonempty(b0, sep);
        lemma_split_nonempty(a, sep);
        let pa = split_on(a, sep);
        let pb = split_on(b0, sep);
        if b.last() == sep {
            assert((pa + pb).push(Seq::empty()) =~= pa + pb.push(Seq::empty()));
        } else {
            assert((pa + pb).update((pa + pb).len() - 1, (pa + pb).last().push(b.last())) =~= pa
                + pb.update(pb.len() - 1, pb.last().push(b.last())));
        }
    }
}

/// Keeping the non-empty trimmed pieces of two lists is keeping those of each.
proof fn lemma_nonblank_trimmed_concat(p: Seq<Seq<char>>, q: Seq<Seq<char>>)
    ensures
        nonblank_trimmed(p + q) == nonblank_trimmed(p) + nonblank_trimmed(q),
    decreases q.len(),
{
    if q.len() == 0 {
        assert(p + q =~= p);
        assert(nonblank_trimmed(p) + nonblank_trimmed(q) =~= nonblank_trimmed(p));
    } else {
        assert((p + q).drop_last() =~= p + q.drop_last());
        lemma_nonblank_trimmed_concat(p, q.drop_last());
        let t = crate::text::trim_ws(q.last());
        if t.len() != 0 {
            assert((nonblank_trimmed(p) + nonblank_trimmed(q.drop_last())).push(t) =~= nonblank_trimmed(
                p,
            ) + nonblank_trimmed(q.drop_last()).push(t));
        }
    }
}

/// The query's codes for a text without a comma: the trimmed text when it is not
/// blank, none when it is.
pub proof fn lemma_requested_markets_single(m: String)
    requires
        !m@.contains(','),
    ensures
        !crate::text::blank(m@) ==> requested_markets_spec(UpbitOrderbookQuery { markets: Some(m) })
            == seq![crate::text::trim_ws(m@)],
        crate::text::blank(m@) ==> requested_markets_spec(
            UpbitOrderbookQuery { markets: Some(m) },
        ).len() == 0,
{
    lemma_split_without_sep(m@, ',');
    assert(seq![m@].drop_last() =~= Seq::<Seq<char>>::empty());
    assert(nonblank_trimmed(Seq::<Seq<char>>::empty()) =~= Seq::<Seq<char>>::empty());
    assert(seq![m@].last() == m@);
    if !crate::text::blank(m@) {
        assert(Seq::<Seq<char>>::empty().push(crate::text::trim_ws(m@)) =~= seq![
            crate::text::trim_ws(m@),
        ]);
    }
}

/// A comma separates codes: the codes of `a,b` are the codes of `a` followed by
/// the codes of `b` (every piece counts, the one after the last comma too).
pub proof fn lemma_requested_markets_comma(a: String, b: String, ab: String)
    requires
        ab@ == a@ + seq![','] + b@,
    ensures
        requested_markets_spec(UpbitOrderbookQuery { markets: Some(ab) }) == requested_markets_spec(
            UpbitOrderbookQuery { markets: Some(a) },
        ) + requested_markets_spec(UpbitOrderbookQuery { markets: Some(b) }),
{
    lemma_split_concat(a@, b@, ',');
    lemma_nonblank_trimmed_concat(split_on(a@, ','), split_on(b@, ','));
}

/// Without `markets` the query asks for `KRW-BTC` alone.
pub proof fn lemma_requested_markets_default()
    ensures
        requested_markets_spec(UpbitOrderbookQuery { markets: None }) == seq!["KRW-BTC"@],
{
    reveal_strlit("KRW-BTC");
    assert(!"KRW-BTC"@.contains(',')) by {
        if "KRW-BTC"@.contains(',') {
            let k = choose|k: int| 0 <= k < "KRW-BTC"@.len() && "KRW-BTC"@[k] == ',';
        }
    }
    lemma_split_without_sep("KRW-BTC"@, ',');
    crate::text::lemma_trim_fixed("KRW-BTC"@);
    assert(seq!["KRW-BTC"@].drop_last() =~= Seq::<Seq<char>>::empty());
    assert(nonblank_trimmed(Seq::<Seq<char>>::empty()) =~= Seq::<Seq<char>>::empty());
    assert(seq!["KRW-BTC"@].last() == "KRW-BTC"@);
    assert(Seq::<Seq<char>>::empty().push("KRW-BTC"@) =~= seq!["KRW-BTC"@]);
}

/// Whether two optional amounts are both absent, or both present with the same
/// sign of their value (`mantissa * 10^-scale` is positive exactly when the
/// mantissa is).
pub open spec fn same_presence_and_sign(x: Option<Decimal>, y: Option<Decimal>) -> bool {
    match (x, y) {
        (None, None) => true,
        (Some(a), Some(b)) => (a.mantissa > 0) == (b.mantissa > 0),
        _ => false,
    }
}

/// The checks read an amount only for whether it is there and greater than zero:
/// two orders that differ only in amounts of the same presence and sign (any
/// scale, any size) break the same rule.
pub proof fn lemma_amounts_read_by_sign(
    b: UpbitOrderRequest,
    volume: Option<Decimal>,
    price: Option<Decimal>,
)
    requires
        same_presence_and_sign(b.volume, volume),
        same_presence_and_sign(b.price, price),
    ensures
        first_broken_rule(b) == first_broken_rule(
            UpbitOrderRequest { volume: volume, price: price, ..b },
        ),
{
}

/// A limit order on a market, with a volume and a price greater than zero (at
/// any scale) and nothing else set, is accepted.
pub proof fn lemma_limit_order_accepted(b: UpbitOrderRequest)
    requires
        b.ord_type == OrderType::LIMIT,
        !crate::text::blank(b.market@),
        b.volume matches Some(v) && v.mantissa > 0,
        b.price matches Some(p) && p.mantissa > 0,
        b.time_in_force is None,
        b.smp_type is None,
        b.identifier is None,
    ensures
        first_broken_rule(b) is None,
{
}

/// For a listed market and a count from 1 to 200, a minute-candle query is
/// accepted exactly when its unit is one of `MINUTE_CANDLE_UNITS`, and refused
/// for its unit otherwise.
pub proof fn lemma_candle_unit_rule(q: UpbitMinuteCandleQuery, krw: Seq<String>)
    requires
        is_listed(krw, q.market@),
        1 <= q.count <= 200,
    ensures
        MINUTE_CANDLE_UNITS@ == seq![1i32, 3, 5, 15, 30, 60, 240],
        candle_query_problem(q, krw) is None <==> MINUTE_CANDLE_UNITS@.contains(q.unit),
        !MINUTE_CANDLE_UNITS@.contains(q.unit) ==> candle_query_problem(q, krw) == Some(
            "unit은 1, 3, 5, 15, 30, 60, 240 중 하나여야 합니다."@,
        ),
{
    let units = MINUTE_CANDLE_UNITS;
    assert(units@ == seq![1i32, 3, 5, 15, 30, 60, 240]);
    if is_minute_unit(q.unit as int) {
        if q.unit == 1 {
            assert(units@[0] == q.unit);
        } else if q.unit == 3 {
            assert(units@[1] == q.unit);
        } else if q.unit == 5 {
            assert(units@[2] == q.unit);
        } else if q.unit == 15 {
            assert(units@[3] == q.unit);
        } else if q.unit == 30 {
            assert(units@[4] == q.unit);
        } else if q.unit == 60 {
            assert(units@[5] == q.unit);
        } else {
            assert(units@[6] == q.unit);
        }
    } else {
        if units@.contains(q.unit) {
            let k = choose|k: int| 0 <= k < units@.len() && units@[k] == q.unit;
        }
    }
}

/// Every ticker from the feed goes to the browser as it is.
pub proof fn lemma_every_ticker_forwarded(t: String)
    ensures
        browser_action_spec(BrowserEvent::Ticker(t)) == BrowserAction::SendText(t),
{
}

} // verus!
