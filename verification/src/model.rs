//! Upbit market data and order types that the library's logic reads.

use vstd::prelude::*;

use crate::constants::{BuySellType, ContStrategy, OrderType, SmpType};
use crate::text::{str_chars, string_from_chars};

verus! {

/// Price change against the previous close (`EVEN` / `RISE` / `FALL` in the API).
#[derive(Debug, Clone, Copy, PartialEq, Eq, Structural)]
pub enum Change {
    Even,
    Rise,
    Fall,
}

/// Warning flags of a market (`market_event` of `GET /v1/market/all`).
#[derive(Debug, Clone, Copy, PartialEq, Eq, Structural)]
pub struct MarketEvent {
    pub warning: bool,
    pub price_fluctuation: bool,
    pub trading_volume_soaring: bool,
    pub deposit_amount_soaring: bool,
    pub global_price_differences: bool,
    pub concentration_of_small_accounts: bool,
}

impl Default for MarketEvent {
    /// No flag set: what a market without `market_event` gets.
    fn default() -> (res: Self)
        ensures
            !res.warning && !res.price_fluctuation && !res.trading_volume_soaring
                && !res.deposit_amount_soaring && !res.global_price_differences
                && !res.concentration_of_small_accounts,
    {
        MarketEvent {
            warning: false,
            price_fluctuation: false,
            trading_volume_soaring: false,
            deposit_amount_soaring: false,
            global_price_differences: false,
            concentration_of_small_accounts: false,
        }
    }
}

/// One market of `GET /v1/market/all`.
#[derive(Debug, Clone)]
pub struct UpbitTradePair {
    pub market: String,
    pub korean_name: String,
    pub english_name: String,
    pub market_event: MarketEvent,
}

/// A decimal number `mantissa * 10^-scale`, as the API's prices and volumes are.
#[derive(Debug, Clone, Copy, PartialEq, Eq, Structural)]
pub struct Decimal {
    pub mantissa: i128,
    pub scale: u32,
}

impl Decimal {
    /// Whether the number is greater than zero.
    pub open spec fn positive_spec(self) -> bool {
        self.mantissa > 0
    }

    /// Whether the number is greater than zero.
    pub fn is_positive(&self) -> (res: bool)
        ensures
            res == self.positive_spec(),
    {
        self.mantissa > 0
    }
}

/// A new order (`POST /v1/orders`).
#[derive(Debug, Clone)]
pub struct UpbitOrderRequest {
    pub market: String,
    pub side: BuySellType,
    pub ord_type: OrderType,
    pub volume: Option<Decimal>,
    pub price: Option<Decimal>,
    pub time_in_force: Option<ContStrategy>,
    pub smp_type: Option<SmpType>,
    pub identifier: Option<String>,
}

/// Whether a market code is quoted in KRW (`KRW-...`).
pub open spec fn is_krw_code(code: Seq<char>) -> bool {
    code.len() >= 4 && code.subrange(0, 4) == "KRW-"@
}

/// The codes of the KRW markets among `pairs`, in order.
pub open spec fn krw_codes(pairs: Seq<UpbitTradePair>) -> Seq<Seq<char>>
    decreases pairs.len(),
{
    if pairs.len() == 0 {
        Seq::empty()
    } else {
        let rest = krw_codes(pairs.drop_last());
        if is_krw_code(pairs.last().market@) {
            rest.push(pairs.last().market@)
        } else {
            rest
        }
    }
}

fn starts_with_krw(code: &str) -> (res: bool)
    ensures
        res == is_krw_code(code@),
{
    let c = str_chars(code);
    let prefix = str_chars("KRW-");
    proof {
        reveal_strlit("KRW-");
    }
    if c.len() < 4 {
        return false;
    }
    let r = c[0] == prefix[0] && c[1] == prefix[1] && c[2] == prefix[2] && c[3] == prefix[3];
    proof {
        if r {
            assert(c@.subrange(0, 4) =~= "KRW-"@);
        } else {
            if c@.subrange(0, 4) == "KRW-"@ {
                assert(c@[0] == c@.subrange(0, 4)[0]);
                assert(c@[1] == c@.subrange(0, 4)[1]);
                assert(c@[2] == c@.subrange(0, 4)[2]);
                assert(c@[3] == c@.subrange(0, 4)[3]);
            }
        }
    }
    r
}

/// Every code picked is a KRW market's code, and every KRW market's code is picked.
pub proof fn lemma_krw_codes_exact(pairs: Seq<UpbitTradePair>)
    ensures
        forall|i: int| 0 <= i < krw_codes(pairs).len() ==> is_krw_code(#[trigger] krw_codes(pairs)[i]),
        forall|j: int|
            0 <= j < pairs.len() && is_krw_code(#[trigger] pairs[j].market@) ==> krw_codes(
                pairs,
            ).contains(pairs[j].market@),
    decreases pairs.len(),
{
    if pairs.len() > 0 {
        let rest = pairs.drop_last();
        lemma_krw_codes_exact(rest);
        assert forall|j: int|
            0 <= j < pairs.len() && is_krw_code(#[trigger] pairs[j].market@) implies krw_codes(
            pairs,
        ).contains(pairs[j].market@) by {
            if j < pairs.len() - 1 {
                assert(rest[j] == pairs[j]);
                let k = choose|k: int| 0 <= k < krw_codes(rest).len() && krw_codes(rest)[k]
                    == rest[j].market@;
                assert(krw_codes(pairs)[k] == pairs[j].market@);
            } else {
                assert(krw_codes(pairs).last() == pairs[j].market@);
            }
        }
    }
}

/// The market codes of the KRW markets among `pairs`, in order.
pub fn krw_market_codes(pairs: &Vec<UpbitTradePair>) -> (res: Vec<String>)
    ensures
        res@.map_values(|s: String| s@) == krw_codes(pairs@),
{
    let mut out: Vec<String> = Vec::new();
    let mut i: usize = 0;
    while i < pairs.len()
        invariant
            i <= pairs.len(),
            out@.map_values(|s: String| s@) == krw_codes(pairs@.take(i as int)),
        decreases pairs.len() - i,
    {
        let ghost before = out@;
        assert(pairs@.take(i + 1).drop_last() =~= pairs@.take(i as int));
        if starts_with_krw(pairs[i].market.as_str()) {
            let code = string_from_chars(str_chars(pairs[i].market.as_str()).as_slice());
            out.push(code);
            assert(out@.map_values(|s: String| s@) =~= before.map_values(|s: String| s@).push(
                pairs@[i as int].market@,
            ));
        }
        i = i + 1;
    }
    assert(pairs@.take(pairs.len() as int) =~= pairs@);
    out
}

} // verus!
