//! Order-side, order-type and execution-strategy codes of the Upbit order API.

use vstd::prelude::*;

verus! {

/// Order `side`: `Buy` / `Sell` here, `bid` / `ask` on the wire.
#[derive(Debug, Clone, Copy, PartialEq, Eq, Structural)]
pub enum BuySellType {
    Buy,
    Sell,
}

/// Wire text of an order side.
pub open spec fn side_text(side: BuySellType) -> Seq<char> {
    match side {
        BuySellType::Buy => "bid"@,
        BuySellType::Sell => "ask"@,
    }
}

impl BuySellType {
    /// The API string of this side.
    pub fn as_str(&self) -> (res: &'static str)
        ensures
            res@ == side_text(*self),
    {
        match self {
            BuySellType::Buy => "bid",
            BuySellType::Sell => "ask",
        }
    }
}

/// Order `ord_type`.
#[derive(Debug, Clone, Copy, PartialEq, Eq, Structural)]
pub enum OrderType {
    /// Limit buy / sell.
    LIMIT,
    /// Market buy (total price given).
    PRICE,
    /// Market sell (volume given).
    MARKET,
    /// Best-price limit buy / sell.
    BEST,
}

/// Wire text of an order type.
pub open spec fn order_type_text(t: OrderType) -> Seq<char> {
    match t {
        OrderType::LIMIT => "limit"@,
        OrderType::PRICE => "price"@,
        OrderType::MARKET => "market"@,
        OrderType::BEST => "best"@,
    }
}

impl OrderType {
    /// The API string of this order type.
    pub fn as_str(&self) -> (res: &'static str)
        ensures
            res@ == order_type_text(*self),
    {
        match self {
            OrderType::LIMIT => "limit",
            OrderType::PRICE => "price",
            OrderType::MARKET => "market",
            OrderType::BEST => "best",
        }
    }
}

/// Execution strategy (`time_in_force`).
#[derive(Debug, Clone, Copy, PartialEq, Eq, Structural)]
pub enum ContStrategy {
    /// Immediate or cancel.
    IOC,
    /// Fill or kill.
    FOK,
    /// Accepted only as a maker order.
    PostOnly,
}

/// Self-match prevention mode (`smp_type`).
#[derive(Debug, Clone, Copy, PartialEq, Eq, Structural)]
pub enum SmpType {
    CancelMaker,
    CancelTaker,
    Reduce,
}

} // verus!
