//! The lines that the two loops write to the log. Writing them out is left
//! to the caller; what they say is fixed here.

use vstd::prelude::*;
use vstd::string::StringExecFns;
use crate::decimal::{Decimal, DECIMAL_PLACES};
use crate::level::{Level, LEVEL_PLACES};
use crate::order::Order;
use crate::render::numeral_text;
use crate::replacer::StopLimitRequest;

verus! {

/// The holdings of one asset, as the account stream reports them.
#[derive(Clone, Debug, PartialEq, Eq)]
pub struct Balance {
    pub asset: String,
    pub free: String,
    pub locked: String,
}

/// The execution of an order, as the account stream reports it.
#[derive(Clone, Debug, PartialEq, Eq)]
pub struct TradeReport {
    pub symbol: String,
    pub side: String,
    pub price: String,
    pub execution_type: String,
}

/// An event of the account stream.
#[derive(Clone, Debug, PartialEq, Eq)]
pub enum AccountEvent {
    BalanceUpdate(Vec<Balance>),
    OrderTrade(TradeReport),
    /// Any other event: nothing is logged for it.
    Other,
}

/// The line that is logged for the holdings of one asset.
pub open spec fn balance_text(balance: Balance) -> Seq<char> {
    "Asset: "@ + balance.asset@ + ", free: "@ + balance.free@ + ", locked: "@ + balance.locked@
}

/// The line that is logged for the execution of an order.
pub open spec fn trade_text(trade: TradeReport) -> Seq<char> {
    "Symbol: "@ + trade.symbol@ + ", Side: "@ + trade.side@ + ", Price: "@ + trade.price@
        + ", Execution Type: "@ + trade.execution_type@
}

/// The lines that are logged for an event of the account stream: one for
/// each asset of a balance update, one for a trade, none for anything else.
pub open spec fn account_texts(event: AccountEvent) -> Seq<Seq<char>> {
    match event {
        AccountEvent::BalanceUpdate(balances) => Seq::new(
            balances@.len(),
            |i: int| balance_text(balances@[i]),
        ),
        AccountEvent::OrderTrade(trade) => seq![trade_text(trade)],
        AccountEvent::Other => Seq::empty(),
    }
}

/// The texts of `lines`.
pub open spec fn texts_of(lines: Seq<String>) -> Seq<Seq<char>> {
    Seq::new(lines.len(), |i: int| lines[i]@)
}

/// The line for the holdings of one asset.
pub fn balance_line(balance: &Balance) -> (line: String)
    ensures
        line@ == balance_text(*balance),
{
    let mut line: String = String::new();
    line.append("Asset: ");
    line.append(balance.asset.as_str());
    line.append(", free: ");
    line.append(balance.free.as_str());
    line.append(", locked: ");
    line.append(balance.locked.as_str());
    assert(line@ =~= balance_text(*balance));
    line
}

/// The line for the execution of an order.
pub fn trade_line(trade: &TradeReport) -> (line: String)
    ensures
        line@ == trade_text(*trade),
{
    let mut line: String = String::new();
    line.append("Symbol: ");
    line.append(trade.symbol.as_str());
    line.append(", Side: ");
    line.append(trade.side.as_str());
    line.append(", Price: ");
    line.append(trade.price.as_str());
    line.append(", Execution Type: ");
    line.append(trade.execution_type.as_str());
    assert(line@ =~= trade_text(*trade));
    line
}

/// The lines to log for an event of the account stream.
pub fn account_lines(event: &AccountEvent) -> (lines: Vec<String>)
    ensures
        texts_of(lines@) == account_texts(*event),
{
    let mut lines: Vec<String> = Vec::new();
    match event {
        AccountEvent::BalanceUpdate(balances) => {
            let mut i: usize = 0;
            while i < balances.len()
                invariant
                    i <= balances@.len(),
                    lines@.len() == i,
                    forall|j: int|
                        0 <= j < i ==> (#[trigger] lines@[j])@ == balance_text(balances@[j]),
                decreases balances@.len() - i,
            {
                lines.push(balance_line(&balances[i]));
                i = i + 1;
            }
        },
        AccountEvent::OrderTrade(trade) => {
            lines.push(trade_line(trade));
        },
        AccountEvent::Other => {},
    }
    assert(texts_of(lines@) =~= account_texts(*event));
    lines
}

/// The line that reports the close price of a tick.
pub open spec fn close_text(price: Decimal) -> Seq<char> {
    "Latest close price: "@ + numeral_text(price@, DECIMAL_PLACES as nat)
}

/// The line that reports the close price of a tick.
pub fn close_line(price: Decimal) -> (line: String)
    ensures
        line@ == close_text(price),
{
    let mut line: String = String::new();
    line.append("Latest close price: ");
    line.append(price.to_text().as_str());
    assert(line@ =~= close_text(price));
    line
}

/// The line that gives notice of an order that is gone.
pub fn order_not_found_line() -> (line: &'static str)
    ensures
        line@ == "Order not found"@,
{
    "Order not found"
}

/// The line that announces a replacement and the stop it aims at.
pub open spec fn update_text(stop: Level) -> Seq<char> {
    "Updating stop loss! Recommended price: "@ + numeral_text(stop@, LEVEL_PLACES as nat)
}

/// The line that announces a replacement and the stop it aims at.
pub fn update_line(stop: Level) -> (line: String)
    ensures
        line@ == update_text(stop),
{
    let mut line: String = String::new();
    line.append("Updating stop loss! Recommended price: ");
    line.append(stop.to_text().as_str());
    assert(line@ =~= update_text(stop));
    line
}

/// The line that confirms the cancel of an order.
pub open spec fn cancelled_text(order: Order) -> Seq<char> {
    "Current order at price "@ + numeral_text(order.entry_price@, DECIMAL_PLACES as nat)
        + " cancelled"@
}

/// The line that confirms the cancel of an order.
pub fn cancelled_line(order: &Order) -> (line: String)
    ensures
        line@ == cancelled_text(*order),
{
    let mut line: String = String::new();
    line.append("Current order at price ");
    line.append(order.entry_price.to_text().as_str());
    line.append(" cancelled");
    assert(line@ =~= cancelled_text(*order));
    line
}

/// The lines that describe the order about to be placed: its symbol, its
/// amount, its stop price and its limit price.
pub open spec fn request_texts(request: StopLimitRequest) -> Seq<Seq<char>> {
    seq![
        "Updating Symbol "@ + request.symbol@,
        "Amount: "@ + numeral_text(request.quantity@, DECIMAL_PLACES as nat),
        "Recommended price stop: "@ + numeral_text(request.stop_price@, LEVEL_PLACES as nat),
        "Recommended price limit: "@ + numeral_text(request.limit_price@, LEVEL_PLACES as nat),
    ]
}

/// The lines that describe the order about to be placed.
pub fn request_lines(request: &StopLimitRequest) -> (lines: Vec<String>)
    ensures
        texts_of(lines@) == request_texts(*request),
{
    let mut symbol: String = String::new();
    symbol.append("Updating Symbol ");
    symbol.append(request.symbol.as_str());
    let mut amount: String = String::new();
    amount.append("Amount: ");
    amount.append(request.quantity.to_text().as_str());
    let mut stop: String = String::new();
    stop.append("Recommended price stop: ");
    stop.append(request.stop_price.to_text().as_str());
    let mut limit: String = String::new();
    limit.append("Recommended price limit: ");
    limit.append(request.limit_price.to_text().as_str());
    let mut lines: Vec<String> = Vec::new();
    lines.push(symbol);
    lines.push(amount);
    lines.push(stop);
    lines.push(limit);
    assert(texts_of(lines@) =~= request_texts(*request)) by {
        assert(lines@[0]@ =~= "Updating Symbol "@ + request.symbol@);
        assert(lines@[1]@ =~= "Amount: "@ + numeral_text(
            request.quantity@,
            DECIMAL_PLACES as nat,
        ));
        assert(lines@[2]@ =~= "Recommended price stop: "@ + numeral_text(
            request.stop_price@,
            LEVEL_PLACES as nat,
        ));
        assert(lines@[3]@ =~= "Recommended price limit: "@ + numeral_text(
            request.limit_price@,
            LEVEL_PLACES as nat,
        ));
    }
    lines
}

} // verus!
