//! Open orders as the exchange reports them, and the choice of the one
//! order that the engine trails.

use vstd::prelude::*;
use crate::decimal::Decimal;

verus! {

/// The side of an order.
#[derive(Clone, Copy, Debug, PartialEq, Eq)]
pub enum Side {
    Buy,
    Sell,
}

/// A resting stop-limit order, as read from the exchange.
///
/// The exchange owns the order; a value of this type is a snapshot that is
/// good for one tick.
#[derive(Clone, Debug, PartialEq, Eq)]
pub struct Order {
    pub symbol: String,
    pub order_id: u64,
    /// The order's own price: the reference from which gains are measured.
    pub entry_price: Decimal,
    /// The price at which the order becomes active.
    pub stop_price: Decimal,
    pub quantity: Decimal,
    pub side: Side,
}

impl Order {
    /// The gap that the order keeps between its stop trigger and its own
    /// price, in decimal atoms.
    pub open spec fn spread(self) -> int {
        self.stop_price@ - self.entry_price@
    }
}

/// What a query for the open orders of a symbol came back with.
#[derive(Clone, Debug, PartialEq, Eq)]
pub enum Listing {
    /// The exchange answered with these orders, in its own order.
    Orders(Vec<Order>),
    /// The query failed.
    Failed,
}

/// The order that `listing` puts first, if it holds any.
pub open spec fn first_order(listing: Listing) -> Option<Order> {
    match listing {
        Listing::Orders(orders) => if orders@.len() > 0 {
            Some(orders@[0])
        } else {
            None
        },
        Listing::Failed => None,
    }
}

/// Picks the order to trail: the first one listed. A failed query counts as
/// no order.
pub fn get_open_order(listing: Listing) -> (order: Option<Order>)
    ensures
        order == first_order(listing),
{
    match listing {
        Listing::Orders(orders) => {
            let mut orders = orders;
            if orders.len() > 0 {
                Some(orders.swap_remove(0))
            } else {
                None
            }
        },
        Listing::Failed => None,
    }
}

} // verus!
