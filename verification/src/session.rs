//! The parameters that stay fixed for the lifetime of a session.

use vstd::prelude::*;
use crate::feed::{FeedModel, Presence, PriceFeed};
use crate::margin::Margin;

verus! {

/// The symbol that a session trails and the margin it keeps.
#[derive(Clone, Debug, PartialEq, Eq)]
pub struct Session {
    pub symbol: String,
    pub margin: Margin,
}

impl Session {
    /// The session that trails `symbol` at `margin`.
    pub fn new(symbol: String, margin: Margin) -> (session: Session)
        ensures
            session.symbol == symbol,
            session.margin == margin,
    {
        Session { symbol, margin }
    }

    /// Whether a ticker snapshot for `symbol` belongs to this session.
    pub fn monitors(&self, symbol: &String) -> (own: bool)
        ensures
            own == (symbol@ == self.symbol@),
    {
        *symbol == self.symbol
    }

    /// The price feed of this session, before its first tick.
    pub fn open_feed(&self) -> (feed: PriceFeed)
        ensures
            feed@ == (FeedModel {
                margin: self.margin@,
                watermark: 0,
                presence: Presence::OrderAbsent,
            }),
    {
        PriceFeed::new(self.margin)
    }
}

} // verus!
