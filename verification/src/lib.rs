//! A trailing stop-loss decision engine for one trading symbol.
//!
//! The engine is a set of state machines over exact fixed-point numbers. The
//! caller owns the transport: it feeds ticks and the outcomes of exchange
//! calls in, and performs the steps that come back.
//!
//! * [`decimal`] and [`numeral`]: what the exchange quotes, with eight
//!   fractional digits, and how it is read from text.
//! * [`level`]: stop levels with eighteen fractional digits, precise enough
//!   to hold the product of a price and a margin, and their truncation.
//! * [`margin`] and [`session`]: the parameters of a session.
//! * [`order`]: the open order that is trailed, and how it is chosen.
//! * [`tracker`]: the watermark, which only rises.
//! * [`feed`]: the decision on each tick.
//! * [`replacer`]: cancel, then create.
//! * [`render`] and [`journal`]: numbers and log lines as text.
//! * [`greeting`]: the part of the day.

pub mod decimal;
pub mod level;
pub mod numeral;
pub mod render;
pub mod margin;
pub mod order;
pub mod tracker;
pub mod replacer;
pub mod feed;
pub mod session;
pub mod greeting;
pub mod journal;
