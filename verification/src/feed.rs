//! The decision taken on each tick of the price feed: whether the resting
//! stop order stays, and where its replacement goes.

use vstd::prelude::*;
use crate::decimal::Decimal;
use crate::level::{Level, LEVEL_PER_ATOM};
use crate::margin::{Margin, WHOLE};
use crate::order::Order;
use crate::replacer::{representable, started, Replacement, StopLossReplacer};
use crate::tracker::{higher, TrailingStopTracker};

verus! {

/// The highest watermark that a feed can reach: the largest price, as a
/// level.
pub const WATERMARK_MAX: i128 = 92_233_720_368_547_758_070_000_000_000;

/// Whether the symbol had an open order on the latest tick.
#[derive(Clone, Copy, Debug, PartialEq, Eq)]
pub enum Presence {
    OrderAbsent,
    OrderPresent,
}

/// The state of a price feed, as a mathematical value.
pub struct FeedModel {
    /// The margin fraction in ten-billionths.
    pub margin: int,
    /// The watermark in level atoms.
    pub watermark: int,
    pub presence: Presence,
}

/// What a tick calls for, as a mathematical value.
pub enum Decision {
    /// No order now and none on the tick before.
    Idle,
    /// The order that was there on the tick before is gone.
    OrderNotFound,
    /// The order stays as it is.
    KeepStopLoss,
    /// The order is to be replaced, as this replacement says.
    Replace(Replacement),
}

/// The margin band at `price`, in level atoms: the price times the margin
/// fraction.
pub open spec fn margin_amount(price: int, margin: int) -> int {
    price * margin
}

/// The stop that `price` recommends, in level atoms: the price less its
/// margin band.
pub open spec fn margin_stop(price: int, margin: int) -> int {
    price * LEVEL_PER_ATOM - margin_amount(price, margin)
}

/// Whether `price` has run further above `entry` than one margin band.
pub open spec fn trigger_fires(price: int, entry: int, margin: int) -> bool {
    (price - entry) * LEVEL_PER_ATOM > margin_amount(price, margin)
}

/// The feed after a tick at `price`, on which the query for the open order
/// gave `order`.
pub open spec fn after_tick(pre: FeedModel, price: int, order: Option<Order>) -> FeedModel {
    match order {
        None => FeedModel { presence: Presence::OrderAbsent, ..pre },
        Some(_) => FeedModel {
            watermark: higher(pre.watermark, margin_stop(price, pre.margin)),
            presence: Presence::OrderPresent,
            ..pre
        },
    }
}

/// What a tick at `price` calls for, on which the query for the open order
/// gave `order`.
pub open spec fn decide(pre: FeedModel, price: int, order: Option<Order>) -> Decision {
    match order {
        None => if pre.presence == Presence::OrderPresent {
            Decision::OrderNotFound
        } else {
            Decision::Idle
        },
        Some(resting) => if trigger_fires(price, resting.entry_price@, pre.margin) {
            Decision::Replace(started(resting, after_tick(pre, price, order).watermark))
        } else {
            Decision::KeepStopLoss
        },
    }
}

/// What the caller is to do after a tick.
#[derive(Debug, PartialEq, Eq)]
pub enum TickAction {
    /// Nothing: no order now and none on the tick before.
    Idle,
    /// Give notice that the order is gone.
    OrderNotFound,
    /// Nothing: the order stays as it is.
    KeepStopLoss,
    /// Run this replacement.
    Replace(StopLossReplacer),
}

impl View for TickAction {
    type V = Decision;

    open spec fn view(&self) -> Decision {
        match *self {
            TickAction::Idle => Decision::Idle,
            TickAction::OrderNotFound => Decision::OrderNotFound,
            TickAction::KeepStopLoss => Decision::KeepStopLoss,
            TickAction::Replace(replacer) => Decision::Replace(replacer@),
        }
    }
}

/// The state that the price feed keeps between ticks.
#[derive(Debug, PartialEq, Eq)]
pub struct PriceFeed {
    margin: Margin,
    tracker: TrailingStopTracker,
    presence: Presence,
}

impl View for PriceFeed {
    type V = FeedModel;

    closed spec fn view(&self) -> FeedModel {
        FeedModel { margin: self.margin@, watermark: self.tracker@, presence: self.presence }
    }
}

/// The bounds within which a feed's state stays.
pub open spec fn feed_wf(m: FeedModel) -> bool {
    &&& 0 < m.margin < WHOLE
    &&& 0 <= m.watermark <= WATERMARK_MAX
}

/// The band of a price is smaller than the price, and the stop that a price
/// recommends is no higher than a watermark can be.
proof fn lemma_tick_bounds(price: int, margin: int)
    requires
        i64::MIN <= price <= i64::MAX,
        0 < margin < WHOLE,
    ensures
        -WATERMARK_MAX - WHOLE <= margin_amount(price, margin) <= WATERMARK_MAX,
        -WATERMARK_MAX - WHOLE <= margin_stop(price, margin) <= WATERMARK_MAX,
{
    assert(price * margin <= 9_223_372_036_854_775_807 * 10_000_000_000
        && price * margin >= -9_223_372_036_854_775_808 * 10_000_000_000
        && price * 10_000_000_000 - price * margin <= 9_223_372_036_854_775_807
        * 10_000_000_000 && price * 10_000_000_000 - price * margin
        >= -9_223_372_036_854_775_808 * 10_000_000_000) by (nonlinear_arith)
        requires
            -9_223_372_036_854_775_808 <= price <= 9_223_372_036_854_775_807,
            0 < margin < 10_000_000_000,
    ;
}

/// The margin band at `price`: the price times the margin fraction.
pub fn margin_band(price: Decimal, margin: Margin) -> (band: Level)
    ensures
        band@ == margin_amount(price@, margin@),
{
    proof {
        use_type_invariant(margin);
        lemma_tick_bounds(price@, margin@);
    }
    let close: i128 = price.atoms as i128;
    let fraction: i128 = margin.percent().atoms as i128;
    Level { atoms: close * fraction }
}

/// The stop that `price` recommends: the price less its margin band.
pub fn recommended_stop(price: Decimal, margin: Margin) -> (stop: Level)
    ensures
        stop@ == margin_stop(price@, margin@),
        -WATERMARK_MAX - WHOLE <= stop@ <= WATERMARK_MAX,
{
    proof {
        use_type_invariant(margin);
        lemma_tick_bounds(price@, margin@);
    }
    let close: i128 = price.atoms as i128;
    let band: Level = margin_band(price, margin);
    Level { atoms: close * LEVEL_PER_ATOM - band.atoms }
}

impl PriceFeed {
    /// The margin is a fraction and the watermark is in range.
    #[verifier::type_invariant]
    pub open spec fn wf(self) -> bool {
        feed_wf(self@)
    }

    /// A feed at the start of a session: the watermark at zero, no order
    /// seen yet.
    pub fn new(margin: Margin) -> (feed: PriceFeed)
        ensures
            feed@ == (FeedModel {
                margin: margin@,
                watermark: 0,
                presence: Presence::OrderAbsent,
            }),
    {
        proof {
            use_type_invariant(margin);
        }
        PriceFeed {
            margin,
            tracker: TrailingStopTracker::new(),
            presence: Presence::OrderAbsent,
        }
    }

    /// The margin of the session.
    pub fn margin(&self) -> (margin: Margin)
        ensures
            margin@ == self@.margin,
    {
        self.margin
    }

    /// The highest stop level recommended so far.
    pub fn watermark(&self) -> (level: Level)
        ensures
            level@ == self@.watermark,
    {
        self.tracker.load()
    }

    /// Whether the latest tick found an open order.
    pub fn presence(&self) -> (presence: Presence)
        ensures
            presence == self@.presence,
    {
        self.presence
    }

    /// Runs one decision cycle: `price` is the close price of the tick and
    /// `order` what the query for the open order gave.
    pub fn on_tick(&mut self, price: Decimal, order: Option<Order>) -> (action: TickAction)
        ensures
            final(self)@ == after_tick(old(self)@, price@, order),
            action@ == decide(old(self)@, price@, order),
            final(self)@.watermark >= old(self)@.watermark,
            order is None ==> final(self)@.watermark == old(self)@.watermark,
            action@ is Replace <==> order is Some && trigger_fires(
                price@,
                order->0.entry_price@,
                old(self)@.margin,
            ),
            action@ is OrderNotFound <==> order is None && old(self)@.presence is OrderPresent,
    {
        proof {
            use_type_invariant(&*self);
        }
        match order {
            None => {
                let seen: Presence = self.presence;
                self.presence = Presence::OrderAbsent;
                match seen {
                    Presence::OrderPresent => TickAction::OrderNotFound,
                    Presence::OrderAbsent => TickAction::Idle,
                }
            },
            Some(resting) => {
                proof {
                    lemma_tick_bounds(price@, self@.margin);
                }
                let band: Level = margin_band(price, self.margin);
                let candidate: Level = recommended_stop(price, self.margin);
                self.presence = Presence::OrderPresent;
                let stop: Level = self.tracker.raise(candidate);
                let gain: i128 = (price.atoms as i128 - resting.entry_price.atoms as i128)
                    * LEVEL_PER_ATOM;
                if gain > band.atoms {
                    TickAction::Replace(StopLossReplacer::begin(resting, stop))
                } else {
                    TickAction::KeepStopLoss
                }
            },
        }
    }
}

/// One tick as the feed sees it: the close price and what the query for
/// the open order gave.
pub struct Tick {
    pub price: Decimal,
    pub order: Option<Order>,
}

/// The feed after `ticks`, taken in order.
pub open spec fn after_ticks(pre: FeedModel, ticks: Seq<Tick>) -> FeedModel
    decreases ticks.len(),
{
    if ticks.len() == 0 {
        pre
    } else {
        after_tick(after_ticks(pre, ticks.drop_last()), ticks.last().price@, ticks.last().order)
    }
}

/// Trigger threshold: a tick that finds an open order calls for its
/// replacement exactly when the price lies above the order's entry price by
/// more than the price times the margin fraction. A tick that finds no order
/// never calls for one.
pub proof fn lemma_trigger_threshold(pre: FeedModel, price: int, order: Order)
    ensures
        decide(pre, price, Some(order)) is Replace <==> (price - order.entry_price@)
            * LEVEL_PER_ATOM > price * pre.margin,
        !(decide(pre, price, Some(order)) is Replace) ==> decide(pre, price, Some(order))
            is KeepStopLoss,
        !(decide(pre, price, None) is Replace),
{
}

/// A replacement that a tick calls for has not made any call yet, replaces
/// the order that the tick found, and aims at the watermark as the tick
/// leaves it.
pub proof fn lemma_replacement_aims_at_watermark(pre: FeedModel, price: int, order: Order)
    requires
        decide(pre, price, Some(order)) is Replace,
    ensures
        decide(pre, price, Some(order)) == Decision::Replace(
            started(order, higher(pre.watermark, margin_stop(price, pre.margin))),
        ),
{
}

/// The replacement that a tick calls for can always be prepared: the limit
/// price below any watermark that a feed can hold fits in a level.
pub proof fn lemma_replacement_can_be_prepared(pre: FeedModel, price: Decimal, order: Order)
    requires
        feed_wf(pre),
    ensures
        representable(order, after_tick(pre, price@, Some(order)).watermark),
{
    lemma_tick_bounds(price@, pre.margin);
}

/// No-order idempotence: of two ticks in a row that find no open order, the
/// second gives no notice, so the two give one notice at most.
pub proof fn lemma_absence_noticed_once(pre: FeedModel, first: int, second: int)
    ensures
        decide(after_tick(pre, first, None), second, None) is Idle,
        decide(pre, first, None) is OrderNotFound <==> pre.presence is OrderPresent,
        after_tick(pre, first, None).watermark == pre.watermark,
{
}

/// Monotonic watermark, one tick: no tick lowers the watermark.
pub proof fn lemma_watermark_never_falls(pre: FeedModel, price: int, order: Option<Order>)
    ensures
        after_tick(pre, price, order).watermark >= pre.watermark,
        after_tick(pre, price, order).margin == pre.margin,
{
}

/// A feed stays within its bounds.
pub proof fn lemma_tick_keeps_bounds(pre: FeedModel, price: Decimal, order: Option<Order>)
    requires
        feed_wf(pre),
    ensures
        feed_wf(after_tick(pre, price@, order)),
{
    lemma_tick_bounds(price@, pre.margin);
}

/// Monotonic watermark: after any run of ticks the watermark is the highest
/// of the watermark before the run and the stops recommended by the ticks of
/// the run that found an open order. It is at least each of them, and it is
/// one of them.
pub proof fn lemma_watermark_is_highest_stop(pre: FeedModel, ticks: Seq<Tick>)
    ensures
        after_ticks(pre, ticks).margin == pre.margin,
        after_ticks(pre, ticks).watermark >= pre.watermark,
        forall|i: int|
            0 <= i < ticks.len() && ticks[i].order is Some ==> after_ticks(pre, ticks).watermark
                >= margin_stop(#[trigger] ticks[i].price@, pre.margin),
        after_ticks(pre, ticks).watermark == pre.watermark || exists|i: int|
            0 <= i < ticks.len() && ticks[i].order is Some && after_ticks(pre, ticks).watermark
                == margin_stop(#[trigger] ticks[i].price@, pre.margin),
    decreases ticks.len(),
{
    if ticks.len() > 0 {
        let earlier = ticks.drop_last();
        let last = ticks.last();
        lemma_watermark_is_highest_stop(pre, earlier);
        let before = after_ticks(pre, earlier);
        let now = after_ticks(pre, ticks);
        assert(now == after_tick(before, last.price@, last.order));
        assert forall|i: int| 0 <= i < ticks.len() && ticks[i].order is Some implies now.watermark
            >= margin_stop(#[trigger] ticks[i].price@, pre.margin) by {
            if i < earlier.len() {
                assert(earlier[i] == ticks[i]);
            }
        }
        if now.watermark != pre.watermark {
            if now.watermark == before.watermark {
                let i = choose|i: int|
                    0 <= i < earlier.len() && earlier[i].order is Some && before.watermark
                        == margin_stop(#[trigger] earlier[i].price@, pre.margin);
                assert(ticks[i] == earlier[i]);
            } else {
                assert(ticks[ticks.len() - 1] == last);
            }
        }
    }
}

/// Monotonic watermark, along a run: the watermark after the first `shorter`
/// ticks of a run is no higher than after the first `longer` ones.
pub proof fn lemma_watermark_monotonic(pre: FeedModel, ticks: Seq<Tick>, shorter: int, longer: int)
    requires
        0 <= shorter <= longer <= ticks.len(),
    ensures
        after_ticks(pre, ticks.take(shorter)).watermark <= after_ticks(
            pre,
            ticks.take(longer),
        ).watermark,
    decreases longer - shorter,
{
    if shorter < longer {
        lemma_watermark_monotonic(pre, ticks, shorter, longer - 1);
        assert(ticks.take(longer).drop_last() == ticks.take(longer - 1));
    }
}

/// Monotonic watermark, from the start of a session: where every tick of a
/// run found an open order and one of the prices is not negative, the
/// watermark after the run is the highest of the stops that the ticks
/// recommend.
pub proof fn lemma_session_watermark_is_highest_stop(margin: int, ticks: Seq<Tick>)
    requires
        0 < margin < WHOLE,
        forall|i: int| 0 <= i < ticks.len() ==> (#[trigger] ticks[i]).order is Some,
        exists|i: int| 0 <= i < ticks.len() && (#[trigger] ticks[i]).price@ >= 0,
    ensures
        ({
            let fresh = FeedModel { margin, watermark: 0, presence: Presence::OrderAbsent };
            let mark = after_ticks(fresh, ticks).watermark;
            &&& forall|i: int|
                0 <= i < ticks.len() ==> mark >= margin_stop(#[trigger] ticks[i].price@, margin)
            &&& exists|i: int|
                0 <= i < ticks.len() && mark == margin_stop(#[trigger] ticks[i].price@, margin)
        }),
{
    let fresh = FeedModel { margin, watermark: 0, presence: Presence::OrderAbsent };
    let mark = after_ticks(fresh, ticks).watermark;
    lemma_watermark_is_highest_stop(fresh, ticks);
    let j = choose|i: int| 0 <= i < ticks.len() && (#[trigger] ticks[i]).price@ >= 0;
    let p = ticks[j].price@;
    assert(margin_stop(p, margin) >= 0) by (nonlinear_arith)
        requires
            p >= 0,
            0 < margin < 10_000_000_000,
            margin_stop(p, margin) == p * 10_000_000_000 - p * margin,
    ;
    if mark == 0 {
        assert(ticks[j].order is Some);
        assert(mark >= margin_stop(ticks[j].price@, margin));
    }
}

} // verus!
