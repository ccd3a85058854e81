//! Replacing a resting stop order: cancel it, and only when the exchange
//! has confirmed that, place the new stop-limit order.

use vstd::prelude::*;
use crate::decimal::Decimal;
use crate::level::{
    grid_step, lemma_truncation_never_grows, truncated, Level, LEVEL_PER_ATOM, QUOTE_PLACES,
};
use crate::order::{Order, Side};

verus! {

/// How long an order stays on the book.
#[derive(Clone, Copy, Debug, PartialEq, Eq)]
pub enum TimeInForce {
    GoodTillCancelled,
    ImmediateOrCancel,
    FillOrKill,
}

/// The parameters of the stop-limit order that takes the place of the
/// cancelled one.
#[derive(Clone, Debug, PartialEq, Eq)]
pub struct StopLimitRequest {
    pub symbol: String,
    pub quantity: Decimal,
    pub limit_price: Level,
    pub stop_price: Level,
    pub side: Side,
    pub time_in_force: TimeInForce,
}

/// How a replacement ended.
#[derive(Clone, Copy, Debug, PartialEq, Eq)]
pub enum Outcome {
    /// The old order is cancelled and the new one rests on the book.
    Replaced,
    /// The cancel was refused; the old order is untouched.
    CancelFailed,
    /// The old order is cancelled and the new one was refused: no stop
    /// order rests on the book.
    CreateFailed,
}

/// Where a replacement stands.
#[derive(Clone, Copy, Debug, PartialEq, Eq)]
pub enum Phase {
    /// The cancel is due or under way.
    Cancel,
    /// The cancel succeeded; the create is due or under way.
    Create,
    Finished(Outcome),
}

/// The exchange call that a replacement waits for.
#[derive(Clone, Debug, PartialEq, Eq)]
pub enum Step {
    Cancel { symbol: String, order_id: u64 },
    Create(StopLimitRequest),
    Done(Outcome),
}

/// The state of one replacement, as a mathematical value.
pub struct Replacement {
    pub order: Order,
    pub new_stop: int,
    pub phase: Phase,
}

/// The limit price that keeps the old order's spread below the stop
/// `new_stop`, in level atoms and before truncation.
pub open spec fn limit_target(order: Order, new_stop: int) -> int {
    new_stop - order.spread() * LEVEL_PER_ATOM
}

/// Whether the limit price for `new_stop` can be held in a `Level`.
pub open spec fn representable(order: Order, new_stop: int) -> bool {
    i128::MIN <= limit_target(order, new_stop) <= i128::MAX
}

/// The order that replaces `order` with its stop moved to `new_stop`: a
/// good-till-cancelled stop-limit sell of the same quantity, both prices cut
/// to the digits that the exchange quotes.
pub open spec fn replacement_request(order: Order, new_stop: int) -> StopLimitRequest {
    StopLimitRequest {
        symbol: order.symbol,
        quantity: order.quantity,
        limit_price: Level {
            atoms: truncated(limit_target(order, new_stop), QUOTE_PLACES as nat) as i128,
        },
        stop_price: Level { atoms: truncated(new_stop, QUOTE_PLACES as nat) as i128 },
        side: Side::Sell,
        time_in_force: TimeInForce::GoodTillCancelled,
    }
}

/// A replacement that has not made any call yet.
pub open spec fn started(order: Order, new_stop: int) -> Replacement {
    Replacement { order, new_stop, phase: Phase::Cancel }
}

/// The phase that follows `phase` once the call it waits for has ended.
pub open spec fn next_phase(phase: Phase, succeeded: bool) -> Phase {
    match phase {
        Phase::Cancel => if succeeded {
            Phase::Create
        } else {
            Phase::Finished(Outcome::CancelFailed)
        },
        Phase::Create => if succeeded {
            Phase::Finished(Outcome::Replaced)
        } else {
            Phase::Finished(Outcome::CreateFailed)
        },
        Phase::Finished(outcome) => Phase::Finished(outcome),
    }
}

/// The replacement after the call it waited for has ended.
pub open spec fn reported(m: Replacement, succeeded: bool) -> Replacement {
    Replacement { phase: next_phase(m.phase, succeeded), ..m }
}

/// The call that the replacement waits for.
pub open spec fn pending_step(m: Replacement) -> Step {
    match m.phase {
        Phase::Cancel => Step::Cancel { symbol: m.order.symbol, order_id: m.order.order_id },
        Phase::Create => Step::Create(replacement_request(m.order, m.new_stop)),
        Phase::Finished(outcome) => Step::Done(outcome),
    }
}

/// One replacement of a stop order, from the cancel to its outcome.
#[derive(Debug, PartialEq, Eq)]
pub struct StopLossReplacer {
    order: Order,
    new_stop: Level,
    phase: Phase,
}

impl View for StopLossReplacer {
    type V = Replacement;

    closed spec fn view(&self) -> Replacement {
        Replacement { order: self.order, new_stop: self.new_stop@, phase: self.phase }
    }
}

impl StopLossReplacer {
    /// The new limit price can be held.
    #[verifier::type_invariant]
    pub open spec fn wf(self) -> bool {
        representable(self@.order, self@.new_stop)
    }

    /// Prepares the replacement of `order` by one whose stop is `new_stop`.
    ///
    /// Nothing is prepared where the new limit price cannot be held in a
    /// `Level`.
    pub fn new(order: Order, new_stop: Level) -> (r: Option<StopLossReplacer>)
        ensures
            r is Some <==> representable(order, new_stop@),
            r matches Some(replacer) ==> replacer@ == started(order, new_stop@),
    {
        let spread: i128 = order.stop_price.atoms as i128 - order.entry_price.atoms as i128;
        let shift: i128 = spread * LEVEL_PER_ATOM;
        match new_stop.atoms.checked_sub(shift) {
            Some(_) => Some(StopLossReplacer::begin(order, new_stop)),
            None => None,
        }
    }

    /// The replacement of `order` by one whose stop is `new_stop`, before
    /// its first call.
    pub(crate) fn begin(order: Order, new_stop: Level) -> (replacer: StopLossReplacer)
        requires
            representable(order, new_stop@),
        ensures
            replacer@ == started(order, new_stop@),
    {
        StopLossReplacer { order, new_stop, phase: Phase::Cancel }
    }

    /// The order that is being replaced.
    pub fn order(&self) -> (order: &Order)
        ensures
            *order == self@.order,
    {
        &self.order
    }

    /// The stop level that the new order aims at, before truncation.
    pub fn new_stop(&self) -> (level: Level)
        ensures
            level@ == self@.new_stop,
    {
        self.new_stop
    }

    /// Where the replacement stands.
    pub fn phase(&self) -> (phase: Phase)
        ensures
            phase == self@.phase,
    {
        self.phase
    }

    /// The parameters of the new order.
    pub fn request(&self) -> (request: StopLimitRequest)
        ensures
            request == replacement_request(self@.order, self@.new_stop),
            request.stop_price@ == truncated(self@.new_stop, QUOTE_PLACES as nat),
            request.limit_price@ == truncated(
                self@.new_stop - (self@.order.stop_price@ - self@.order.entry_price@)
                    * LEVEL_PER_ATOM,
                QUOTE_PLACES as nat,
            ),
    {
        proof {
            use_type_invariant(self);
            lemma_truncation_never_grows(
                limit_target(self@.order, self@.new_stop),
                QUOTE_PLACES as nat,
            );
        }
        let spread: i128 = self.order.stop_price.atoms as i128
            - self.order.entry_price.atoms as i128;
        let limit: Level = Level { atoms: self.new_stop.atoms - spread * LEVEL_PER_ATOM };
        StopLimitRequest {
            symbol: self.order.symbol.clone(),
            quantity: self.order.quantity,
            limit_price: limit.truncate(QUOTE_PLACES),
            stop_price: self.new_stop.truncate(QUOTE_PLACES),
            side: Side::Sell,
            time_in_force: TimeInForce::GoodTillCancelled,
        }
    }

    /// The exchange call to make next, or the outcome once none is left.
    pub fn pending(&self) -> (step: Step)
        ensures
            step == pending_step(self@),
            step is Create <==> self@.phase is Create,
    {
        match self.phase {
            Phase::Cancel => Step::Cancel {
                symbol: self.order.symbol.clone(),
                order_id: self.order.order_id,
            },
            Phase::Create => Step::Create(self.request()),
            Phase::Finished(outcome) => Step::Done(outcome),
        }
    }

    /// Takes note of how the pending call ended. Once the replacement is
    /// finished, further reports change nothing.
    pub fn report(&mut self, succeeded: bool)
        ensures
            final(self)@ == reported(old(self)@, succeeded),
            final(self)@.phase is Create <==> old(self)@.phase is Cancel && succeeded,
    {
        proof {
            use_type_invariant(&*self);
        }
        let next: Phase = match self.phase {
            Phase::Cancel => if succeeded {
                Phase::Create
            } else {
                Phase::Finished(Outcome::CancelFailed)
            },
            Phase::Create => if succeeded {
                Phase::Finished(Outcome::Replaced)
            } else {
                Phase::Finished(Outcome::CreateFailed)
            },
            Phase::Finished(outcome) => Phase::Finished(outcome),
        };
        self.phase = next;
    }
}

/// The replacement after the calls it waited for have ended as `reports`
/// says, in that order.
pub open spec fn after_reports(m: Replacement, reports: Seq<bool>) -> Replacement
    decreases reports.len(),
{
    if reports.len() == 0 {
        m
    } else {
        reported(after_reports(m, reports.drop_last()), reports.last())
    }
}

/// Cancel before create: a report leads to the create step only from the
/// cancel step, and only where the cancel succeeded.
pub proof fn lemma_create_needs_cancel_success(m: Replacement, succeeded: bool)
    ensures
        pending_step(reported(m, succeeded)) is Create <==> m.phase is Cancel && succeeded,
{
}

/// Cancel before create, over a whole replacement: whatever its calls
/// report, a replacement waits for the create exactly when one call has
/// ended so far, the cancel, and has succeeded. After two reports it is
/// finished.
pub proof fn lemma_create_only_after_cancel_succeeded(
    order: Order,
    new_stop: int,
    reports: Seq<bool>,
)
    ensures
        pending_step(after_reports(started(order, new_stop), reports)) is Create <==> reports.len()
            == 1 && reports[0],
        reports.len() >= 2 ==> after_reports(started(order, new_stop), reports).phase is Finished,
    decreases reports.len(),
{
    let start = started(order, new_stop);
    if reports.len() > 0 {
        let earlier = reports.drop_last();
        lemma_create_only_after_cancel_succeeded(order, new_stop, earlier);
        if earlier.len() == 0 {
            assert(after_reports(start, earlier) == start);
        } else if earlier.len() == 1 {
            assert(earlier.drop_last().len() == 0);
            assert(after_reports(start, earlier.drop_last()) == start);
            assert(earlier[0] == reports[0]);
        }
    }
}

/// A multiple of a step stays one when its sign is turned.
proof fn lemma_negated_multiple(x: int, step: int)
    requires
        step > 0,
        x % step == 0,
    ensures
        (-x) % step == 0,
{
    vstd::arithmetic::div_mod::lemma_fundamental_div_mod(x, step);
    vstd::arithmetic::mul::lemma_mul_unary_negation(step, x / step);
    vstd::arithmetic::div_mod::lemma_mod_multiples_basic(-(x / step), step);
    vstd::arithmetic::mul::lemma_mul_is_commutative(step, -(x / step));
}

/// Spread preservation: the new limit price is the new stop less the spread
/// of the old order, cut to the digits that the exchange quotes. Where that
/// difference has no further digits, the limit price is the difference
/// itself.
pub proof fn lemma_spread_preserved(order: Order, new_stop: int)
    requires
        representable(order, new_stop),
    ensures
        replacement_request(order, new_stop).limit_price@ == truncated(
            new_stop - (order.stop_price@ - order.entry_price@) * LEVEL_PER_ATOM,
            QUOTE_PLACES as nat,
        ),
        (new_stop - (order.stop_price@ - order.entry_price@) * LEVEL_PER_ATOM) % grid_step(
            QUOTE_PLACES as nat,
        ) == 0 ==> replacement_request(order, new_stop).limit_price@ == new_stop - (
        order.stop_price@ - order.entry_price@) * LEVEL_PER_ATOM,
{
    let target = limit_target(order, new_stop);
    let step = grid_step(QUOTE_PLACES as nat);
    lemma_truncation_never_grows(target, QUOTE_PLACES as nat);
    if target % step == 0 && target < 0 {
        lemma_negated_multiple(target, step);
    }
}

/// Spread preservation, for the pair of prices: where the new stop has no
/// more digits than the exchange quotes and the new limit can be held, the
/// prices of the new order lie as far apart as the trigger and the price of
/// the old one, to the digits that the exchange quotes.
pub proof fn lemma_band_keeps_its_shape(order: Order, new_stop: int)
    requires
        representable(order, new_stop),
        i128::MIN <= new_stop <= i128::MAX,
        new_stop % grid_step(QUOTE_PLACES as nat) == 0,
    ensures
        replacement_request(order, new_stop).stop_price@ == new_stop,
        (order.spread() * LEVEL_PER_ATOM) % grid_step(QUOTE_PLACES as nat) == 0
            ==> replacement_request(order, new_stop).stop_price@ - replacement_request(
            order,
            new_stop,
        ).limit_price@ == order.spread() * LEVEL_PER_ATOM,
{
    let step = grid_step(QUOTE_PLACES as nat);
    let shift = order.spread() * LEVEL_PER_ATOM;
    let target = limit_target(order, new_stop);
    lemma_truncation_never_grows(target, QUOTE_PLACES as nat);
    lemma_truncation_never_grows(new_stop, QUOTE_PLACES as nat);
    if new_stop < 0 {
        lemma_negated_multiple(new_stop, step);
    }
    if shift % step == 0 {
        assert(target % step == 0) by {
            vstd::arithmetic::div_mod::lemma_sub_mod_noop(new_stop, shift, step);
        }
        if target < 0 {
            lemma_negated_multiple(target, step);
        }
    }
}

} // verus!
