use trailing_stop::decimal::Decimal;
use trailing_stop::level::Level;
use trailing_stop::order::{Order, Side};
use trailing_stop::replacer::{
    Outcome, Phase, Step, StopLimitRequest, StopLossReplacer, TimeInForce,
};

fn price(text: &str) -> Decimal {
    Decimal::parse(text).unwrap()
}

fn stop_at(text: &str) -> Level {
    Level::from_decimal(price(text))
}

fn sell_order(entry: &str, stop: &str) -> Order {
    Order {
        symbol: String::from("ETHUSDT"),
        order_id: 9001,
        entry_price: price(entry),
        stop_price: price(stop),
        quantity: price("1.75"),
        side: Side::Sell,
    }
}

fn request_for(limit: Level, stop: Level) -> StopLimitRequest {
    StopLimitRequest {
        symbol: String::from("ETHUSDT"),
        quantity: price("1.75"),
        limit_price: limit,
        stop_price: stop,
        side: Side::Sell,
        time_in_force: TimeInForce::GoodTillCancelled,
    }
}

#[test]
fn a_replacement_starts_with_the_cancel() {
    let replacer = StopLossReplacer::new(sell_order("100", "102"), stop_at("105")).unwrap();
    assert_eq!(replacer.phase(), Phase::Cancel);
    assert_eq!(
        replacer.pending(),
        Step::Cancel { symbol: String::from("ETHUSDT"), order_id: 9001 }
    );
    assert_eq!(replacer.order(), &sell_order("100", "102"));
    assert_eq!(replacer.new_stop(), stop_at("105"));
}

#[test]
fn the_create_follows_a_successful_cancel() {
    let mut replacer = StopLossReplacer::new(sell_order("100", "102"), stop_at("105")).unwrap();
    replacer.report(true);
    assert_eq!(replacer.phase(), Phase::Create);
    assert_eq!(replacer.pending(), Step::Create(request_for(stop_at("103"), stop_at("105"))));
    replacer.report(true);
    assert_eq!(replacer.phase(), Phase::Finished(Outcome::Replaced));
    assert_eq!(replacer.pending(), Step::Done(Outcome::Replaced));
}

#[test]
fn a_failed_cancel_ends_the_replacement_without_a_create() {
    let mut replacer = StopLossReplacer::new(sell_order("100", "102"), stop_at("105")).unwrap();
    replacer.report(false);
    assert_eq!(replacer.phase(), Phase::Finished(Outcome::CancelFailed));
    assert_eq!(replacer.pending(), Step::Done(Outcome::CancelFailed));
    for succeeded in [true, false, true] {
        replacer.report(succeeded);
        assert_eq!(replacer.pending(), Step::Done(Outcome::CancelFailed));
    }
}

#[test]
fn a_failed_create_is_told_apart_from_a_failed_cancel() {
    let mut replacer = StopLossReplacer::new(sell_order("100", "102"), stop_at("105")).unwrap();
    replacer.report(true);
    replacer.report(false);
    assert_eq!(replacer.phase(), Phase::Finished(Outcome::CreateFailed));
    assert_eq!(replacer.pending(), Step::Done(Outcome::CreateFailed));
    replacer.report(true);
    assert_eq!(replacer.pending(), Step::Done(Outcome::CreateFailed));
}

#[test]
fn a_finished_replacement_takes_no_further_reports() {
    let mut replacer = StopLossReplacer::new(sell_order("100", "102"), stop_at("105")).unwrap();
    replacer.report(true);
    replacer.report(true);
    for succeeded in [false, true, false] {
        replacer.report(succeeded);
        assert_eq!(replacer.phase(), Phase::Finished(Outcome::Replaced));
    }
}

#[test]
fn the_create_is_pending_only_right_after_the_cancel_succeeded() {
    // every run of up to four reports
    for length in 0..=4u32 {
        for bits in 0..(1u32 << length) {
            let mut replacer =
                StopLossReplacer::new(sell_order("100", "102"), stop_at("105")).unwrap();
            let mut reports = Vec::new();
            for k in 0..length {
                let succeeded = bits & (1 << k) != 0;
                reports.push(succeeded);
                replacer.report(succeeded);
            }
            let creating = matches!(replacer.pending(), Step::Create(_));
            assert_eq!(creating, reports == [true], "{:?}", reports);
        }
    }
}

#[test]
fn the_new_order_keeps_the_spread_of_the_old_one() {
    // stop 102 on a price of 100: the limit stays 2 below the stop
    let replacer = StopLossReplacer::new(sell_order("100", "102"), stop_at("101.97")).unwrap();
    assert_eq!(replacer.request(), request_for(stop_at("99.97"), stop_at("101.97")));
    // stop 98 on a price of 100: the limit stays 2 above the stop
    let replacer = StopLossReplacer::new(sell_order("100", "98"), stop_at("101.97")).unwrap();
    assert_eq!(replacer.request(), request_for(stop_at("103.97"), stop_at("101.97")));
    // no spread at all
    let replacer = StopLossReplacer::new(sell_order("100", "100"), stop_at("101.97")).unwrap();
    assert_eq!(replacer.request(), request_for(stop_at("101.97"), stop_at("101.97")));
}

#[test]
fn the_new_order_carries_symbol_and_quantity_over() {
    let order = Order {
        symbol: String::from("BNBBTC"),
        order_id: 3,
        entry_price: price("0.0021"),
        stop_price: price("0.0022"),
        quantity: price("12.5"),
        side: Side::Buy,
    };
    let request = StopLossReplacer::new(order, stop_at("0.0025")).unwrap().request();
    assert_eq!(request.symbol, "BNBBTC");
    assert_eq!(request.quantity, price("12.5"));
    assert_eq!(request.side, Side::Sell);
    assert_eq!(request.time_in_force, TimeInForce::GoodTillCancelled);
    assert_eq!(request.stop_price, stop_at("0.0025"));
    assert_eq!(request.limit_price, stop_at("0.0024"));
}

#[test]
fn both_prices_are_cut_to_seven_places() {
    // stop 101.970000005, spread 0.00000001
    let stop = Level::from_atoms(101_970_000_005_000_000_000);
    let replacer = StopLossReplacer::new(sell_order("100", "100.00000001"), stop).unwrap();
    assert_eq!(replacer.new_stop(), stop);
    let request = replacer.request();
    assert_eq!(request.stop_price.atoms(), 101_970_000_000_000_000_000);
    // 101.970000005 - 0.00000001 = 101.969999995, cut to 101.9699999
    assert_eq!(request.limit_price.atoms(), 101_969_999_900_000_000_000);
}

#[test]
fn a_negative_limit_is_cut_towards_zero() {
    // stop 1.00000005, spread 3: the limit -1.99999995 is cut to -1.9999999
    let stop = Level::from_atoms(1_000_000_050_000_000_000);
    let request = StopLossReplacer::new(sell_order("100", "103"), stop).unwrap().request();
    assert_eq!(request.stop_price.atoms(), 1_000_000_000_000_000_000);
    assert_eq!(request.limit_price.atoms(), -1_999_999_900_000_000_000);
}

#[test]
fn a_limit_that_cannot_be_held_is_refused() {
    // the widest spread there is: about 1.8e29 level atoms
    let widest = Order {
        entry_price: Decimal::from_atoms(i64::MIN),
        stop_price: Decimal::from_atoms(i64::MAX),
        ..sell_order("0", "0")
    };
    let spread: i128 = (i64::MAX as i128 - i64::MIN as i128) * 10_000_000_000;
    let lowest = i128::MIN + spread;
    assert!(StopLossReplacer::new(widest.clone(), Level::from_atoms(i128::MIN)).is_none());
    assert!(StopLossReplacer::new(widest.clone(), Level::from_atoms(lowest - 1)).is_none());
    assert!(StopLossReplacer::new(widest.clone(), Level::from_atoms(lowest)).is_some());
    assert!(StopLossReplacer::new(widest, Level::from_atoms(i128::MAX)).is_some());
    let narrowest = Order {
        entry_price: Decimal::from_atoms(i64::MAX),
        stop_price: Decimal::from_atoms(i64::MIN),
        ..sell_order("0", "0")
    };
    let highest = i128::MAX - spread;
    assert!(StopLossReplacer::new(narrowest.clone(), Level::from_atoms(i128::MAX)).is_none());
    assert!(StopLossReplacer::new(narrowest.clone(), Level::from_atoms(highest + 1)).is_none());
    assert!(StopLossReplacer::new(narrowest.clone(), Level::from_atoms(highest)).is_some());
    assert!(StopLossReplacer::new(narrowest, Level::from_atoms(i128::MIN)).is_some());
}
