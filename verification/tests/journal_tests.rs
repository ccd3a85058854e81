use trailing_stop::decimal::Decimal;
use trailing_stop::journal::{
    account_lines, balance_line, cancelled_line, close_line, order_not_found_line, request_lines,
    trade_line, update_line, AccountEvent, Balance, TradeReport,
};
use trailing_stop::level::Level;
use trailing_stop::order::{Order, Side};
use trailing_stop::replacer::StopLossReplacer;

fn holding(asset: &str, free: &str, locked: &str) -> Balance {
    Balance { asset: String::from(asset), free: String::from(free), locked: String::from(locked) }
}

fn execution() -> TradeReport {
    TradeReport {
        symbol: String::from("BTCUSDT"),
        side: String::from("SELL"),
        price: String::from("101.97000000"),
        execution_type: String::from("TRADE"),
    }
}

#[test]
fn a_balance_line_names_asset_free_and_locked() {
    assert_eq!(
        balance_line(&holding("BTC", "0.50000000", "0.25000000")),
        "Asset: BTC, free: 0.50000000, locked: 0.25000000"
    );
    assert_eq!(balance_line(&holding("", "", "")), "Asset: , free: , locked: ");
}

#[test]
fn a_trade_line_names_symbol_side_price_and_execution_type() {
    assert_eq!(
        trade_line(&execution()),
        "Symbol: BTCUSDT, Side: SELL, Price: 101.97000000, Execution Type: TRADE"
    );
}

#[test]
fn a_balance_update_gives_one_line_for_each_asset() {
    let event = AccountEvent::BalanceUpdate(vec![
        holding("BTC", "1", "0"),
        holding("USDT", "250.5", "100"),
        holding("BNB", "0", "3"),
    ]);
    assert_eq!(
        account_lines(&event),
        vec![
            String::from("Asset: BTC, free: 1, locked: 0"),
            String::from("Asset: USDT, free: 250.5, locked: 100"),
            String::from("Asset: BNB, free: 0, locked: 3"),
        ]
    );
    assert!(account_lines(&AccountEvent::BalanceUpdate(Vec::new())).is_empty());
}

#[test]
fn a_trade_gives_one_line() {
    assert_eq!(
        account_lines(&AccountEvent::OrderTrade(execution())),
        vec![String::from(
            "Symbol: BTCUSDT, Side: SELL, Price: 101.97000000, Execution Type: TRADE"
        )]
    );
}

#[test]
fn any_other_event_gives_no_line() {
    assert!(account_lines(&AccountEvent::Other).is_empty());
}

#[test]
fn the_feed_lines_carry_their_numbers() {
    assert_eq!(close_line(Decimal::from_units(103)), "Latest close price: 103.00000000");
    assert_eq!(close_line(Decimal::from_atoms(-1)), "Latest close price: -0.00000001");
    assert_eq!(order_not_found_line(), "Order not found");
    assert_eq!(
        update_line(Level::from_atoms(101_970_000_000_000_000_000)),
        "Updating stop loss! Recommended price: 101.970000000000000000"
    );
}

#[test]
fn the_replacement_lines_describe_both_orders() {
    let order = Order {
        symbol: String::from("BTCUSDT"),
        order_id: 7,
        entry_price: Decimal::from_units(100),
        stop_price: Decimal::from_units(102),
        quantity: Decimal::parse("0.25").unwrap(),
        side: Side::Sell,
    };
    assert_eq!(cancelled_line(&order), "Current order at price 100.00000000 cancelled");
    let stop = Level::from_atoms(101_970_000_000_000_000_000);
    let request = StopLossReplacer::new(order, stop).unwrap().request();
    assert_eq!(
        request_lines(&request),
        vec![
            String::from("Updating Symbol BTCUSDT"),
            String::from("Amount: 0.25000000"),
            String::from("Recommended price stop: 101.970000000000000000"),
            String::from("Recommended price limit: 99.970000000000000000"),
        ]
    );
}
