use trailing_stop::decimal::Decimal;
use trailing_stop::order::{get_open_order, Listing, Order, Side};

fn order_numbered(order_id: u64) -> Order {
    Order {
        symbol: String::from("BTCUSDT"),
        order_id,
        entry_price: Decimal::from_units(100),
        stop_price: Decimal::from_units(98),
        quantity: Decimal::parse("0.5").unwrap(),
        side: Side::Sell,
    }
}

#[test]
fn the_first_listed_order_is_taken() {
    let listing = Listing::Orders(vec![order_numbered(7), order_numbered(8), order_numbered(9)]);
    assert_eq!(get_open_order(listing), Some(order_numbered(7)));
}

#[test]
fn a_single_order_is_taken() {
    let listing = Listing::Orders(vec![order_numbered(11)]);
    assert_eq!(get_open_order(listing), Some(order_numbered(11)));
}

#[test]
fn an_empty_listing_holds_no_order() {
    assert_eq!(get_open_order(Listing::Orders(Vec::new())), None);
}

#[test]
fn a_failed_query_counts_as_no_order() {
    assert_eq!(get_open_order(Listing::Failed), None);
}
