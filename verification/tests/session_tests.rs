use trailing_stop::decimal::Decimal;
use trailing_stop::feed::{Presence, PriceFeed};
use trailing_stop::level::Level;
use trailing_stop::margin::Margin;
use trailing_stop::session::Session;

fn two_percent() -> Margin {
    Margin::from_percent(Decimal::from_units(2)).unwrap()
}

#[test]
fn a_session_holds_its_symbol_and_margin() {
    let session = Session::new(String::from("BTCUSDT"), two_percent());
    assert_eq!(session.symbol, "BTCUSDT");
    assert_eq!(session.margin, two_percent());
}

#[test]
fn a_session_monitors_its_own_symbol_only() {
    let session = Session::new(String::from("BTCUSDT"), two_percent());
    assert!(session.monitors(&String::from("BTCUSDT")));
    assert!(!session.monitors(&String::from("ETHUSDT")));
    assert!(!session.monitors(&String::from("btcusdt")));
    assert!(!session.monitors(&String::from("BTCUSDT ")));
    assert!(!session.monitors(&String::new()));
}

#[test]
fn a_session_opens_a_fresh_feed() {
    let session = Session::new(String::from("BTCUSDT"), two_percent());
    let feed = session.open_feed();
    assert_eq!(feed, PriceFeed::new(two_percent()));
    assert_eq!(feed.watermark(), Level::zero());
    assert_eq!(feed.presence(), Presence::OrderAbsent);
    assert_eq!(feed.margin(), two_percent());
}
