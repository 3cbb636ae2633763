use triarb::arbitrage::{
    calculate_max_usdt_capacity, checked_simulate_leg, find_arbitrage_opportunity,
    simulate_leg, simulate_triangle, ArithmeticError,
};
use triarb::config::{Leg, TradeDirection, Triangle};
use triarb::decimal::Decimal;
use triarb::market_data::{OrderBook, OrderBookLevel};
use triarb::symbol_map::SymbolMap;

fn dec(mantissa: i64, scale: u32) -> Decimal {
    Decimal::new(mantissa, scale)
}

fn whole(v: i64) -> Decimal {
    Decimal::new(v, 0)
}

fn book(bids: Vec<(Decimal, Decimal)>, asks: Vec<(Decimal, Decimal)>) -> OrderBook {
    let level = |(price, quantity): (Decimal, Decimal)| OrderBookLevel { price, quantity };
    OrderBook {
        bids: bids.into_iter().map(level).collect(),
        asks: asks.into_iter().map(level).collect(),
        last_update_id: 7,
    }
}

fn leg(symbol: &str, base: &str, quote: &str, direction: TradeDirection) -> Leg {
    Leg {
        symbol: symbol.to_string(),
        base_asset: base.to_string(),
        quote_asset: quote.to_string(),
        direction,
    }
}

fn triangle() -> Triangle {
    Triangle {
        name: "USDT->A->B->USDT".to_string(),
        leg1: leg("AUSDT", "A", "USDT", TradeDirection::Buy),
        leg2: leg("AB", "A", "B", TradeDirection::Sell),
        leg3: leg("BUSDT", "B", "USDT", TradeDirection::Sell),
    }
}

/// 10 USDT buys 1 A, 1 A sells for 2 B, 1 B sells for 6 USDT: 20% before fees.
fn profitable_books() -> SymbolMap<OrderBook> {
    let mut books = SymbolMap::new();
    books.insert("AUSDT".to_string(), book(vec![], vec![(whole(10), whole(100))]));
    books.insert("AB".to_string(), book(vec![(whole(2), whole(1000))], vec![]));
    books.insert("BUSDT".to_string(), book(vec![(whole(6), whole(1000))], vec![]));
    books
}

#[test]
fn zero_volume_gives_nothing() {
    let b = book(vec![], vec![]);
    let r = simulate_leg(Decimal::zero(), TradeDirection::Buy, &b, dec(1, 3)).unwrap();
    assert_eq!(r, (Decimal::zero(), Decimal::zero()));
}

#[test]
fn empty_book_is_too_thin() {
    let b = book(vec![], vec![]);
    assert!(simulate_leg(whole(1), TradeDirection::Sell, &b, dec(1, 3)).is_none());
}

#[test]
fn overflowing_level_is_an_arithmetic_fault() {
    let big = Decimal::max_value();
    let b = book(vec![], vec![(big, big)]);
    let r = checked_simulate_leg(whole(1), TradeDirection::Buy, &b, dec(1, 3));
    assert_eq!(r.err(), Some(ArithmeticError));
}

#[test]
fn triangle_chains_the_net_outputs() {
    let books = profitable_books();
    // 10 USDT -> 1 A -> 0.999 A net -> 1.998 B -> 1.996002 B net -> 11.976012 USDT
    // -> 11.964035988 USDT net.
    let out = simulate_triangle(whole(10), &triangle(), &books, dec(1, 3)).unwrap();
    assert_eq!(out, dec(11964035988, 9));
}

#[test]
fn triangle_with_a_missing_book_gives_nothing() {
    let mut books = SymbolMap::new();
    books.insert("AUSDT".to_string(), book(vec![], vec![(whole(10), whole(100))]));
    assert!(simulate_triangle(whole(10), &triangle(), &books, dec(1, 3)).is_none());
    assert!(calculate_max_usdt_capacity(&triangle(), &books, dec(1, 3)).is_none());
}

#[test]
fn capacity_is_the_least_limit() {
    // Leg 1 can take 1000 USDT; legs 2 and 3 are deeper than leg 1 can feed.
    let cap = calculate_max_usdt_capacity(&triangle(), &profitable_books(), dec(1, 3)).unwrap();
    assert_eq!(cap, whole(1000));
}

#[test]
fn search_picks_the_most_profitable_volume() {
    let found = find_arbitrage_opportunity(
        &triangle(),
        &profitable_books(),
        dec(1, 3),
        dec(2, 3),
        dec(10, 1),
    )
    .unwrap();
    assert_eq!(found.path_name, "USDT->A->B->USDT");
    // The grid ends at the capacity, where the profit is largest.
    assert_eq!(found.optimal_volume, whole(1000));
    assert_eq!(found.expected_profit_usdt, dec(1964035988, 7));
    assert_eq!(found.expected_profit_pct, dec(1964035988, 8));
    assert_eq!(found.leg1_raw_qty, whole(100));
    assert_eq!(found.leg2_raw_qty, dec(999, 1));
    assert_eq!(found.leg3_raw_qty, dec(1996002, 4));
}

#[test]
fn search_finds_nothing_below_the_threshold() {
    // A 20% gross edge is not enough when the threshold is 50%.
    let found =
        find_arbitrage_opportunity(&triangle(), &profitable_books(), dec(1, 3), dec(5, 1), whole(1));
    assert!(found.is_none());
}

#[test]
fn search_finds_nothing_when_the_capacity_is_below_the_least_order() {
    let found = find_arbitrage_opportunity(
        &triangle(),
        &profitable_books(),
        dec(1, 3),
        dec(2, 3),
        whole(2000),
    );
    assert!(found.is_none());
}

#[test]
fn search_finds_nothing_on_a_losing_path() {
    let mut books = SymbolMap::new();
    books.insert("AUSDT".to_string(), book(vec![], vec![(whole(10), whole(100))]));
    books.insert("AB".to_string(), book(vec![(whole(2), whole(1000))], vec![]));
    books.insert("BUSDT".to_string(), book(vec![(whole(4), whole(1000))], vec![]));
    let found = find_arbitrage_opportunity(&triangle(), &books, dec(1, 3), dec(2, 3), whole(1));
    assert!(found.is_none());
}

#[test]
fn decimals_compare_by_value() {
    assert_eq!(dec(10, 1), whole(1));
    assert!(dec(999, 3) < whole(1));
    assert!(whole(2) > dec(19, 1));
    assert_ne!(dec(11, 1), whole(1));
}

#[test]
fn reverse_of_nothing_needs_nothing() {
    let b = book(vec![], vec![]);
    let r = triarb::arbitrage::reverse_simulate_leg(
        Decimal::zero(),
        TradeDirection::Sell,
        &b,
        dec(1, 3),
    );
    assert_eq!(r, Some(Decimal::zero()));
}

#[test]
fn symbol_map_reads_back_what_was_written() {
    let mut m: SymbolMap<u32> = SymbolMap::new();
    m.insert("A".to_string(), 1);
    m.insert("B".to_string(), 2);
    m.insert("A".to_string(), 3);
    assert_eq!(m.len(), 2);
    assert_eq!(m.get("A"), Some(&3));
    assert_eq!(m.get("B"), Some(&2));
    assert_eq!(m.get("C"), None);
    assert!(m.contains_key("B"));
    let copy = m.clone();
    assert_eq!(copy.get("A"), Some(&3));
}

#[test]
fn capacity_of_a_buying_second_leg_stays_within_its_asks() {
    // Leg 2 buys B with A: its asks hold 5 B at 2 A each, 10 A in all. Leg 1 needs a little
    // over 100 USDT to deliver 10 A net of the fee, far below what leg 1 and leg 3 could take.
    let t = Triangle {
        name: "USDT->A->B->USDT".to_string(),
        leg1: leg("AUSDT", "A", "USDT", TradeDirection::Buy),
        leg2: leg("BA", "B", "A", TradeDirection::Buy),
        leg3: leg("BUSDT", "B", "USDT", TradeDirection::Sell),
    };
    let mut books = SymbolMap::new();
    books.insert("AUSDT".to_string(), book(vec![], vec![(whole(10), whole(1000))]));
    books.insert("BA".to_string(), book(vec![], vec![(whole(2), whole(5))]));
    books.insert("BUSDT".to_string(), book(vec![(whole(30), whole(1000))], vec![]));
    let cap = calculate_max_usdt_capacity(&t, &books, dec(1, 3)).unwrap();
    assert!(cap > whole(100));
    assert!(cap < whole(101));
}
