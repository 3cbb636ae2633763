use triarb::arbitrage::{calculate_max_usdt_capacity, reverse_simulate_leg, simulate_leg};
use triarb::config::{Leg, TradeDirection, Triangle};
use triarb::decimal::Decimal;
use triarb::market_data::{OrderBook, OrderBookLevel};
use triarb::symbol_map::SymbolMap;

/// A decimal written with one fractional digit: `tenths / 10`.
fn d1(tenths: i64) -> Decimal {
    Decimal::new(tenths, 1)
}

fn level(price: Decimal, quantity: Decimal) -> OrderBookLevel {
    OrderBookLevel { price, quantity }
}

fn mock_buy_book() -> OrderBook {
    OrderBook {
        bids: vec![],
        asks: vec![level(d1(1000), d1(10)), level(d1(1010), d1(20))],
        last_update_id: 1,
    }
}

fn mock_sell_book() -> OrderBook {
    OrderBook {
        bids: vec![level(d1(990), d1(10)), level(d1(980), d1(20))],
        asks: vec![],
        last_update_id: 1,
    }
}

#[test]
fn test_simulate_leg_buy() {
    let book = mock_buy_book();
    let fee = Decimal::new(1, 3); // 0.1%

    // Spend 100 USDT (exactly matches level 0)
    let res = simulate_leg(d1(1000), TradeDirection::Buy, &book, fee).unwrap();
    assert_eq!(res.0, d1(10)); // raw A
    assert_eq!(res.1, Decimal::new(999, 3)); // net A

    // Spend 201 USDT (fills level 0 completely and partially level 1: 100 + 101 = 201)
    let res2 = simulate_leg(d1(2010), TradeDirection::Buy, &book, fee).unwrap();
    assert_eq!(res2.0, d1(20)); // raw A
    assert_eq!(res2.1, Decimal::new(1998, 3)); // net A

    // Spend 500 USDT (exceeds total depth of 1*100 + 2*101 = 302)
    let res3 = simulate_leg(d1(5000), TradeDirection::Buy, &book, fee);
    assert!(res3.is_none());
}

#[test]
fn test_simulate_leg_sell() {
    let book = mock_sell_book();
    let fee = Decimal::new(1, 3); // 0.1%

    // Sell 1.0 base asset (fills level 0)
    let res = simulate_leg(d1(10), TradeDirection::Sell, &book, fee).unwrap();
    assert_eq!(res.0, d1(990)); // raw USDT
    assert_eq!(res.1, Decimal::new(98901, 3)); // net USDT (99 * 0.999)

    // Sell 2.0 base asset (fills level 0 completely, and 1.0 of level 1: 1*99 + 1*98 = 197)
    let res2 = simulate_leg(d1(20), TradeDirection::Sell, &book, fee).unwrap();
    assert_eq!(res2.0, d1(1970)); // raw USDT
    assert_eq!(res2.1, Decimal::new(196803, 3)); // net USDT (197 * 0.999)

    // Sell 5.0 base asset (exceeds total depth of 1 + 2 = 3)
    let res3 = simulate_leg(d1(50), TradeDirection::Sell, &book, fee);
    assert!(res3.is_none());
}

#[test]
fn test_reverse_simulate_leg() {
    let buy_book = mock_buy_book();
    let sell_book = mock_sell_book();
    let fee = Decimal::new(1, 3);

    // Desired output from BUY: 0.999 net base asset
    let input1 =
        reverse_simulate_leg(Decimal::new(999, 3), TradeDirection::Buy, &buy_book, fee).unwrap();
    assert_eq!(input1, d1(1000)); // Should cost 100 USDT

    // Desired output from SELL: 98.901 net quote asset
    let input2 =
        reverse_simulate_leg(Decimal::new(98901, 3), TradeDirection::Sell, &sell_book, fee)
            .unwrap();
    assert_eq!(input2, d1(10)); // Should require selling 1.0 base asset
}

fn leg(symbol: &str, base: &str, quote: &str, direction: TradeDirection) -> Leg {
    Leg {
        symbol: symbol.to_string(),
        base_asset: base.to_string(),
        quote_asset: quote.to_string(),
        direction,
    }
}

#[test]
fn test_calculate_max_usdt_capacity() {
    let triangle = Triangle {
        name: "USDT->A->B->USDT".to_string(),
        leg1: leg("AUSDT", "A", "USDT", TradeDirection::Buy),
        leg2: leg("AB", "A", "B", TradeDirection::Sell),
        leg3: leg("BUSDT", "B", "USDT", TradeDirection::Sell),
    };

    let mut books = SymbolMap::new();
    // Leg 1: Buy A/USDT.
    // Asks: price 100, qty 1; price 101, qty 2. Max cost = 1*100 + 2*101 = 302.
    books.insert("AUSDT".to_string(), mock_buy_book());

    // Leg 2: Sell A/B.
    // Bids: price 0.1, qty 0.5. (We can sell up to 0.5 A)
    books.insert(
        "AB".to_string(),
        OrderBook { bids: vec![level(d1(1), d1(5))], asks: vec![], last_update_id: 1 },
    );

    // Leg 3: Sell B/USDT.
    // Bids: price 1000, qty 10.0 (a very deep book)
    books.insert(
        "BUSDT".to_string(),
        OrderBook { bids: vec![level(d1(10000), d1(100))], asks: vec![], last_update_id: 1 },
    );

    let fee_rate = Decimal::new(1, 3);
    let cap = calculate_max_usdt_capacity(&triangle, &books, fee_rate);
    assert!(cap.is_some(), "Capacity should not be None");
    let cap_val = cap.unwrap();
    assert!(cap_val < d1(510));
    assert!(cap_val > d1(500));
}
