use triarb::arbitrage::ArbitrageOpportunity;
use triarb::config::{Config, Leg, RawSettings, TradeDirection, Triangle};
use triarb::decimal::Decimal;
use triarb::execution::{
    refusal_message, ExecutionEngine, FilterFields, SymbolFilters, TradeAction, TradeExecution,
    TradeStage,
};

fn config(secret: &str) -> Config {
    Config::from_settings(RawSettings {
        api_key: Some("api".to_string()),
        secret_key: Some(secret.to_string()),
        rest_url: Some("https://rest".to_string()),
        ws_url: None,
        fee_rate: None,
        min_profit_rate: None,
        min_24h_volume: None,
        max_24h_volume: None,
    })
    .unwrap()
}

fn text(s: &str) -> Option<String> {
    Some(s.to_string())
}

fn lot_size(step: &str, min_qty: &str) -> FilterFields {
    FilterFields {
        filter_type: text("LOT_SIZE"),
        step_size: text(step),
        min_qty: text(min_qty),
        min_notional: None,
    }
}

fn notional(kind: &str, value: &str) -> FilterFields {
    FilterFields { filter_type: text(kind), step_size: None, min_qty: None, min_notional: text(value) }
}

#[test]
fn new_engine_keeps_the_credentials() {
    let e = ExecutionEngine::new(&config("s"));
    assert_eq!(e.api_key(), "api");
    assert_eq!(e.rest_url(), "https://rest");
    assert_eq!(e.server_time_offset, 0);
    assert_eq!(e.rules.len(), 0);
    assert_eq!(e.time_url(), "https://rest/api/v3/time");
    assert_eq!(e.exchange_info_url(), "https://rest/api/v3/exchangeInfo");
}

#[test]
fn clock_offset_is_measured_from_the_midpoint() {
    let mut e = ExecutionEngine::new(&config("s"));
    e.record_server_time(1000, 1010, 5000);
    assert_eq!(e.server_time_offset, 3995);
    e.record_server_time(1000, 1003, 900);
    assert_eq!(e.server_time_offset, -101);
    // The midpoint of -3 and 0 is rounded toward zero.
    e.record_server_time(-3, 0, 0);
    assert_eq!(e.server_time_offset, 1);
}

#[test]
fn rules_are_loaded_for_targets_only() {
    let mut e = ExecutionEngine::new(&config("s"));
    let infos = vec![
        SymbolFilters {
            symbol: "LTCUSDT".to_string(),
            filters: vec![
                lot_size("0.001", "0.01"),
                notional("NOTIONAL", "5"),
                FilterFields { filter_type: text("PRICE_FILTER"), step_size: text("9"), min_qty: None, min_notional: None },
            ],
        },
        SymbolFilters { symbol: "ETHUSDT".to_string(), filters: vec![lot_size("0.1", "0.1")] },
        SymbolFilters {
            symbol: "LTCBTC".to_string(),
            filters: vec![lot_size("bad", "0.5"), notional("MIN_NOTIONAL", "0.0001")],
        },
        SymbolFilters { symbol: "BTCUSDT".to_string(), filters: vec![] },
    ];
    let targets = vec!["LTCUSDT".to_string(), "LTCBTC".to_string(), "BTCUSDT".to_string()];
    e.load_rules(&targets, &infos);
    assert_eq!(e.rules.len(), 3);
    assert!(!e.rules.contains_key("ETHUSDT"));
    let ltc = e.rules.get("LTCUSDT").unwrap();
    assert_eq!(ltc.step_size, Decimal::new(1, 3));
    assert_eq!(ltc.min_qty, Decimal::new(1, 2));
    assert_eq!(ltc.min_notional, Decimal::new(5, 0));
    let ltcbtc = e.rules.get("LTCBTC").unwrap();
    assert_eq!(ltcbtc.step_size, Decimal::new(1, 8));
    assert_eq!(ltcbtc.min_qty, Decimal::new(5, 1));
    assert_eq!(ltcbtc.min_notional, Decimal::new(1, 4));
    let btc = e.rules.get("BTCUSDT").unwrap();
    assert_eq!(btc.step_size, Decimal::new(1, 8));
    assert_eq!(btc.min_qty, Decimal::new(1, 8));
    assert_eq!(btc.min_notional, Decimal::new(10, 0));
}

fn engine_with_step(step: &str) -> ExecutionEngine {
    let mut e = ExecutionEngine::new(&config("key"));
    let infos = vec![SymbolFilters { symbol: "LTCUSDT".to_string(), filters: vec![lot_size(step, "0.001")] }];
    e.load_rules(&vec!["LTCUSDT".to_string()], &infos);
    e
}

#[test]
fn quantities_round_down_to_whole_steps() {
    let e = engine_with_step("0.001");
    assert_eq!(e.round_quantity("LTCUSDT", Decimal::new(123456, 5)), Decimal::new(1234, 3));
    assert_eq!(e.round_quantity("LTCUSDT", Decimal::new(2, 0)), Decimal::new(2, 0));
    // A symbol without rules keeps its quantity.
    assert_eq!(e.round_quantity("XRPUSDT", Decimal::new(123456, 5)), Decimal::new(123456, 5));
    // A zero step keeps the quantity.
    let z = engine_with_step("0");
    assert_eq!(z.round_quantity("LTCUSDT", Decimal::new(123456, 5)), Decimal::new(123456, 5));
}

#[test]
fn queries_are_signed_with_hmac_sha256() {
    let e = ExecutionEngine::new(&config("key"));
    assert_eq!(
        e.sign_query("The quick brown fox jumps over the lazy dog"),
        "f7bc83f430538424b13298e6aa6fb143ef4d59a14946175997479dbc2d1a3cd8"
    );
}

#[test]
fn market_orders_are_prepared_with_rounded_quantity_and_offset_time() {
    let mut e = engine_with_step("0.001");
    e.server_time_offset = -250;
    let o = e.prepare_market_order("LTCUSDT", TradeDirection::Sell, Decimal::new(123456, 5), 1_700_000_000_000);
    assert_eq!(
        o.query,
        "symbol=LTCUSDT&side=SELL&type=MARKET&quantity=1.234&timestamp=1699999999750&recvWindow=5000"
    );
    assert_eq!(o.signature, e.sign_query(&o.query));
    assert_eq!(o.signature.len(), 64);
    assert_eq!(o.url, format!("https://rest/api/v3/order?{}&signature={}", o.query, o.signature));

    // Trailing zeros are dropped from the quantity.
    let o2 = e.prepare_market_order("LTCUSDT", TradeDirection::Buy, Decimal::new(25000, 4), 5);
    assert_eq!(o2.query, "symbol=LTCUSDT&side=BUY&type=MARKET&quantity=2.5&timestamp=-245&recvWindow=5000");
}

#[test]
fn refused_orders_carry_status_and_body() {
    assert_eq!(
        refusal_message("400 Bad Request", "{\"code\":-1013}"),
        "Binance API Error: status=400 Bad Request, response={\"code\":-1013}"
    );
}

fn leg(symbol: &str, direction: TradeDirection) -> Leg {
    Leg { symbol: symbol.to_string(), base_asset: "B".to_string(), quote_asset: "Q".to_string(), direction }
}

fn trade() -> (TradeExecution, TradeAction) {
    let triangle = Triangle {
        name: "USDT->A->B->USDT".to_string(),
        leg1: leg("AUSDT", TradeDirection::Buy),
        leg2: leg("AB", TradeDirection::Sell),
        leg3: leg("BUSDT", TradeDirection::Sell),
    };
    let opportunity = ArbitrageOpportunity {
        path_name: triangle.name.clone(),
        optimal_volume: Decimal::new(1000, 0),
        expected_profit_pct: Decimal::new(5, 1),
        expected_profit_usdt: Decimal::new(5, 0),
        leg1_raw_qty: Decimal::new(100, 0),
        leg2_raw_qty: Decimal::new(999, 1),
        leg3_raw_qty: Decimal::new(1996002, 4),
    };
    TradeExecution::start(&triangle, &opportunity)
}

fn placed(a: &TradeAction) -> (String, TradeDirection, Decimal) {
    match a {
        TradeAction::Place(o) => (o.symbol.clone(), o.direction, o.quantity),
        other => panic!("expected an order, got {:?}", other),
    }
}

#[test]
fn trade_sends_the_three_legs_in_order() {
    let (mut t, first) = trade();
    assert_eq!(placed(&first), ("AUSDT".to_string(), TradeDirection::Buy, Decimal::new(100, 0)));
    let second = t.step(Ok(11));
    assert_eq!(placed(&second), ("AB".to_string(), TradeDirection::Sell, Decimal::new(999, 1)));
    let third = t.step(Ok(12));
    assert_eq!(placed(&third), ("BUSDT".to_string(), TradeDirection::Sell, Decimal::new(1996002, 4)));
    match t.step(Ok(13)) {
        TradeAction::Finish(r) => assert_eq!(r, Ok(())),
        other => panic!("unexpected {:?}", other),
    }
    assert!(matches!(t.stage, TradeStage::Finished(Ok(()))));
}

#[test]
fn first_leg_failure_halts() {
    let (mut t, _) = trade();
    match t.step(Err("timeout".to_string())) {
        TradeAction::Finish(Err(m)) => {
            assert_eq!(m, "[CRITICAL] Leg 1 failed to execute! Halting: \"timeout\"")
        }
        other => panic!("unexpected {:?}", other),
    }
    // Nothing more is sent once finished.
    assert!(matches!(t.step(Ok(1)), TradeAction::Finish(Err(_))));
}

#[test]
fn second_leg_failure_reports_the_first_order() {
    let (mut t, _) = trade();
    t.step(Ok(4242));
    match t.step(Err("rejected".to_string())) {
        TradeAction::Finish(Err(m)) => assert_eq!(
            m,
            "[CRITICAL EMERGENCY] Leg 2 failed! Leg 1 filled successfully (OrderId=4242). capital is now in intermediate asset! \"rejected\""
        ),
        other => panic!("unexpected {:?}", other),
    }
}

#[test]
fn third_leg_is_retried_three_times() {
    let (mut t, _) = trade();
    t.step(Ok(1));
    t.step(Ok(2));
    for attempt in 1..=3u32 {
        match t.step(Err("busy".to_string())) {
            TradeAction::PlaceAfter { delay_ms, order } => {
                assert_eq!(delay_ms, 500);
                assert_eq!(order.symbol, "BUSDT");
            }
            other => panic!("unexpected {:?}", other),
        }
        assert!(matches!(t.stage, TradeStage::AwaitLeg3 { failures, .. } if failures == attempt));
    }
    match t.step(Err("busy".to_string())) {
        TradeAction::Finish(Err(m)) => assert_eq!(m, "[EMERGENCY] Leg 3 failed completely. Capital trapped."),
        other => panic!("unexpected {:?}", other),
    }
}

#[test]
fn third_leg_can_succeed_on_a_retry() {
    let (mut t, _) = trade();
    t.step(Ok(1));
    t.step(Ok(2));
    t.step(Err("busy".to_string()));
    match t.step(Ok(3)) {
        TradeAction::Finish(r) => assert_eq!(r, Ok(())),
        other => panic!("unexpected {:?}", other),
    }
}

#[test]
fn synced_engine_takes_clock_and_rules_of_the_configured_symbols() {
    let mut c = config("s");
    c.triangles = vec![Triangle {
        name: "t".to_string(),
        leg1: leg("LTCUSDT", TradeDirection::Buy),
        leg2: leg("LTCBTC", TradeDirection::Sell),
        leg3: leg("BTCUSDT", TradeDirection::Sell),
    }];
    let infos = vec![
        SymbolFilters { symbol: "LTCUSDT".to_string(), filters: vec![lot_size("0.001", "0.01")] },
        SymbolFilters { symbol: "ETHUSDT".to_string(), filters: vec![lot_size("0.1", "0.1")] },
    ];
    let e = ExecutionEngine::synced(&c, 1000, 1010, 5000, &infos);
    assert_eq!(e.server_time_offset, 3995);
    assert_eq!(e.rules.len(), 1);
    assert_eq!(e.rules.get("LTCUSDT").unwrap().step_size, Decimal::new(1, 3));
    assert!(!e.rules.contains_key("ETHUSDT"));
}
