use triarb::config::{
    decimal_setting, Config, ConfigError, Leg, RawSettings, TradeDirection, Triangle,
};
use triarb::decimal::Decimal;
use triarb::market_data::{
    depth_stream_url, snapshot_url, stream_symbol, CombinedStreamMessage, DepthPayload,
    OrderBookCache,
};

fn pair(price: &str, quantity: &str) -> [String; 2] {
    [price.to_string(), quantity.to_string()]
}

fn payload() -> DepthPayload {
    DepthPayload {
        last_update_id: 42,
        bids: vec![pair("99.50", "1.25"), pair("99.00", "3")],
        asks: vec![pair("100.5", "0.75")],
    }
}

#[test]
fn depth_payload_reads_as_decimals_in_order() {
    let book = payload().to_order_book().unwrap();
    assert_eq!(book.last_update_id, 42);
    assert_eq!(book.bids.len(), 2);
    assert_eq!(book.bids[0].price, Decimal::new(9950, 2));
    assert_eq!(book.bids[0].quantity, Decimal::new(125, 2));
    assert_eq!(book.bids[1].price, Decimal::new(99, 0));
    assert_eq!(book.bids[1].quantity, Decimal::new(3, 0));
    assert_eq!(book.asks.len(), 1);
    assert_eq!(book.asks[0].price, Decimal::new(1005, 1));
    assert_eq!(book.asks[0].quantity, Decimal::new(75, 2));
}

#[test]
fn depth_payload_fails_with_the_error_of_the_first_unreadable_text() {
    let too_big = "99999999999999999999999999999999999";
    let mut p = payload();
    p.bids[1] = pair("99.00", too_big);
    p.asks[0] = pair("oops", "1");
    let err = p.to_order_book().unwrap_err();
    let expected = too_big.parse::<rust_decimal::Decimal>().unwrap_err();
    let later = "oops".parse::<rust_decimal::Decimal>().unwrap_err();
    assert_ne!(expected, later);
    assert_eq!(err, expected);
}

#[test]
fn stream_names_give_their_symbol_in_upper_case() {
    assert_eq!(stream_symbol("ltcusdt@depth5@100ms"), "LTCUSDT");
    assert_eq!(stream_symbol("btcusdt"), "BTCUSDT");
    assert_eq!(stream_symbol("@depth"), "");
}

#[test]
fn stream_url_joins_the_lower_case_streams() {
    let symbols = vec!["LTCUSDT".to_string(), "LTCBTC".to_string()];
    assert_eq!(
        depth_stream_url("wss://example/stream", &symbols),
        "wss://example/stream?streams=ltcusdt@depth5@100ms/ltcbtc@depth5@100ms"
    );
    assert_eq!(depth_stream_url("wss://x", &vec![]), "wss://x?streams=");
}

#[test]
fn snapshot_url_asks_for_five_levels() {
    assert_eq!(
        snapshot_url("https://testnet.binance.vision", "LTCUSDT"),
        "https://testnet.binance.vision/api/v3/depth?symbol=LTCUSDT&limit=5"
    );
}

#[test]
fn stream_message_replaces_the_book_of_its_symbol() {
    let mut cache = OrderBookCache::new();
    let msg = CombinedStreamMessage { stream: "ltcusdt@depth5@100ms".to_string(), data: payload() };
    assert!(cache.apply_stream_message(&msg));
    assert_eq!(cache.books.len(), 1);
    assert_eq!(cache.books.get("LTCUSDT").unwrap().last_update_id, 42);

    let mut newer = payload();
    newer.last_update_id = 43;
    let msg2 = CombinedStreamMessage { stream: "ltcusdt@depth5@100ms".to_string(), data: newer };
    assert!(cache.apply_stream_message(&msg2));
    assert_eq!(cache.books.len(), 1);
    assert_eq!(cache.books.get("LTCUSDT").unwrap().last_update_id, 43);
}

#[test]
fn unreadable_stream_message_leaves_the_cache() {
    let mut cache = OrderBookCache::default();
    let mut bad = payload();
    bad.asks[0] = pair("x", "1");
    let msg = CombinedStreamMessage { stream: "ltcusdt@depth5@100ms".to_string(), data: bad };
    assert!(!cache.apply_stream_message(&msg));
    assert_eq!(cache.books.len(), 0);
    assert!(!cache.books.contains_key("LTCUSDT"));
}

fn settings() -> RawSettings {
    RawSettings {
        api_key: Some("key".to_string()),
        secret_key: Some("secret".to_string()),
        rest_url: None,
        ws_url: None,
        fee_rate: None,
        min_profit_rate: None,
        min_24h_volume: None,
        max_24h_volume: None,
    }
}

#[test]
fn settings_fall_back_to_the_defaults() {
    let c = Config::from_settings(settings()).unwrap();
    assert_eq!(c.api_key, "key");
    assert_eq!(c.secret_key, "secret");
    assert_eq!(c.rest_url, "https://testnet.binance.vision");
    assert_eq!(c.ws_url, "wss://stream.testnet.binance.vision/stream");
    assert_eq!(c.fee_rate, Decimal::new(1, 3));
    assert_eq!(c.min_profit_rate, Decimal::new(2, 3));
    assert_eq!(c.min_24h_volume, Decimal::new(50000, 0));
    assert_eq!(c.max_24h_volume, Decimal::new(500000, 0));
    assert!(c.triangles.is_empty());
}

#[test]
fn settings_are_read_when_given() {
    let mut raw = settings();
    raw.rest_url = Some("https://api.example".to_string());
    raw.fee_rate = Some("0.00075".to_string());
    raw.min_profit_rate = Some("not a number".to_string());
    let c = Config::from_settings(raw).unwrap();
    assert_eq!(c.rest_url, "https://api.example");
    assert_eq!(c.fee_rate, Decimal::new(75, 5));
    assert_eq!(c.min_profit_rate, Decimal::new(2, 3));
}

#[test]
fn keys_are_required() {
    let mut raw = settings();
    raw.api_key = None;
    assert_eq!(Config::from_settings(raw).err(), Some(ConfigError::MissingApiKey));
    let mut raw = settings();
    raw.secret_key = None;
    assert_eq!(Config::from_settings(raw).err(), Some(ConfigError::MissingSecretKey));
}

#[test]
fn decimal_settings_parse_or_fall_back() {
    assert_eq!(decimal_setting(&Some("12.5".to_string()), Decimal::zero()), Decimal::new(125, 1));
    assert_eq!(decimal_setting(&Some("".to_string()), Decimal::one()), Decimal::one());
    assert_eq!(decimal_setting(&None, Decimal::one()), Decimal::one());
}

fn leg(symbol: &str) -> Leg {
    Leg {
        symbol: symbol.to_string(),
        base_asset: String::new(),
        quote_asset: String::new(),
        direction: TradeDirection::Buy,
    }
}

#[test]
fn unique_symbols_keep_first_occurrences() {
    let mut c = Config::from_settings(settings()).unwrap();
    c.triangles = vec![
        Triangle { name: "t1".to_string(), leg1: leg("A"), leg2: leg("B"), leg3: leg("C") },
        Triangle { name: "t2".to_string(), leg1: leg("C"), leg2: leg("D"), leg3: leg("A") },
    ];
    assert_eq!(c.get_unique_symbols(), vec!["A", "B", "C", "D"]);
}
