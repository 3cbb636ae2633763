//! Trading configuration: the three-leg paths to watch and the numeric settings.
use crate::decimal::{decimal_parse, parse, Decimal, DecimalModel};
use vstd::prelude::*;
use vstd::string::*;

verus! {

/// Which side of the book a leg trades against.
#[derive(Debug, Clone, Copy, PartialEq, Eq, Structural)]
pub enum TradeDirection {
    /// Pay the quote asset, receive the base asset (sweeps the asks).
    Buy,
    /// Pay the base asset, receive the quote asset (sweeps the bids).
    Sell,
}

/// One market order of a triangle.
#[derive(Debug, Clone)]
pub struct Leg {
    pub symbol: String,
    pub base_asset: String,
    pub quote_asset: String,
    pub direction: TradeDirection,
}

/// A path USDT -> A -> B -> USDT made of three legs.
#[derive(Debug, Clone)]
pub struct Triangle {
    pub name: String,
    pub leg1: Leg,
    pub leg2: Leg,
    pub leg3: Leg,
}

/// Settings of the bot.
#[derive(Debug, Clone)]
pub struct Config {
    pub api_key: String,
    pub secret_key: String,
    pub rest_url: String,
    pub ws_url: String,
    /// Fee charged on each fill, e.g. 0.001 for 0.1%.
    pub fee_rate: Decimal,
    /// Least net profit rate worth trading, e.g. 0.002 for 0.2%.
    pub min_profit_rate: Decimal,
    pub min_24h_volume: Decimal,
    pub max_24h_volume: Decimal,
    pub triangles: Vec<Triangle>,
}

/// The raw settings as read from the environment; `None` stands for an unset variable.
#[derive(Debug, Clone)]
pub struct RawSettings {
    pub api_key: Option<String>,
    pub secret_key: Option<String>,
    pub rest_url: Option<String>,
    pub ws_url: Option<String>,
    pub fee_rate: Option<String>,
    pub min_profit_rate: Option<String>,
    pub min_24h_volume: Option<String>,
    pub max_24h_volume: Option<String>,
}

/// Why the settings could not be turned into a configuration.
#[derive(Debug, Clone, PartialEq, Eq, Structural)]
pub enum ConfigError {
    /// `BINANCE_API_KEY` is not set.
    MissingApiKey,
    /// `BINANCE_SECRET_KEY` is not set.
    MissingSecretKey,
}

/// The text of a setting, or the default when it is unset.
pub open spec fn text_or(raw: Option<String>, default: Seq<char>) -> Seq<char> {
    match raw {
        Some(t) => t@,
        None => default,
    }
}

/// The number a setting holds; the default when it is unset or is no decimal.
pub open spec fn decimal_or(raw: Option<String>, default: DecimalModel) -> DecimalModel {
    match raw {
        Some(t) => match decimal_parse(t@) {
            Some(d) => d,
            None => default,
        },
        None => default,
    }
}

/// Parses a decimal setting, falling back to `default` when it is unset or unreadable.
pub fn decimal_setting(raw: &Option<String>, default: Decimal) -> (r: Decimal)
    ensures
        r@ == decimal_or(*raw, default@),
{
    match raw {
        Some(text) => match parse(text.as_str()) {
            Ok(d) => d,
            Err(_) => default,
        },
        None => default,
    }
}

/// A text setting, falling back to `default` when it is unset.
fn text_setting(raw: Option<String>, default: &str) -> (r: String)
    ensures
        r@ == text_or(raw, default@),
{
    match raw {
        Some(t) => t,
        None => String::from_str(default),
    }
}

/// The symbols of the legs of all triangles, three per triangle, in order.
pub open spec fn leg_symbols(triangles: Seq<Triangle>) -> Seq<Seq<char>>
    decreases triangles.len(),
{
    if triangles.len() == 0 {
        Seq::empty()
    } else {
        let t = triangles.last();
        leg_symbols(triangles.drop_last()).push(t.leg1.symbol@).push(t.leg2.symbol@).push(
            t.leg3.symbol@,
        )
    }
}

/// Appends `x` unless it is already there.
pub open spec fn push_new(acc: Seq<Seq<char>>, x: Seq<char>) -> Seq<Seq<char>> {
    if acc.contains(x) {
        acc
    } else {
        acc.push(x)
    }
}

/// The items in the order of their first occurrence, each once.
pub open spec fn first_occurrences(items: Seq<Seq<char>>) -> Seq<Seq<char>>
    decreases items.len(),
{
    if items.len() == 0 {
        Seq::empty()
    } else {
        push_new(first_occurrences(items.drop_last()), items.last())
    }
}

/// Keeping first occurrences leaves no duplicates and keeps exactly the items that occur.
pub proof fn lemma_first_occurrences(items: Seq<Seq<char>>)
    ensures
        first_occurrences(items).no_duplicates(),
        forall|x: Seq<char>| #[trigger] first_occurrences(items).contains(x) <==> items.contains(x),
    decreases items.len(),
{
    if items.len() > 0 {
        let prefix = items.drop_last();
        lemma_first_occurrences(prefix);
        let acc = first_occurrences(prefix);
        let x = items.last();
        assert forall|y: Seq<char>| #[trigger] first_occurrences(items).contains(y) <==> items.contains(y) by {
            if items.contains(y) {
                let k = choose|k: int| 0 <= k < items.len() && items[k] == y;
                if k < prefix.len() {
                    assert(prefix[k] == y);
                    assert(prefix.contains(y));
                }
            }
            if prefix.contains(y) {
                let k = choose|k: int| 0 <= k < prefix.len() && prefix[k] == y;
                assert(items[k] == y);
            }
            if !acc.contains(x) {
                if acc.push(x).contains(y) {
                    let k = choose|k: int| 0 <= k < acc.push(x).len() && acc.push(x)[k] == y;
                    if k < acc.len() {
                        assert(acc[k] == y);
                    }
                }
                if acc.contains(y) {
                    let k = choose|k: int| 0 <= k < acc.len() && acc[k] == y;
                    assert(acc.push(x)[k] == y);
                }
                assert(acc.push(x)[acc.len() as int] == x);
            }
            assert(items[items.len() - 1] == x);
        }
    }
}

/// Whether `items` holds a string equal to `x`.
pub(crate) fn holds(items: &Vec<String>, x: &String) -> (r: bool)
    ensures
        r == items.deep_view().contains(x@),
{
    let n = items.len();
    let mut i: usize = 0;
    while i < n
        invariant
            n == items@.len(),
            i <= n,
            forall|j: int| 0 <= j < i ==> #[trigger] items@[j]@ != x@,
        decreases n - i,
    {
        if items[i] == *x {
            assert(items.deep_view()[i as int] == x@);
            return true;
        }
        i = i + 1;
    }
    assert forall|k: int| 0 <= k < items.deep_view().len() implies items.deep_view()[k] != x@ by {
        assert(items.deep_view()[k] == items@[k]@);
    }
    false
}

impl Config {
    /// Builds the configuration from the raw settings. The URLs default to the exchange's
    /// test network and the numbers default to a 0.1% fee, a 0.2% profit threshold and a
    /// 24h volume window from 50,000 to 500,000 USDT. No triangles are set.
    pub fn from_settings(raw: RawSettings) -> (r: Result<Config, ConfigError>)
        ensures
            raw.api_key is None ==> r == Err::<Config, ConfigError>(ConfigError::MissingApiKey),
            raw.api_key is Some && raw.secret_key is None ==> r == Err::<Config, ConfigError>(
                ConfigError::MissingSecretKey,
            ),
            raw.api_key is Some && raw.secret_key is Some ==> r is Ok,
            r matches Ok(c) ==> {
                &&& c.api_key@ == raw.api_key->0@
                &&& c.secret_key@ == raw.secret_key->0@
                &&& c.rest_url@ == text_or(raw.rest_url, "https://testnet.binance.vision"@)
                &&& c.ws_url@ == text_or(raw.ws_url, "wss://stream.testnet.binance.vision/stream"@)
                &&& c.fee_rate@ == decimal_or(raw.fee_rate, (1, 3))
                &&& c.min_profit_rate@ == decimal_or(raw.min_profit_rate, (2, 3))
                &&& c.min_24h_volume@ == decimal_or(raw.min_24h_volume, (500000, 1))
                &&& c.max_24h_volume@ == decimal_or(raw.max_24h_volume, (5000000, 1))
                &&& c.triangles@.len() == 0
            },
    {
        let api_key = match raw.api_key {
            Some(k) => k,
            None => {
                return Err(ConfigError::MissingApiKey);
            },
        };
        let secret_key = match raw.secret_key {
            Some(k) => k,
            None => {
                return Err(ConfigError::MissingSecretKey);
            },
        };
        let fee_rate = decimal_setting(&raw.fee_rate, Decimal::new(1, 3));
        let min_profit_rate = decimal_setting(&raw.min_profit_rate, Decimal::new(2, 3));
        let min_24h_volume = decimal_setting(&raw.min_24h_volume, Decimal::new(500000, 1));
        let max_24h_volume = decimal_setting(&raw.max_24h_volume, Decimal::new(5000000, 1));
        let rest_url = text_setting(raw.rest_url, "https://testnet.binance.vision");
        let ws_url = text_setting(raw.ws_url, "wss://stream.testnet.binance.vision/stream");
        Ok(Config {
            api_key,
            secret_key,
            rest_url,
            ws_url,
            fee_rate,
            min_profit_rate,
            min_24h_volume,
            max_24h_volume,
            triangles: Vec::new(),
        })
    }

    /// The symbols of all legs of all triangles, each once, in the order they first occur.
    pub fn get_unique_symbols(&self) -> (r: Vec<String>)
        ensures
            r.deep_view() == first_occurrences(leg_symbols(self.triangles@)),
    {
        let mut symbols: Vec<String> = Vec::new();
        let n = self.triangles.len();
        let mut i: usize = 0;
        while i < n
            invariant
                n == self.triangles@.len(),
                i <= n,
                symbols.deep_view() == first_occurrences(
                    leg_symbols(self.triangles@.subrange(0, i as int)),
                ),
            decreases n - i,
        {
            let t = &self.triangles[i];
            let ghost before = symbols.deep_view();
            if !holds(&symbols, &t.leg1.symbol) {
                symbols.push(t.leg1.symbol.clone());
            }
            assert(symbols.deep_view() =~= push_new(before, t.leg1.symbol@));
            let ghost after1 = symbols.deep_view();
            if !holds(&symbols, &t.leg2.symbol) {
                symbols.push(t.leg2.symbol.clone());
            }
            assert(symbols.deep_view() =~= push_new(after1, t.leg2.symbol@));
            let ghost after2 = symbols.deep_view();
            if !holds(&symbols, &t.leg3.symbol) {
                symbols.push(t.leg3.symbol.clone());
            }
            assert(symbols.deep_view() =~= push_new(after2, t.leg3.symbol@));
            proof {
                let prefix = self.triangles@.subrange(0, i as int);
                let next = self.triangles@.subrange(0, i + 1);
                assert(next.drop_last() =~= prefix);
                assert(next.last() == *t);
                let l = leg_symbols(next);
                assert(l == leg_symbols(prefix).push(t.leg1.symbol@).push(t.leg2.symbol@).push(
                    t.leg3.symbol@,
                ));
                assert(l.drop_last().drop_last().drop_last() =~= leg_symbols(prefix));
                assert(l.drop_last().drop_last().last() == t.leg1.symbol@);
                assert(l.drop_last().last() == t.leg2.symbol@);
                assert(l.last() == t.leg3.symbol@);
                let l2 = l.drop_last();
                let l1 = l2.drop_last();
                assert(first_occurrences(l1) == push_new(first_occurrences(l1.drop_last()), l1.last()));
                assert(first_occurrences(l2) == push_new(first_occurrences(l1), l2.last()));
                assert(first_occurrences(l) == push_new(first_occurrences(l2), l.last()));
            }
            i = i + 1;
        }
        assert(self.triangles@.subrange(0, n as int) =~= self.triangles@);
        symbols
    }
}


/// `x` is the symbol of one of the legs of `t`.
pub open spec fn is_leg_symbol(t: Triangle, x: Seq<char>) -> bool {
    x == t.leg1.symbol@ || x == t.leg2.symbol@ || x == t.leg3.symbol@
}

/// The leg symbols of the triangles are exactly the symbols of their legs.
proof fn lemma_leg_symbols(triangles: Seq<Triangle>, x: Seq<char>)
    ensures
        leg_symbols(triangles).contains(x) <==> exists|i: int|
            0 <= i < triangles.len() && is_leg_symbol(#[trigger] triangles[i], x),
    decreases triangles.len(),
{
    if triangles.len() > 0 {
        let prefix = triangles.drop_last();
        let t = triangles.last();
        lemma_leg_symbols(prefix, x);
        let before = leg_symbols(prefix);
        let all = leg_symbols(triangles);
        assert(all == before.push(t.leg1.symbol@).push(t.leg2.symbol@).push(t.leg3.symbol@));
        if all.contains(x) {
            let k = choose|k: int| 0 <= k < all.len() && all[k] == x;
            if k < before.len() {
                assert(before[k] == x);
                let i = choose|i: int| 0 <= i < prefix.len() && is_leg_symbol(#[trigger] prefix[i], x);
                assert(triangles[i] == prefix[i]);
            } else {
                assert(is_leg_symbol(triangles[triangles.len() - 1], x));
            }
        }
        if exists|i: int| 0 <= i < triangles.len() && is_leg_symbol(#[trigger] triangles[i], x) {
            let i = choose|i: int| 0 <= i < triangles.len() && is_leg_symbol(#[trigger] triangles[i], x);
            if i < prefix.len() {
                assert(prefix[i] == triangles[i]);
                assert(before.contains(x));
                let k = choose|k: int| 0 <= k < before.len() && before[k] == x;
                assert(all[k] == x);
            } else {
                if x == t.leg1.symbol@ {
                    assert(all[before.len() as int] == x);
                } else if x == t.leg2.symbol@ {
                    assert(all[before.len() as int + 1] == x);
                } else {
                    assert(all[before.len() as int + 2] == x);
                }
            }
        }
    }
}

/// The symbols to follow for a set of triangles hold each symbol of each leg, nothing
/// else, and nothing twice.
pub proof fn law_unique_symbols(triangles: Seq<Triangle>)
    ensures
        first_occurrences(leg_symbols(triangles)).no_duplicates(),
        forall|x: Seq<char>|
            #[trigger] first_occurrences(leg_symbols(triangles)).contains(x) <==> exists|i: int|
                0 <= i < triangles.len() && is_leg_symbol(#[trigger] triangles[i], x),
{
    lemma_first_occurrences(leg_symbols(triangles));
    assert forall|x: Seq<char>|
        #[trigger] first_occurrences(leg_symbols(triangles)).contains(x) <==> exists|i: int|
            0 <= i < triangles.len() && is_leg_symbol(#[trigger] triangles[i], x) by {
        lemma_leg_symbols(triangles, x);
    }
}

} // verus!
