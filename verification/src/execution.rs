//! Placing orders: the exchange's lot rules, quantity rounding, signed order requests, and
//! the rules by which the three orders of a triangle are sent one after the other.
use crate::arbitrage::{ArbitrageOpportunity, ArithmeticError};
use crate::config::{
    decimal_or, first_occurrences, holds, leg_symbols, Config, TradeDirection, Triangle,
};
use crate::decimal::{
    checked_div, checked_mul, decimal_checked_div, decimal_checked_mul, decimal_text, exact_product,
    fits, floor, floor_model, lemma_pow10_add, lemma_pow10_positive, lemma_value_le_transitive,
    normalize, normalized, pow10, same_value, to_text, value_le, value_lt, zero_model, Decimal,
    DecimalModel,
};
use crate::symbol_map::SymbolMap;
use crate::text::{
    debug_quoted, debug_text, hex_encode, hex_text, hmac_sha256, hmac_sha256_tag, i64_text,
    integer_text, u64_text,
};
use vstd::prelude::*;
use vstd::string::*;
use vstd::utf8::encode_utf8;

verus! {

/// The lot rules of one symbol.
#[derive(Debug, Clone, Copy)]
pub struct SymbolRules {
    /// Quantities are whole multiples of this.
    pub step_size: Decimal,
    /// The least quantity of an order.
    pub min_qty: Decimal,
    /// The least value of an order in the quote asset.
    pub min_notional: Decimal,
}

/// The model of lot rules: (step size, least quantity, least value).
pub type RulesModel = (DecimalModel, DecimalModel, DecimalModel);

impl View for SymbolRules {
    type V = RulesModel;

    open spec fn view(&self) -> RulesModel {
        (self.step_size@, self.min_qty@, self.min_notional@)
    }
}

/// The rules of each symbol, by their models.
pub open spec fn rules_view(m: Map<Seq<char>, SymbolRules>) -> Map<Seq<char>, RulesModel> {
    m.map_values(|r: SymbolRules| r@)
}

/// One filter of a symbol as the exchange describes it; `None` stands for a field that is
/// absent or not a text.
#[derive(Debug, Clone)]
pub struct FilterFields {
    pub filter_type: Option<String>,
    pub step_size: Option<String>,
    pub min_qty: Option<String>,
    pub min_notional: Option<String>,
}

/// A symbol and its filters as the exchange describes them.
#[derive(Debug, Clone)]
pub struct SymbolFilters {
    pub symbol: String,
    pub filters: Vec<FilterFields>,
}

/// The rules a symbol has before any filter is read: a step and a least quantity of
/// 0.00000001 and a least order value of 10.
pub open spec fn default_rules() -> RulesModel {
    ((1, 8), (1, 8), (100, 1))
}

/// The filter is of the given type.
pub open spec fn type_is(f: FilterFields, name: Seq<char>) -> bool {
    f.filter_type matches Some(t) && t@ == name
}

/// What one filter does to the rules: a "LOT_SIZE" filter sets the step and the least
/// quantity, a "NOTIONAL" or "MIN_NOTIONAL" filter sets the least value; a field that does
/// not read as a decimal keeps the value before it, and other filters change nothing.
pub open spec fn apply_filter(r: RulesModel, f: FilterFields) -> RulesModel {
    if type_is(f, "LOT_SIZE"@) {
        (decimal_or(f.step_size, r.0), decimal_or(f.min_qty, r.1), r.2)
    } else if type_is(f, "NOTIONAL"@) || type_is(f, "MIN_NOTIONAL"@) {
        (r.0, r.1, decimal_or(f.min_notional, r.2))
    } else {
        r
    }
}

/// The rules the filters give, read in order from the defaults.
pub open spec fn rules_from_filters(filters: Seq<FilterFields>) -> RulesModel
    decreases filters.len(),
{
    if filters.len() == 0 {
        default_rules()
    } else {
        apply_filter(rules_from_filters(filters.drop_last()), filters.last())
    }
}

/// The rules after reading the descriptions in order: each symbol among the targets gets
/// the rules of its filters, replacing what it had; other symbols are passed over.
pub open spec fn loaded_rules(
    start: Map<Seq<char>, RulesModel>,
    targets: Seq<Seq<char>>,
    infos: Seq<SymbolFilters>,
) -> Map<Seq<char>, RulesModel>
    decreases infos.len(),
{
    if infos.len() == 0 {
        start
    } else {
        let before = loaded_rules(start, targets, infos.drop_last());
        let info = infos.last();
        if targets.contains(info.symbol@) {
            before.insert(info.symbol@, rules_from_filters(info.filters@))
        } else {
            before
        }
    }
}

/// The place of the midpoint of two instants, rounded toward zero as integer division does.
pub open spec fn midpoint(a: int, b: int) -> int {
    let s = a + b;
    if s >= 0 {
        s / 2
    } else {
        -((-s) / 2)
    }
}

/// What the rounding of `qty` to whole steps gives: floor(qty / step) * step, or `qty`
/// itself when the step is zero. None when an operation faults.
pub open spec fn rounding(qty: DecimalModel, step: DecimalModel) -> Option<DecimalModel> {
    if step.0 == 0 {
        Some(qty)
    } else {
        match decimal_checked_div(qty, step) {
            None => None,
            Some(q) => decimal_checked_mul(floor_model(q), step),
        }
    }
}

/// The quantity an order for `symbol` is sent with: rounded to the symbol's step when its
/// rules are known, unchanged otherwise. None when an operation faults.
pub open spec fn rounded_for(
    rules: Map<Seq<char>, SymbolRules>,
    symbol: Seq<char>,
    qty: DecimalModel,
) -> Option<DecimalModel> {
    if rules.contains_key(symbol) {
        rounding(qty, rules[symbol].step_size@)
    } else {
        Some(qty)
    }
}

/// `k` steps of size `step`.
pub open spec fn steps_of(k: int, step: DecimalModel) -> DecimalModel {
    (k * step.0, step.1)
}

/// `d` is a whole number of steps.
pub open spec fn whole_steps(d: DecimalModel, step: DecimalModel) -> bool {
    exists|k: int| same_value(d, #[trigger] steps_of(k, step))
}

/// The side of an order as the exchange writes it.
pub open spec fn side_text(d: TradeDirection) -> Seq<char> {
    match d {
        TradeDirection::Buy => "BUY"@,
        TradeDirection::Sell => "SELL"@,
    }
}

/// The query of a market order.
pub open spec fn order_query_text(
    symbol: Seq<char>,
    direction: TradeDirection,
    quantity_text: Seq<char>,
    timestamp: int,
) -> Seq<char> {
    "symbol="@ + symbol + "&side="@ + side_text(direction) + "&type=MARKET&quantity="@
        + quantity_text + "&timestamp="@ + integer_text(timestamp) + "&recvWindow=5000"@
}

/// The signature of a query: the lowercase hexadecimal HMAC-SHA256 of its UTF-8 bytes,
/// keyed by the UTF-8 bytes of the secret.
pub open spec fn signature_text(secret: Seq<char>, query: Seq<char>) -> Seq<char> {
    hex_text(hmac_sha256_tag(encode_utf8(secret), encode_utf8(query)))
}

/// A market order ready to be sent: its query, the query's signature and the address to
/// post it to.
#[derive(Debug, Clone)]
pub struct PreparedOrder {
    pub query: String,
    pub signature: String,
    pub url: String,
}

/// The query of a market order for a quantity: the quantity is written as its normalized
/// decimal text.
pub open spec fn order_query_for(
    symbol: Seq<char>,
    direction: TradeDirection,
    quantity: DecimalModel,
    timestamp: int,
) -> Seq<char> {
    order_query_text(symbol, direction, decimal_text(normalized(quantity)), timestamp)
}

/// The address an order is posted to.
pub open spec fn order_url_text(rest_url: Seq<char>, query: Seq<char>, signature: Seq<char>) -> Seq<
    char,
> {
    rest_url + "/api/v3/order?"@ + query + "&signature="@ + signature
}

/// `o` is the order with the given query, signed with `secret` and addressed to `rest_url`.
pub open spec fn prepared_as(
    o: PreparedOrder,
    rest_url: Seq<char>,
    secret: Seq<char>,
    query: Seq<char>,
) -> bool {
    &&& o.query@ == query
    &&& o.signature@ == signature_text(secret, query)
    &&& o.url@ == order_url_text(rest_url, query, o.signature@)
}

/// The exchange's reply to an accepted order.
#[derive(Debug, Clone)]
pub struct OrderResponse {
    pub symbol: String,
    pub order_id: u64,
    pub client_order_id: String,
    pub transact_time: u64,
    pub price: String,
    pub orig_qty: String,
    pub executed_qty: String,
    pub cummulative_quote_qty: String,
    pub status: String,
}

/// The message of an order the exchange refused: the status and the body of its reply.
pub open spec fn refusal_text(status: Seq<char>, body: Seq<char>) -> Seq<char> {
    "Binance API Error: status="@ + status + ", response="@ + body
}

/// The message of an order the exchange refused, from the status and the body of its
/// reply.
pub fn refusal_message(status: &str, body: &str) -> (r: String)
    ensures
        r@ == refusal_text(status@, body@),
{
    let mut m = String::from_str("Binance API Error: status=");
    m.append(status);
    m.append(", response=");
    m.append(body);
    m
}

/// The state of the order-sending side of the bot: the credentials and address of the
/// exchange, the offset of the exchange's clock from the local one, and the lot rules of
/// each symbol.
pub struct ExecutionEngine {
    pub api_key: String,
    pub secret_key: String,
    /// The base address of the exchange's REST interface.
    pub rest_url: String,
    /// Server time minus local time, in milliseconds.
    pub server_time_offset: i64,
    pub rules: SymbolMap<SymbolRules>,
}

impl ExecutionEngine {
    /// An engine with the credentials and address of the configuration, no clock offset and
    /// no rules yet.
    pub fn new(config: &Config) -> (r: ExecutionEngine)
        ensures
            r.api_key@ == config.api_key@,
            r.secret_key@ == config.secret_key@,
            r.rest_url@ == config.rest_url@,
            r.server_time_offset == 0,
            r.rules@ == Map::<Seq<char>, SymbolRules>::empty(),
    {
        ExecutionEngine {
            api_key: config.api_key.clone(),
            secret_key: config.secret_key.clone(),
            rest_url: config.rest_url.clone(),
            server_time_offset: 0,
            rules: SymbolMap::new(),
        }
    }

    /// An engine set up from what the exchange answered: its clock read `server_time`
    /// between the local instants `local_before` and `local_after`, and it described its
    /// symbols as `infos`. The offset is the server time minus the local midpoint, and the
    /// symbols of the configuration's triangles get the rules of their filters.
    pub fn synced(
        config: &Config,
        local_before: i64,
        local_after: i64,
        server_time: i64,
        infos: &Vec<SymbolFilters>,
    ) -> (r: ExecutionEngine)
        requires
            i64::MIN <= local_before + local_after <= i64::MAX,
            i64::MIN <= server_time - midpoint(local_before as int, local_after as int)
                <= i64::MAX,
        ensures
            r.api_key@ == config.api_key@,
            r.secret_key@ == config.secret_key@,
            r.rest_url@ == config.rest_url@,
            r.server_time_offset == server_time - midpoint(local_before as int, local_after as int),
            rules_view(r.rules@) == loaded_rules(
                Map::empty(),
                first_occurrences(leg_symbols(config.triangles@)),
                infos@,
            ),
    {
        let mut engine = ExecutionEngine::new(config);
        engine.record_server_time(local_before, local_after, server_time);
        let targets = config.get_unique_symbols();
        proof {
            assert(rules_view(engine.rules@) =~= Map::<Seq<char>, RulesModel>::empty());
        }
        engine.load_rules(&targets, infos);
        engine
    }

    /// The API key, sent with each order.
    pub fn api_key(&self) -> (r: &String)
        ensures
            r@ == self.api_key@,
    {
        &self.api_key
    }

    /// The base address of the exchange's REST interface.
    pub fn rest_url(&self) -> (r: &String)
        ensures
            r@ == self.rest_url@,
    {
        &self.rest_url
    }

    /// The address of the exchange's clock.
    pub fn time_url(&self) -> (r: String)
        ensures
            r@ == self.rest_url@ + "/api/v3/time"@,
    {
        let mut url = self.rest_url.clone();
        url.append("/api/v3/time");
        url
    }

    /// The address of the exchange's description of its symbols.
    pub fn exchange_info_url(&self) -> (r: String)
        ensures
            r@ == self.rest_url@ + "/api/v3/exchangeInfo"@,
    {
        let mut url = self.rest_url.clone();
        url.append("/api/v3/exchangeInfo");
        url
    }

    /// Records the exchange's clock: `server_time` was read between the local instants
    /// `local_before` and `local_after`, so the offset is the server time minus their
    /// midpoint.
    pub fn record_server_time(&mut self, local_before: i64, local_after: i64, server_time: i64)
        requires
            i64::MIN <= local_before + local_after <= i64::MAX,
            i64::MIN <= server_time - midpoint(local_before as int, local_after as int)
                <= i64::MAX,
        ensures
            final(self).server_time_offset == server_time - midpoint(
                local_before as int,
                local_after as int,
            ),
            final(self).api_key@ == old(self).api_key@,
            final(self).secret_key@ == old(self).secret_key@,
            final(self).rest_url@ == old(self).rest_url@,
            final(self).rules@ == old(self).rules@,
    {
        let sum: i128 = local_before as i128 + local_after as i128;
        let mid: i128 = if sum >= 0 {
            sum / 2
        } else {
            -((-sum) / 2)
        };
        let offset: i128 = server_time as i128 - mid;
        self.server_time_offset = offset as i64;
    }

    /// Reads the exchange's description of its symbols: each symbol among the targets gets
    /// the rules of its filters, in the order the descriptions come; others are passed over.
    pub fn load_rules(&mut self, target_symbols: &Vec<String>, infos: &Vec<SymbolFilters>)
        ensures
            rules_view(final(self).rules@) == loaded_rules(
                rules_view(old(self).rules@),
                target_symbols.deep_view(),
                infos@,
            ),
            final(self).server_time_offset == old(self).server_time_offset,
            final(self).api_key@ == old(self).api_key@,
            final(self).secret_key@ == old(self).secret_key@,
            final(self).rest_url@ == old(self).rest_url@,
    {
        let ghost start = rules_view(self.rules@);
        let n = infos.len();
        let mut i: usize = 0;
        while i < n
            invariant
                n == infos@.len(),
                i <= n,
                rules_view(self.rules@) == loaded_rules(
                    start,
                    target_symbols.deep_view(),
                    infos@.subrange(0, i as int),
                ),
                self.server_time_offset == old(self).server_time_offset,
                self.api_key@ == old(self).api_key@,
                self.secret_key@ == old(self).secret_key@,
                self.rest_url@ == old(self).rest_url@,
            decreases n - i,
        {
            let info = &infos[i];
            let ghost before = self.rules@;
            proof {
                let next = infos@.subrange(0, i + 1);
                assert(next.drop_last() =~= infos@.subrange(0, i as int));
                assert(next.last() == *info);
            }
            if holds(target_symbols, &info.symbol) {
                let rules = rules_of(&info.filters);
                self.rules.insert(info.symbol.clone(), rules);
                proof {
                    assert(rules_view(self.rules@) =~= rules_view(before).insert(
                        info.symbol@,
                        rules@,
                    ));
                }
            }
            i = i + 1;
        }
        proof {
            assert(infos@.subrange(0, n as int) =~= infos@);
        }
    }

    /// The quantity an order for `symbol` is sent with, reporting arithmetic faults:
    /// rounded down to whole steps of the symbol's step size when its rules are known.
    pub fn checked_round_quantity(&self, symbol: &str, qty: Decimal) -> (r: Result<
        Decimal,
        ArithmeticError,
    >)
        ensures
            match rounded_for(self.rules@, symbol@, qty@) {
                Some(x) => r matches Ok(d) && d@ == x,
                None => r is Err,
            },
            r matches Ok(d) ==> (self.rules@.contains_key(symbol@) ==> {
                let step = self.rules@[symbol@].step_size@;
                step.0 != 0 && fits(
                    exact_product(floor_model(decimal_checked_div(qty@, step)->0), step),
                ) ==> whole_steps(d@, step)
            }),
            r matches Ok(d) ==> (self.rules@.contains_key(symbol@) ==> {
                let step = self.rules@[symbol@].step_size@;
                let q = decimal_checked_div(qty@, step)->0;
                let k = floor_model(q).0;
                value_lt(zero_model(), step) && same_value(qty@, exact_product(q, step)) && fits(
                    exact_product(floor_model(q), step),
                ) ==> {
                    &&& same_value(d@, steps_of(k, step))
                    &&& value_le(d@, qty@)
                    &&& value_le(steps_of(k, step), qty@)
                    &&& value_lt(qty@, steps_of(k + 1, step))
                }
            }),
    {
        match self.rules.get(symbol) {
            Some(rule) => {
                let step = rule.step_size;
                if step.is_zero() {
                    return Ok(qty);
                }
                let q = match checked_div(qty, step) {
                    Some(q) => q,
                    None => {
                        return Err(ArithmeticError);
                    },
                };
                let steps = floor(q);
                match checked_mul(steps, step) {
                    Some(d) => {
                        proof {
                            if fits(exact_product(steps@, step@)) {
                                assert(same_value(d@, steps_of(steps@.0, step@)));
                                if value_lt(zero_model(), step@) && same_value(
                                    qty@,
                                    exact_product(q@, step@),
                                ) {
                                    lemma_rounded_down(qty@, step@, q@, d@);
                                }
                            }
                        }
                        Ok(d)
                    },
                    None => Err(ArithmeticError),
                }
            },
            None => Ok(qty),
        }
    }

    /// Rounds a quantity down to whole steps of the symbol's step size; unchanged when the
    /// symbol has no rules or its step is zero. When the quotient by a positive step is exact
    /// and the product fits, the result is k steps with k steps at most the quantity and k + 1
    /// steps above it.
    pub fn round_quantity(&self, symbol: &str, qty: Decimal) -> (r: Decimal)
        requires
            rounded_for(self.rules@, symbol@, qty@) is Some,
        ensures
            r@ == rounded_for(self.rules@, symbol@, qty@)->0,
            self.rules@.contains_key(symbol@) ==> {
                let step = self.rules@[symbol@].step_size@;
                let q = decimal_checked_div(qty@, step)->0;
                let k = floor_model(q).0;
                value_lt(zero_model(), step) && same_value(qty@, exact_product(q, step)) && fits(
                    exact_product(floor_model(q), step),
                ) ==> {
                    &&& same_value(r@, steps_of(k, step))
                    &&& value_le(r@, qty@)
                    &&& value_le(steps_of(k, step), qty@)
                    &&& value_lt(qty@, steps_of(k + 1, step))
                }
            },
    {
        match self.checked_round_quantity(symbol, qty) {
            Ok(d) => d,
            Err(_) => qty,
        }
    }

    /// Signs a query with the secret key: the lowercase hexadecimal HMAC-SHA256 of the
    /// query.
    pub fn sign_query(&self, query: &str) -> (r: String)
        ensures
            r@ == signature_text(self.secret_key@, query@),
    {
        let tag = hmac_sha256(self.secret_key.as_str().as_bytes(), query.as_bytes());
        hex_encode(tag.as_slice())
    }

    /// Prepares a market order, reporting arithmetic faults of the rounding: the quantity
    /// is rounded to the symbol's step and written without trailing zeros, the timestamp is
    /// the local time `now_ms` moved by the clock offset, and the query is signed.
    pub fn checked_prepare_market_order(
        &self,
        symbol: &str,
        direction: TradeDirection,
        quantity: Decimal,
        now_ms: i64,
    ) -> (r: Result<PreparedOrder, ArithmeticError>)
        requires
            i64::MIN <= now_ms + self.server_time_offset <= i64::MAX,
        ensures
            r is Err <==> rounded_for(self.rules@, symbol@, quantity@) is None,
            r matches Ok(o) ==> prepared_as(
                o,
                self.rest_url@,
                self.secret_key@,
                order_query_for(
                    symbol@,
                    direction,
                    rounded_for(self.rules@, symbol@, quantity@)->0,
                    now_ms + self.server_time_offset,
                ),
            ),
    {
        let qty = match self.checked_round_quantity(symbol, quantity) {
            Ok(q) => q,
            Err(e) => {
                return Err(e);
            },
        };
        let qty_text = to_text(normalize(qty));
        let timestamp: i64 = now_ms + self.server_time_offset;
        let query = order_query(symbol, direction, qty_text.as_str(), timestamp);
        let signature = self.sign_query(query.as_str());
        let mut url = self.rest_url.clone();
        url.append("/api/v3/order?");
        url.append(query.as_str());
        url.append("&signature=");
        url.append(signature.as_str());
        proof {
            assert(url@ =~= order_url_text(self.rest_url@, query@, signature@));
        }
        Ok(PreparedOrder { query, signature, url })
    }

    /// Prepares a market order: the quantity is rounded to the symbol's step and written
    /// without trailing zeros, the timestamp is the local time `now_ms` moved by the clock
    /// offset, and the query is signed.
    pub fn prepare_market_order(
        &self,
        symbol: &str,
        direction: TradeDirection,
        quantity: Decimal,
        now_ms: i64,
    ) -> (r: PreparedOrder)
        requires
            i64::MIN <= now_ms + self.server_time_offset <= i64::MAX,
            rounded_for(self.rules@, symbol@, quantity@) is Some,
        ensures
            prepared_as(
                r,
                self.rest_url@,
                self.secret_key@,
                order_query_for(
                    symbol@,
                    direction,
                    rounded_for(self.rules@, symbol@, quantity@)->0,
                    now_ms + self.server_time_offset,
                ),
            ),
    {
        match self.checked_prepare_market_order(symbol, direction, quantity, now_ms) {
            Ok(o) => o,
            Err(_) => PreparedOrder {
                query: String::new(),
                signature: String::new(),
                url: String::new(),
            },
        }
    }
}

/// The query of a market order for a quantity already written as text.
pub fn order_query(symbol: &str, direction: TradeDirection, quantity_text: &str, timestamp: i64) -> (r:
    String)
    ensures
        r@ == order_query_text(symbol@, direction, quantity_text@, timestamp as int),
{
    let side: &str = match direction {
        TradeDirection::Buy => "BUY",
        TradeDirection::Sell => "SELL",
    };
    let ts_text = i64_text(timestamp);
    let mut query = String::from_str("symbol=");
    query.append(symbol);
    query.append("&side=");
    query.append(side);
    query.append("&type=MARKET&quantity=");
    query.append(quantity_text);
    query.append("&timestamp=");
    query.append(ts_text.as_str());
    query.append("&recvWindow=5000");
    proof {
        assert(query@ =~= order_query_text(symbol@, direction, quantity_text@, timestamp as int));
    }
    query
}

/// Integer core of rounding down: with qty = m / 10^s steps exactly and f the floor of
/// m / 10^s, f steps are at most qty and f + 1 steps are more.
proof fn lemma_round_down_bounds(a: int, m: int, t: int, f: int, pc: int, pe: int, ps: int)
    requires
        pc > 0,
        pe > 0,
        ps > 0,
        t > 0,
        a * (ps * pe) == m * t * pc,
        f * ps <= m,
        m < (f + 1) * ps,
    ensures
        f * t * pc <= a * pe,
        a * pe < (f + 1) * t * pc,
{
    assert(t * pc > 0) by (nonlinear_arith)
        requires
            t > 0,
            pc > 0,
    ;
    assert(f * ps * (t * pc) <= m * (t * pc)) by (nonlinear_arith)
        requires
            f * ps <= m,
            t * pc > 0,
    ;
    assert(m * (t * pc) < (f + 1) * ps * (t * pc)) by (nonlinear_arith)
        requires
            m < (f + 1) * ps,
            t * pc > 0,
    ;
    assert(f * t * pc * ps <= a * pe * ps) by (nonlinear_arith)
        requires
            f * ps * (t * pc) <= m * (t * pc),
            a * (ps * pe) == m * t * pc,
    ;
    assert(a * pe * ps < (f + 1) * t * pc * ps) by (nonlinear_arith)
        requires
            m * (t * pc) < (f + 1) * ps * (t * pc),
            a * (ps * pe) == m * t * pc,
    ;
    assert(f * t * pc <= a * pe) by (nonlinear_arith)
        requires
            f * t * pc * ps <= a * pe * ps,
            ps > 0,
    ;
    assert(a * pe < (f + 1) * t * pc) by (nonlinear_arith)
        requires
            a * pe * ps < (f + 1) * t * pc * ps,
            ps > 0,
    ;
}

/// When the quotient qty / step is exact and `d` is its floor times the step, `d` is at
/// most `qty` and one more step is above `qty`.
proof fn lemma_rounded_down(
    qty: DecimalModel,
    step: DecimalModel,
    q: DecimalModel,
    d: DecimalModel,
)
    requires
        value_lt(zero_model(), step),
        same_value(qty, exact_product(q, step)),
        same_value(d, steps_of(floor_model(q).0, step)),
    ensures
        value_le(steps_of(floor_model(q).0, step), qty),
        value_lt(qty, steps_of(floor_model(q).0 + 1, step)),
        value_le(d, qty),
{
    let ps = pow10(q.1);
    let pe = pow10(step.1);
    let pc = pow10(qty.1);
    lemma_pow10_positive(q.1);
    lemma_pow10_positive(step.1);
    lemma_pow10_positive(qty.1);
    lemma_pow10_add(q.1, step.1);
    assert(pow10(0) == 1);
    assert(step.0 > 0);
    let m = q.0;
    let f = m / ps;
    assert(f * ps <= m && m < (f + 1) * ps) by (nonlinear_arith)
        requires
            ps > 0,
            f == m / ps,
    ;
    assert(qty.0 * (ps * pe) == m * step.0 * pc);
    lemma_round_down_bounds(qty.0, m, step.0, f, pc, pe, ps);
    lemma_value_le_transitive(d, steps_of(f, step), qty);
}

/// The rules a symbol's filters give, read in order from the defaults.
fn rules_of(filters: &Vec<FilterFields>) -> (r: SymbolRules)
    ensures
        r@ == rules_from_filters(filters@),
{
    let mut step_size = Decimal::new(1, 8);
    let mut min_qty = Decimal::new(1, 8);
    let mut min_notional = Decimal::new(100, 1);
    let lot_size = String::from_str("LOT_SIZE");
    let notional = String::from_str("NOTIONAL");
    let min_notional_type = String::from_str("MIN_NOTIONAL");
    let n = filters.len();
    let mut i: usize = 0;
    while i < n
        invariant
            n == filters@.len(),
            i <= n,
            lot_size@ == "LOT_SIZE"@,
            notional@ == "NOTIONAL"@,
            min_notional_type@ == "MIN_NOTIONAL"@,
            (step_size@, min_qty@, min_notional@) == rules_from_filters(
                filters@.subrange(0, i as int),
            ),
        decreases n - i,
    {
        let f = &filters[i];
        proof {
            let next = filters@.subrange(0, i + 1);
            assert(next.drop_last() =~= filters@.subrange(0, i as int));
            assert(next.last() == *f);
        }
        match &f.filter_type {
            Some(t) => {
                if *t == lot_size {
                    step_size = crate::config::decimal_setting(&f.step_size, step_size);
                    min_qty = crate::config::decimal_setting(&f.min_qty, min_qty);
                } else if *t == notional || *t == min_notional_type {
                    min_notional = crate::config::decimal_setting(&f.min_notional, min_notional);
                }
            },
            None => {},
        }
        i = i + 1;
    }
    proof {
        assert(filters@.subrange(0, n as int) =~= filters@);
    }
    SymbolRules { step_size, min_qty, min_notional }
}


// ---------------------------------------------------------------------------------------
// Sending the three orders of a triangle
// ---------------------------------------------------------------------------------------
/// One order to send: the symbol, the side and the quantity before rounding.
#[derive(Debug, Clone)]
pub struct OrderRequest {
    pub symbol: String,
    pub direction: TradeDirection,
    pub quantity: Decimal,
}

/// The model of an order request.
pub open spec fn request_model(o: OrderRequest) -> (Seq<char>, TradeDirection, DecimalModel) {
    (o.symbol@, o.direction, o.quantity@)
}

/// How far the sending of a triangle's orders has come.
#[derive(Debug)]
pub enum TradeStage {
    /// The first order was sent; its outcome is awaited.
    AwaitLeg1,
    /// The first order filled; the second was sent.
    AwaitLeg2 { order1: u64 },
    /// The first two orders filled; the third was sent after `failures` failed attempts.
    AwaitLeg3 { order1: u64, order2: u64, failures: u32 },
    /// Done: all three filled, or the trade was given up with a message.
    Finished(Result<(), String>),
}

/// The model of a stage.
pub enum StageModel {
    AwaitLeg1,
    AwaitLeg2(u64),
    AwaitLeg3(u64, u64, nat),
    Finished(Result<(), Seq<char>>),
}

/// What to do next: send the order of a leg (1, 2 or 3), send it after a pause in
/// milliseconds, or stop with the trade's result.
pub enum ActionModel {
    Place(int),
    PlaceAfter(nat, int),
    Finish(Result<(), Seq<char>>),
}

/// What to do next.
#[derive(Debug)]
pub enum TradeAction {
    /// Send this order now.
    Place(OrderRequest),
    /// Wait `delay_ms` milliseconds, then send this order.
    PlaceAfter { delay_ms: u64, order: OrderRequest },
    /// Stop: the trade is over with this result.
    Finish(Result<(), String>),
}

/// The model of a result that carries a text.
pub open spec fn result_model(r: Result<(), String>) -> Result<(), Seq<char>> {
    match r {
        Ok(()) => Ok(()),
        Err(m) => Err(m@),
    }
}

/// The model of a stage.
pub open spec fn stage_model(s: TradeStage) -> StageModel {
    match s {
        TradeStage::AwaitLeg1 => StageModel::AwaitLeg1,
        TradeStage::AwaitLeg2 { order1 } => StageModel::AwaitLeg2(order1),
        TradeStage::AwaitLeg3 { order1, order2, failures } => StageModel::AwaitLeg3(
            order1,
            order2,
            failures as nat,
        ),
        TradeStage::Finished(r) => StageModel::Finished(result_model(r)),
    }
}

/// The model of the outcome of an order: its id when it filled, the error text otherwise.
pub open spec fn outcome_model(r: Result<u64, String>) -> Result<u64, Seq<char>> {
    match r {
        Ok(id) => Ok(id),
        Err(m) => Err(m@),
    }
}

/// How many times the third order is tried again after it fails.
pub open spec fn leg3_retries() -> nat {
    3
}

/// The pause before trying the third order again, in milliseconds.
pub open spec fn retry_delay_ms() -> nat {
    500
}

/// The message when the first order fails.
pub open spec fn leg1_failure_text(e: Seq<char>) -> Seq<char> {
    "[CRITICAL] Leg 1 failed to execute! Halting: "@ + debug_text(e)
}

/// The message when the second order fails after the first filled.
pub open spec fn leg2_failure_text(order1: u64, e: Seq<char>) -> Seq<char> {
    "[CRITICAL EMERGENCY] Leg 2 failed! Leg 1 filled successfully (OrderId="@ + integer_text(
        order1 as int,
    ) + "). capital is now in intermediate asset! "@ + debug_text(e)
}

/// The message when the third order fails every time.
pub open spec fn leg3_failure_text() -> Seq<char> {
    "[EMERGENCY] Leg 3 failed completely. Capital trapped."@
}

/// The rules of the sequence. A fill of the first order sends the second, a fill of the
/// second sends the third, a fill of the third ends the trade with success. A failure of the
/// first or second order ends the trade at once. A failure of the third is followed by a
/// pause and another try, up to three times; the next failure ends the trade. A finished
/// trade stays finished and sends nothing.
pub open spec fn transition(s: StageModel, e: Result<u64, Seq<char>>) -> (StageModel, ActionModel) {
    match s {
        StageModel::AwaitLeg1 => match e {
            Ok(id) => (StageModel::AwaitLeg2(id), ActionModel::Place(2)),
            Err(m) => (
                StageModel::Finished(Err(leg1_failure_text(m))),
                ActionModel::Finish(Err(leg1_failure_text(m))),
            ),
        },
        StageModel::AwaitLeg2(order1) => match e {
            Ok(id) => (StageModel::AwaitLeg3(order1, id, 0), ActionModel::Place(3)),
            Err(m) => (
                StageModel::Finished(Err(leg2_failure_text(order1, m))),
                ActionModel::Finish(Err(leg2_failure_text(order1, m))),
            ),
        },
        StageModel::AwaitLeg3(order1, order2, failures) => match e {
            Ok(_) => (StageModel::Finished(Ok(())), ActionModel::Finish(Ok(()))),
            Err(_) => if failures < leg3_retries() {
                (
                    StageModel::AwaitLeg3(order1, order2, failures + 1),
                    ActionModel::PlaceAfter(retry_delay_ms(), 3),
                )
            } else {
                (
                    StageModel::Finished(Err(leg3_failure_text())),
                    ActionModel::Finish(Err(leg3_failure_text())),
                )
            },
        },
        StageModel::Finished(r) => (StageModel::Finished(r), ActionModel::Finish(r)),
    }
}

/// The three orders of a triangle and how far their sending has come.
#[derive(Debug)]
pub struct TradeExecution {
    pub leg1: OrderRequest,
    pub leg2: OrderRequest,
    pub leg3: OrderRequest,
    pub stage: TradeStage,
}

impl TradeExecution {
    /// The model of the order of leg `k`.
    pub open spec fn leg_model(&self, k: int) -> (Seq<char>, TradeDirection, DecimalModel) {
        if k == 1 {
            request_model(self.leg1)
        } else if k == 2 {
            request_model(self.leg2)
        } else {
            request_model(self.leg3)
        }
    }

    /// The action `a` is what the model `m` says, with the orders of this trade.
    pub open spec fn action_agrees(&self, a: TradeAction, m: ActionModel) -> bool {
        match m {
            ActionModel::Place(k) => a matches TradeAction::Place(o) && request_model(o)
                == self.leg_model(k),
            ActionModel::PlaceAfter(d, k) => a matches TradeAction::PlaceAfter { delay_ms, order }
                && delay_ms == d && request_model(order) == self.leg_model(k),
            ActionModel::Finish(r) => a matches TradeAction::Finish(x) && result_model(x) == r,
        }
    }

    /// Starts the trade of an opportunity on a triangle: each leg is ordered on its symbol
    /// and side with the raw quantity the opportunity found for it, and the first order is
    /// sent.
    pub fn start(triangle: &Triangle, opportunity: &ArbitrageOpportunity) -> (r: (
        TradeExecution,
        TradeAction,
    ))
        ensures
            request_model(r.0.leg1) == (
                triangle.leg1.symbol@,
                triangle.leg1.direction,
                opportunity.leg1_raw_qty@,
            ),
            request_model(r.0.leg2) == (
                triangle.leg2.symbol@,
                triangle.leg2.direction,
                opportunity.leg2_raw_qty@,
            ),
            request_model(r.0.leg3) == (
                triangle.leg3.symbol@,
                triangle.leg3.direction,
                opportunity.leg3_raw_qty@,
            ),
            stage_model(r.0.stage) == StageModel::AwaitLeg1,
            r.0.action_agrees(r.1, ActionModel::Place(1)),
    {
        let leg1 = OrderRequest {
            symbol: triangle.leg1.symbol.clone(),
            direction: triangle.leg1.direction,
            quantity: opportunity.leg1_raw_qty,
        };
        let leg2 = OrderRequest {
            symbol: triangle.leg2.symbol.clone(),
            direction: triangle.leg2.direction,
            quantity: opportunity.leg2_raw_qty,
        };
        let leg3 = OrderRequest {
            symbol: triangle.leg3.symbol.clone(),
            direction: triangle.leg3.direction,
            quantity: opportunity.leg3_raw_qty,
        };
        let first = copy_request(&leg1);
        (TradeExecution { leg1, leg2, leg3, stage: TradeStage::AwaitLeg1 }, TradeAction::Place(first))
    }

    /// Takes the outcome of the order last sent (its id when it filled, the error text
    /// otherwise) and gives what to do next, by the rules of `transition`.
    pub fn step(&mut self, outcome: Result<u64, String>) -> (a: TradeAction)
        ensures
            request_model(final(self).leg1) == request_model(old(self).leg1),
            request_model(final(self).leg2) == request_model(old(self).leg2),
            request_model(final(self).leg3) == request_model(old(self).leg3),
            ({
                let (s, m) = transition(stage_model(old(self).stage), outcome_model(outcome));
                stage_model(final(self).stage) == s && final(self).action_agrees(a, m)
            }),
    {
        let (stage, action) = match &self.stage {
            TradeStage::AwaitLeg1 => match outcome {
                Ok(id) => (TradeStage::AwaitLeg2 { order1: id }, TradeAction::Place(copy_request(&self.leg2))),
                Err(e) => {
                    let mut m = String::from_str("[CRITICAL] Leg 1 failed to execute! Halting: ");
                    let d = debug_quoted(e.as_str());
                    m.append(d.as_str());
                    let m2 = m.clone();
                    (TradeStage::Finished(Err(m)), TradeAction::Finish(Err(m2)))
                },
            },
            TradeStage::AwaitLeg2 { order1 } => match outcome {
                Ok(id) => (
                    TradeStage::AwaitLeg3 { order1: *order1, order2: id, failures: 0 },
                    TradeAction::Place(copy_request(&self.leg3)),
                ),
                Err(e) => {
                    let mut m = String::from_str(
                        "[CRITICAL EMERGENCY] Leg 2 failed! Leg 1 filled successfully (OrderId=",
                    );
                    let id_text = u64_text(*order1);
                    m.append(id_text.as_str());
                    m.append("). capital is now in intermediate asset! ");
                    let d = debug_quoted(e.as_str());
                    m.append(d.as_str());
                    let m2 = m.clone();
                    (TradeStage::Finished(Err(m)), TradeAction::Finish(Err(m2)))
                },
            },
            TradeStage::AwaitLeg3 { order1, order2, failures } => match outcome {
                Ok(_) => (TradeStage::Finished(Ok(())), TradeAction::Finish(Ok(()))),
                Err(_) => if *failures < 3 {
                    (
                        TradeStage::AwaitLeg3 {
                            order1: *order1,
                            order2: *order2,
                            failures: *failures + 1,
                        },
                        TradeAction::PlaceAfter { delay_ms: 500, order: copy_request(&self.leg3) },
                    )
                } else {
                    let m = String::from_str("[EMERGENCY] Leg 3 failed completely. Capital trapped.");
                    let m2 = m.clone();
                    (TradeStage::Finished(Err(m)), TradeAction::Finish(Err(m2)))
                },
            },
            TradeStage::Finished(r) => {
                let r1 = copy_result(r);
                let r2 = copy_result(r);
                (TradeStage::Finished(r1), TradeAction::Finish(r2))
            },
        };
        self.stage = stage;
        action
    }
}

/// A copy of an order request.
fn copy_request(o: &OrderRequest) -> (r: OrderRequest)
    ensures
        request_model(r) == request_model(*o),
{
    OrderRequest { symbol: o.symbol.clone(), direction: o.direction, quantity: o.quantity }
}

/// A copy of a result.
fn copy_result(r: &Result<(), String>) -> (c: Result<(), String>)
    ensures
        result_model(c) == result_model(*r),
{
    match r {
        Ok(()) => Ok(()),
        Err(m) => Err(m.clone()),
    }
}


// ---------------------------------------------------------------------------------------
// What every run of the sequence keeps
// ---------------------------------------------------------------------------------------
/// The stage reached and the actions given when the outcomes `events` come in one after the
/// other from stage `s`.
pub open spec fn run(s: StageModel, events: Seq<Result<u64, Seq<char>>>) -> (
    StageModel,
    Seq<ActionModel>,
)
    decreases events.len(),
{
    if events.len() == 0 {
        (s, Seq::empty())
    } else {
        let (s1, a1) = transition(s, events[0]);
        let (s2, rest) = run(s1, events.drop_first());
        (s2, seq![a1] + rest)
    }
}

/// The action sends an order (at once or after a pause).
pub open spec fn sends_order(a: ActionModel) -> bool {
    a is Place || a is PlaceAfter
}

/// The action sends the order of leg 3.
pub open spec fn sends_leg3(a: ActionModel) -> bool {
    match a {
        ActionModel::Place(k) => k == 3,
        ActionModel::PlaceAfter(_, k) => k == 3,
        ActionModel::Finish(_) => false,
    }
}

/// How many of the actions send the order of leg 3.
pub open spec fn leg3_sends(actions: Seq<ActionModel>) -> nat
    decreases actions.len(),
{
    if actions.len() == 0 {
        0
    } else {
        (if sends_leg3(actions[0]) {
            1nat
        } else {
            0nat
        }) + leg3_sends(actions.drop_first())
    }
}

/// How many of the outcomes are fills.
pub open spec fn fills(events: Seq<Result<u64, Seq<char>>>) -> nat
    decreases events.len(),
{
    if events.len() == 0 {
        0
    } else {
        (if events[0] is Ok {
            1nat
        } else {
            0nat
        }) + fills(events.drop_first())
    }
}

/// How many more times the order of leg 3 can still be sent from a stage.
pub open spec fn leg3_budget(s: StageModel) -> nat {
    match s {
        StageModel::AwaitLeg1 => leg3_retries() + 1,
        StageModel::AwaitLeg2(_) => leg3_retries() + 1,
        StageModel::AwaitLeg3(_, _, f) => if f <= leg3_retries() {
            (leg3_retries() - f) as nat
        } else {
            0
        },
        StageModel::Finished(_) => 0,
    }
}

/// How many orders have filled when a stage is reached.
pub open spec fn filled_before(s: StageModel) -> nat {
    match s {
        StageModel::AwaitLeg1 => 0,
        StageModel::AwaitLeg2(_) => 1,
        StageModel::AwaitLeg3(_, _, _) => 2,
        StageModel::Finished(_) => 3,
    }
}

proof fn lemma_leg3_budget(s: StageModel, events: Seq<Result<u64, Seq<char>>>)
    ensures
        leg3_sends(run(s, events).1) <= leg3_budget(s),
    decreases events.len(),
{
    if events.len() > 0 {
        let (s1, a1) = transition(s, events[0]);
        lemma_leg3_budget(s1, events.drop_first());
        let rest = run(s1, events.drop_first()).1;
        let all = seq![a1] + rest;
        assert(all[0] == a1);
        assert(all.drop_first() =~= rest);
    }
}

proof fn lemma_success_counts_fills(s: StageModel, events: Seq<Result<u64, Seq<char>>>)
    ensures
        run(s, events).0 == StageModel::Finished(Ok(())) ==> filled_before(s) + fills(events)
            >= 3 || s == StageModel::Finished(Ok(())),
    decreases events.len(),
{
    if events.len() > 0 {
        let (s1, a1) = transition(s, events[0]);
        lemma_success_counts_fills(s1, events.drop_first());
        assert(fills(events) == (if events[0] is Ok {
            1nat
        } else {
            0nat
        }) + fills(events.drop_first()));
        if let StageModel::Finished(r) = s1 {
            law_finished_sends_nothing(r, events.drop_first());
        }
    }
}

/// The order of leg 3 is sent at most four times in a trade: once, and then at most three
/// more times after failures.
pub proof fn law_leg3_sent_at_most_four_times(events: Seq<Result<u64, Seq<char>>>)
    ensures
        leg3_sends(run(StageModel::AwaitLeg1, events).1) <= leg3_retries() + 1,
{
    lemma_leg3_budget(StageModel::AwaitLeg1, events);
}

/// A trade ends with success only after three of the outcomes were fills.
pub proof fn law_success_needs_three_fills(events: Seq<Result<u64, Seq<char>>>)
    ensures
        run(StageModel::AwaitLeg1, events).0 == StageModel::Finished(Ok(())) ==> fills(events)
            >= 3,
{
    lemma_success_counts_fills(StageModel::AwaitLeg1, events);
}

/// A finished trade stays finished with the same result and sends no more orders, whatever
/// outcomes come in; in particular nothing is sent after the first or second order failed.
pub proof fn law_finished_sends_nothing(
    r: Result<(), Seq<char>>,
    events: Seq<Result<u64, Seq<char>>>,
)
    ensures
        run(StageModel::Finished(r), events).0 == StageModel::Finished(r),
        forall|i: int|
            0 <= i < run(StageModel::Finished(r), events).1.len() ==> !sends_order(
                #[trigger] run(StageModel::Finished(r), events).1[i],
            ),
    decreases events.len(),
{
    if events.len() > 0 {
        law_finished_sends_nothing(r, events.drop_first());
        let rest = run(StageModel::Finished(r), events.drop_first()).1;
        let all = seq![ActionModel::Finish(r)] + rest;
        assert forall|i: int| 0 <= i < all.len() implies !sends_order(#[trigger] all[i]) by {
            if i > 0 {
                assert(all[i] == rest[i - 1]);
            }
        }
    }
}

/// A failed first or second order ends the trade at once with its message, and the order
/// of the next leg is not sent.
pub proof fn law_early_failure_stops(order1: u64, e: Seq<char>)
    ensures
        transition(StageModel::AwaitLeg1, Err(e)) == (
            StageModel::Finished(Err(leg1_failure_text(e))),
            ActionModel::Finish(Err(leg1_failure_text(e))),
        ),
        transition(StageModel::AwaitLeg2(order1), Err(e)) == (
            StageModel::Finished(Err(leg2_failure_text(order1, e))),
            ActionModel::Finish(Err(leg2_failure_text(order1, e))),
        ),
{
}


/// Reading the exchange's descriptions gives no rules to a symbol outside the targets:
/// such a symbol keeps what it had.
pub proof fn law_rules_only_for_targets(
    start: Map<Seq<char>, RulesModel>,
    targets: Seq<Seq<char>>,
    infos: Seq<SymbolFilters>,
    symbol: Seq<char>,
)
    requires
        !targets.contains(symbol),
    ensures
        loaded_rules(start, targets, infos).contains_key(symbol) == start.contains_key(symbol),
        start.contains_key(symbol) ==> loaded_rules(start, targets, infos)[symbol] == start[symbol],
    decreases infos.len(),
{
    if infos.len() > 0 {
        law_rules_only_for_targets(start, targets, infos.drop_last(), symbol);
    }
}


/// The leg whose order the action sends (0 when it sends none).
pub open spec fn sent_leg(a: ActionModel) -> int {
    match a {
        ActionModel::Place(k) => k,
        ActionModel::PlaceAfter(_, k) => k,
        ActionModel::Finish(_) => 0,
    }
}

/// The legs whose orders the actions send, in order.
pub open spec fn sent_legs(actions: Seq<ActionModel>) -> Seq<int>
    decreases actions.len(),
{
    if actions.len() == 0 {
        Seq::empty()
    } else if sends_order(actions[0]) {
        seq![sent_leg(actions[0])] + sent_legs(actions.drop_first())
    } else {
        sent_legs(actions.drop_first())
    }
}

/// The legs sent from a stage on have the shape that stage allows: from the first stage,
/// leg 2 and then only leg 3; from the later waiting stages only leg 3; once finished,
/// nothing.
pub open spec fn legs_follow(s: StageModel, sent: Seq<int>) -> bool {
    match s {
        StageModel::AwaitLeg1 => forall|k: int|
            0 <= k < sent.len() ==> #[trigger] sent[k] == (if k == 0 {
                2int
            } else {
                3int
            }),
        StageModel::AwaitLeg2(_) => forall|k: int| 0 <= k < sent.len() ==> #[trigger] sent[k] == 3,
        StageModel::AwaitLeg3(_, _, _) => forall|k: int|
            0 <= k < sent.len() ==> #[trigger] sent[k] == 3,
        StageModel::Finished(_) => sent.len() == 0,
    }
}

proof fn lemma_legs_follow(s: StageModel, events: Seq<Result<u64, Seq<char>>>)
    ensures
        legs_follow(s, sent_legs(run(s, events).1)),
    decreases events.len(),
{
    if events.len() > 0 {
        let (s1, a1) = transition(s, events[0]);
        lemma_legs_follow(s1, events.drop_first());
        let rest = run(s1, events.drop_first()).1;
        let all = seq![a1] + rest;
        assert(all[0] == a1);
        assert(all.drop_first() =~= rest);
        let tail = sent_legs(rest);
        if sends_order(a1) {
            let sent = seq![sent_leg(a1)] + tail;
            assert forall|k: int| 0 < k < sent.len() implies sent[k] == tail[k - 1] by {}
        }
    }
}

/// The orders of a trade go out in sequence: leg 1 first (when the trade starts), then
/// leg 2, then leg 3 again and again; no other order and no other sequence is ever sent.
pub proof fn law_orders_in_sequence(events: Seq<Result<u64, Seq<char>>>)
    ensures
        ({
            let sent = seq![1int] + sent_legs(run(StageModel::AwaitLeg1, events).1);
            forall|k: int|
                0 <= k < sent.len() ==> #[trigger] sent[k] == (if k == 0 {
                    1int
                } else if k == 1 {
                    2int
                } else {
                    3int
                })
        }),
{
    lemma_legs_follow(StageModel::AwaitLeg1, events);
    let tail = sent_legs(run(StageModel::AwaitLeg1, events).1);
    let sent = seq![1int] + tail;
    assert forall|k: int| 0 < k < sent.len() implies sent[k] == tail[k - 1] by {}
}

proof fn lemma_success_is_a_leg3_fill(s: StageModel, events: Seq<Result<u64, Seq<char>>>)
    requires
        s != StageModel::Finished(Ok(())),
        run(s, events).0 == StageModel::Finished(Ok(())),
    ensures
        exists|i: int|
            0 <= i < events.len() && events[i] is Ok && #[trigger] run(s, events.take(i)).0 is AwaitLeg3,
    decreases events.len(),
{
    if events.len() == 0 {
    } else {
        let (s1, a1) = transition(s, events[0]);
        let rest = events.drop_first();
        assert(events.take(0).len() == 0);
        if s1 == StageModel::Finished(Ok(())) {
            assert(run(s, events.take(0)).0 == s);
            assert(s is AwaitLeg3);
        } else {
            if let StageModel::Finished(r) = s1 {
                law_finished_sends_nothing(r, rest);
            }
            lemma_success_is_a_leg3_fill(s1, rest);
            let i = choose|i: int|
                0 <= i < rest.len() && rest[i] is Ok && #[trigger] run(s1, rest.take(i)).0 is AwaitLeg3;
            assert(events[i + 1] == rest[i]);
            let pre = events.take(i + 1);
            assert(pre[0] == events[0]);
            assert(pre.drop_first() =~= rest.take(i));
            assert(run(s, pre).0 == run(s1, rest.take(i)).0);
        }
    }
}

/// A trade ends with success only on a fill of the order of leg 3: the outcome that ends
/// it is a fill that came in while leg 3 was awaited.
pub proof fn law_success_is_a_leg3_fill(events: Seq<Result<u64, Seq<char>>>)
    ensures
        run(StageModel::AwaitLeg1, events).0 == StageModel::Finished(Ok(())) ==> exists|i: int|
            0 <= i < events.len() && events[i] is Ok && #[trigger] run(
                StageModel::AwaitLeg1,
                events.take(i),
            ).0 is AwaitLeg3,
{
    if run(StageModel::AwaitLeg1, events).0 == StageModel::Finished(Ok(())) {
        lemma_success_is_a_leg3_fill(StageModel::AwaitLeg1, events);
    }
}


/// Starting from no rules, the symbols that get rules are exactly the described symbols
/// that are among the targets.
pub proof fn law_loaded_rule_keys(targets: Seq<Seq<char>>, infos: Seq<SymbolFilters>)
    ensures
        forall|x: Seq<char>|
            #[trigger] loaded_rules(Map::empty(), targets, infos).contains_key(x) <==> targets.contains(x)
                && exists|i: int| 0 <= i < infos.len() && #[trigger] infos[i].symbol@ == x,
    decreases infos.len(),
{
    if infos.len() > 0 {
        let prefix = infos.drop_last();
        law_loaded_rule_keys(targets, prefix);
        assert forall|x: Seq<char>|
            #[trigger] loaded_rules(Map::empty(), targets, infos).contains_key(x) <==> targets.contains(x)
                && exists|i: int| 0 <= i < infos.len() && #[trigger] infos[i].symbol@ == x by {
            if exists|i: int| 0 <= i < infos.len() && #[trigger] infos[i].symbol@ == x {
                let i = choose|i: int| 0 <= i < infos.len() && #[trigger] infos[i].symbol@ == x;
                if i < prefix.len() {
                    assert(prefix[i].symbol@ == x);
                }
            }
            if exists|i: int| 0 <= i < prefix.len() && #[trigger] prefix[i].symbol@ == x {
                let i = choose|i: int| 0 <= i < prefix.len() && #[trigger] prefix[i].symbol@ == x;
                assert(infos[i].symbol@ == x);
            }
            let before = loaded_rules(Map::empty(), targets, prefix);
            assert(before.contains_key(x) <==> targets.contains(x) && exists|i: int|
                0 <= i < prefix.len() && #[trigger] prefix[i].symbol@ == x);
            let last = infos.last();
            assert(loaded_rules(Map::empty(), targets, infos) == (if targets.contains(last.symbol@) {
                before.insert(last.symbol@, rules_from_filters(last.filters@))
            } else {
                before
            }));
            if x == last.symbol@ {
                assert(infos[infos.len() - 1].symbol@ == x);
            }
        }
    }
}

/// The order of leg 2 is sent only on a fill of leg 1, the order of leg 3 is first sent only
/// on a fill of leg 2, and it is sent again only after a failure of leg 3.
pub proof fn law_next_leg_after_fill(s: StageModel, e: Result<u64, Seq<char>>)
    ensures
        transition(s, e).1 == ActionModel::Place(2) ==> s is AwaitLeg1 && e is Ok,
        transition(s, e).1 == ActionModel::Place(3) ==> s is AwaitLeg2 && e is Ok,
        transition(s, e).1 is PlaceAfter ==> s is AwaitLeg3 && e is Err,
        transition(s, e).1 is Place || transition(s, e).1 is PlaceAfter ==> !(s is Finished),
{
}


/// Only a "LOT_SIZE" filter sets the step size and the least quantity, and only a
/// "NOTIONAL" or "MIN_NOTIONAL" filter sets the least value; every other filter leaves
/// them as they were.
pub proof fn law_filters_set_only_their_rules(r: RulesModel, f: FilterFields)
    ensures
        !type_is(f, "LOT_SIZE"@) ==> apply_filter(r, f).0 == r.0 && apply_filter(r, f).1 == r.1,
        !(type_is(f, "NOTIONAL"@) || type_is(f, "MIN_NOTIONAL"@)) ==> apply_filter(r, f).2 == r.2,
        type_is(f, "LOT_SIZE"@) ==> apply_filter(r, f) == (
            decimal_or(f.step_size, r.0),
            decimal_or(f.min_qty, r.1),
            r.2,
        ),
{
    assert(!(type_is(f, "LOT_SIZE"@) && (type_is(f, "NOTIONAL"@) || type_is(f, "MIN_NOTIONAL"@))))
        by {
        reveal_strlit("LOT_SIZE");
        reveal_strlit("NOTIONAL");
        reveal_strlit("MIN_NOTIONAL");
        if type_is(f, "LOT_SIZE"@) && type_is(f, "NOTIONAL"@) {
            assert("LOT_SIZE"@[0] != "NOTIONAL"@[0]);
        }
        if type_is(f, "LOT_SIZE"@) && type_is(f, "MIN_NOTIONAL"@) {
            assert("LOT_SIZE"@.len() != "MIN_NOTIONAL"@.len());
        }
    }
}

/// Appending a filter that is not "LOT_SIZE" to a symbol's filters keeps its step size and
/// least quantity; appending one that is neither "NOTIONAL" nor "MIN_NOTIONAL" keeps its
/// least value.
pub proof fn law_other_filters_keep_rules(filters: Seq<FilterFields>, f: FilterFields)
    ensures
        !type_is(f, "LOT_SIZE"@) ==> rules_from_filters(filters.push(f)).0 == rules_from_filters(
            filters,
        ).0 && rules_from_filters(filters.push(f)).1 == rules_from_filters(filters).1,
        !(type_is(f, "NOTIONAL"@) || type_is(f, "MIN_NOTIONAL"@)) ==> rules_from_filters(
            filters.push(f),
        ).2 == rules_from_filters(filters).2,
{
    assert(filters.push(f).drop_last() =~= filters);
    assert(filters.push(f).last() == f);
    law_filters_set_only_their_rules(rules_from_filters(filters), f);
}

} // verus!
