//! Simulation of market orders against order books and the search for profitable
//! three-leg round trips.
//!
//! Every computation is stated over the decimal operations it performs, in the order it
//! performs them. An operation that overflows (or divides by zero) makes the whole
//! computation fail: the `checked_*` functions report it as an `ArithmeticError`, the others
//! leave such inputs out by their precondition.
use crate::config::{TradeDirection, Triangle};
use crate::decimal::{
    checked_add, checked_div, checked_mul, checked_sub, decimal_checked_add, decimal_checked_div,
    decimal_checked_mul, decimal_checked_sub, exact_product, fits, le, lemma_value_le_lt_transitive,
    lemma_value_le_transitive, lemma_value_lt_le_transitive, lemma_value_lt_scaled, same_value, lt, max_model, one_model, value_le, value_lt, zero_model, Decimal,
    DecimalModel,
};
use crate::market_data::{OrderBook, OrderBookLevel};
use crate::symbol_map::SymbolMap;
use vstd::prelude::*;

verus! {

/// A decimal operation overflowed or divided by zero.
#[derive(Debug, Clone, Copy, PartialEq, Eq, Structural)]
pub struct ArithmeticError;

/// The outcome of a computation: a value, no value (the book is too thin or a book is
/// missing), or an arithmetic fault.
pub enum Outcome<T> {
    Value(T),
    Absent,
    Fault,
}

/// A trade worth making, with the quantities to send for each of its three orders.
#[derive(Debug, Clone)]
pub struct ArbitrageOpportunity {
    pub path_name: String,
    /// USDT put in.
    pub optimal_volume: Decimal,
    /// Expected net profit in percent.
    pub expected_profit_pct: Decimal,
    /// Expected net profit in USDT.
    pub expected_profit_usdt: Decimal,
    pub leg1_raw_qty: Decimal,
    pub leg2_raw_qty: Decimal,
    pub leg3_raw_qty: Decimal,
}

/// The model of an opportunity.
pub struct OpportunityModel {
    pub path_name: Seq<char>,
    pub optimal_volume: DecimalModel,
    pub expected_profit_pct: DecimalModel,
    pub expected_profit_usdt: DecimalModel,
    pub leg1_raw_qty: DecimalModel,
    pub leg2_raw_qty: DecimalModel,
    pub leg3_raw_qty: DecimalModel,
}

/// The model of an opportunity.
pub open spec fn opportunity_model(o: ArbitrageOpportunity) -> OpportunityModel {
    OpportunityModel {
        path_name: o.path_name@,
        optimal_volume: o.optimal_volume@,
        expected_profit_pct: o.expected_profit_pct@,
        expected_profit_usdt: o.expected_profit_usdt@,
        leg1_raw_qty: o.leg1_raw_qty@,
        leg2_raw_qty: o.leg2_raw_qty@,
        leg3_raw_qty: o.leg3_raw_qty@,
    }
}

/// The model of an optional opportunity.
pub open spec fn opt_opportunity_model(o: Option<ArbitrageOpportunity>) -> Option<OpportunityModel> {
    match o {
        Some(x) => Some(opportunity_model(x)),
        None => None,
    }
}

// ---------------------------------------------------------------------------------------
// Sweeping the levels of a book
// ---------------------------------------------------------------------------------------
/// Walks the levels spending `remaining`, where a level is worth price * quantity of what is
/// spent and yields its quantity. At the level that can absorb the rest, the rest buys
/// rest / price and nothing remains. Gives (what remains, what was obtained), or None on a
/// fault.
pub open spec fn sweep_by_cost(
    levels: Seq<OrderBookLevel>,
    remaining: DecimalModel,
    obtained: DecimalModel,
) -> Option<(DecimalModel, DecimalModel)>
    decreases levels.len(),
{
    if levels.len() == 0 {
        Some((remaining, obtained))
    } else {
        let price = levels[0].price@;
        let quantity = levels[0].quantity@;
        match decimal_checked_mul(price, quantity) {
            None => None,
            Some(cost) => if value_le(remaining, cost) {
                match decimal_checked_div(remaining, price) {
                    None => None,
                    Some(part) => match decimal_checked_add(obtained, part) {
                        None => None,
                        Some(total) => Some((zero_model(), total)),
                    },
                }
            } else {
                match decimal_checked_add(obtained, quantity) {
                    None => None,
                    Some(total) => match decimal_checked_sub(remaining, cost) {
                        None => None,
                        Some(left) => sweep_by_cost(levels.drop_first(), left, total),
                    },
                }
            },
        }
    }
}

/// Walks the levels giving up `remaining` units, where a level takes up to its quantity and
/// yields price for each unit. At the level that can absorb the rest, the rest yields
/// rest * price and nothing remains. Gives (what remains, what was obtained), or None on a
/// fault.
pub open spec fn sweep_by_quantity(
    levels: Seq<OrderBookLevel>,
    remaining: DecimalModel,
    obtained: DecimalModel,
) -> Option<(DecimalModel, DecimalModel)>
    decreases levels.len(),
{
    if levels.len() == 0 {
        Some((remaining, obtained))
    } else {
        let price = levels[0].price@;
        let quantity = levels[0].quantity@;
        if value_le(remaining, quantity) {
            match decimal_checked_mul(remaining, price) {
                None => None,
                Some(part) => match decimal_checked_add(obtained, part) {
                    None => None,
                    Some(total) => Some((zero_model(), total)),
                },
            }
        } else {
            match decimal_checked_mul(quantity, price) {
                None => None,
                Some(value) => match decimal_checked_add(obtained, value) {
                    None => None,
                    Some(total) => match decimal_checked_sub(remaining, quantity) {
                        None => None,
                        Some(left) => sweep_by_quantity(levels.drop_first(), left, total),
                    },
                },
            }
        }
    }
}

/// The executable form of `sweep_by_cost`, starting from nothing obtained.
fn run_sweep_by_cost(levels: &Vec<OrderBookLevel>, amount: Decimal) -> (r: Result<
    (Decimal, Decimal),
    ArithmeticError,
>)
    ensures
        match sweep_by_cost(levels@, amount@, zero_model()) {
            Some((rem, got)) => r matches Ok((a, b)) && a@ == rem && b@ == got,
            None => r is Err,
        },
{
    let mut remaining = amount;
    let mut obtained = Decimal::zero();
    let n = levels.len();
    let mut i: usize = 0;
    assert(levels@.skip(0) =~= levels@);
    while i < n
        invariant
            n == levels@.len(),
            i <= n,
            sweep_by_cost(levels@, amount@, zero_model()) == sweep_by_cost(
                levels@.skip(i as int),
                remaining@,
                obtained@,
            ),
        decreases n - i,
    {
        let level = levels[i];
        assert(levels@.skip(i as int)[0] == level);
        assert(levels@.skip(i as int).drop_first() =~= levels@.skip(i + 1));
        let cost = match checked_mul(level.price, level.quantity) {
            Some(c) => c,
            None => {
                return Err(ArithmeticError);
            },
        };
        if le(&remaining, &cost) {
            let part = match checked_div(remaining, level.price) {
                Some(p) => p,
                None => {
                    return Err(ArithmeticError);
                },
            };
            let total = match checked_add(obtained, part) {
                Some(t) => t,
                None => {
                    return Err(ArithmeticError);
                },
            };
            return Ok((Decimal::zero(), total));
        }
        obtained = match checked_add(obtained, level.quantity) {
            Some(t) => t,
            None => {
                return Err(ArithmeticError);
            },
        };
        remaining = match checked_sub(remaining, cost) {
            Some(l) => l,
            None => {
                return Err(ArithmeticError);
            },
        };
        i = i + 1;
    }
    assert(levels@.skip(n as int).len() == 0);
    Ok((remaining, obtained))
}

/// The executable form of `sweep_by_quantity`, starting from nothing obtained.
fn run_sweep_by_quantity(levels: &Vec<OrderBookLevel>, amount: Decimal) -> (r: Result<
    (Decimal, Decimal),
    ArithmeticError,
>)
    ensures
        match sweep_by_quantity(levels@, amount@, zero_model()) {
            Some((rem, got)) => r matches Ok((a, b)) && a@ == rem && b@ == got,
            None => r is Err,
        },
{
    let mut remaining = amount;
    let mut obtained = Decimal::zero();
    let n = levels.len();
    let mut i: usize = 0;
    assert(levels@.skip(0) =~= levels@);
    while i < n
        invariant
            n == levels@.len(),
            i <= n,
            sweep_by_quantity(levels@, amount@, zero_model()) == sweep_by_quantity(
                levels@.skip(i as int),
                remaining@,
                obtained@,
            ),
        decreases n - i,
    {
        let level = levels[i];
        assert(levels@.skip(i as int)[0] == level);
        assert(levels@.skip(i as int).drop_first() =~= levels@.skip(i + 1));
        if le(&remaining, &level.quantity) {
            let part = match checked_mul(remaining, level.price) {
                Some(p) => p,
                None => {
                    return Err(ArithmeticError);
                },
            };
            let total = match checked_add(obtained, part) {
                Some(t) => t,
                None => {
                    return Err(ArithmeticError);
                },
            };
            return Ok((Decimal::zero(), total));
        }
        let value = match checked_mul(level.quantity, level.price) {
            Some(v) => v,
            None => {
                return Err(ArithmeticError);
            },
        };
        obtained = match checked_add(obtained, value) {
            Some(t) => t,
            None => {
                return Err(ArithmeticError);
            },
        };
        remaining = match checked_sub(remaining, level.quantity) {
            Some(l) => l,
            None => {
                return Err(ArithmeticError);
            },
        };
        i = i + 1;
    }
    assert(levels@.skip(n as int).len() == 0);
    Ok((remaining, obtained))
}

// ---------------------------------------------------------------------------------------
// One leg
// ---------------------------------------------------------------------------------------
/// The outcome of sending `volume_in` through one leg: (raw received, net of the fee).
/// A Buy spends quote on the asks, a Sell spends base on the bids; if the book cannot absorb
/// all of it, there is no value. The net amount is raw * (1 - fee_rate).
pub open spec fn leg_outcome(
    volume_in: DecimalModel,
    direction: TradeDirection,
    book: OrderBook,
    fee_rate: DecimalModel,
) -> Outcome<(DecimalModel, DecimalModel)> {
    if volume_in.0 == 0 {
        Outcome::Value((zero_model(), zero_model()))
    } else {
        let swept = match direction {
            TradeDirection::Buy => sweep_by_cost(book.asks@, volume_in, zero_model()),
            TradeDirection::Sell => sweep_by_quantity(book.bids@, volume_in, zero_model()),
        };
        match swept {
            None => Outcome::Fault,
            Some((remaining, raw)) => if value_lt(zero_model(), remaining) {
                Outcome::Absent
            } else {
                match decimal_checked_sub(one_model(), fee_rate) {
                    None => Outcome::Fault,
                    Some(keep) => match decimal_checked_mul(raw, keep) {
                        None => Outcome::Fault,
                        Some(net) => Outcome::Value((raw, net)),
                    },
                }
            },
        }
    }
}

/// `r` is what the outcome `o` of a pair computation says.
pub open spec fn pair_agrees(
    r: Result<Option<(Decimal, Decimal)>, ArithmeticError>,
    o: Outcome<(DecimalModel, DecimalModel)>,
) -> bool {
    match o {
        Outcome::Value(v) => r matches Ok(Some(p)) && p.0@ == v.0 && p.1@ == v.1,
        Outcome::Absent => r matches Ok(None),
        Outcome::Fault => r is Err,
    }
}

/// `r` is what the outcome `o` of a single-number computation says.
pub open spec fn number_agrees(
    r: Result<Option<Decimal>, ArithmeticError>,
    o: Outcome<DecimalModel>,
) -> bool {
    match o {
        Outcome::Value(v) => r matches Ok(Some(d)) && d@ == v,
        Outcome::Absent => r matches Ok(None),
        Outcome::Fault => r is Err,
    }
}

/// Simulates a single market order, reporting arithmetic faults.
pub fn checked_simulate_leg(
    volume_in: Decimal,
    direction: TradeDirection,
    book: &OrderBook,
    fee_rate: Decimal,
) -> (r: Result<Option<(Decimal, Decimal)>, ArithmeticError>)
    ensures
        pair_agrees(r, leg_outcome(volume_in@, direction, *book, fee_rate@)),
{
    if volume_in.is_zero() {
        return Ok(Some((Decimal::zero(), Decimal::zero())));
    }
    let swept = match direction {
        TradeDirection::Buy => run_sweep_by_cost(&book.asks, volume_in),
        TradeDirection::Sell => run_sweep_by_quantity(&book.bids, volume_in),
    };
    let (remaining, raw) = match swept {
        Ok(p) => p,
        Err(e) => {
            return Err(e);
        },
    };
    if lt(&Decimal::zero(), &remaining) {
        return Ok(None);
    }
    let keep = match checked_sub(Decimal::one(), fee_rate) {
        Some(k) => k,
        None => {
            return Err(ArithmeticError);
        },
    };
    match checked_mul(raw, keep) {
        Some(net) => Ok(Some((raw, net))),
        None => Err(ArithmeticError),
    }
}

/// Simulates a single market order of `volume_in` against the book.
/// Returns (raw received, net received after the fee), or None when the book is too thin.
pub fn simulate_leg(
    volume_in: Decimal,
    direction: TradeDirection,
    book: &OrderBook,
    fee_rate: Decimal,
) -> (r: Option<(Decimal, Decimal)>)
    requires
        !(leg_outcome(volume_in@, direction, *book, fee_rate@) is Fault),
    ensures
        pair_agrees(Ok(r), leg_outcome(volume_in@, direction, *book, fee_rate@)),
{
    match checked_simulate_leg(volume_in, direction, book, fee_rate) {
        Ok(r) => r,
        Err(_) => None,
    }
}

/// The outcome of asking what must go into one leg so that `desired_output` comes out net
/// of the fee: raw = desired / (1 - fee_rate), then a Buy sweeps the asks for raw units of
/// base and a Sell sweeps the bids for raw of quote. No value if the book is too thin.
pub open spec fn reverse_outcome(
    desired_output: DecimalModel,
    direction: TradeDirection,
    book: OrderBook,
    fee_rate: DecimalModel,
) -> Outcome<DecimalModel> {
    if desired_output.0 == 0 {
        Outcome::Value(zero_model())
    } else {
        match decimal_checked_sub(one_model(), fee_rate) {
            None => Outcome::Fault,
            Some(keep) => match decimal_checked_div(desired_output, keep) {
                None => Outcome::Fault,
                Some(raw_needed) => {
                    let swept = match direction {
                        TradeDirection::Buy => sweep_by_quantity(
                            book.asks@,
                            raw_needed,
                            zero_model(),
                        ),
                        TradeDirection::Sell => sweep_by_cost(book.bids@, raw_needed, zero_model()),
                    };
                    match swept {
                        None => Outcome::Fault,
                        Some((remaining, input)) => if value_lt(zero_model(), remaining) {
                            Outcome::Absent
                        } else {
                            Outcome::Value(input)
                        },
                    }
                },
            },
        }
    }
}

/// The input a leg needs for a given net output, reporting arithmetic faults.
pub fn checked_reverse_simulate_leg(
    desired_output: Decimal,
    direction: TradeDirection,
    book: &OrderBook,
    fee_rate: Decimal,
) -> (r: Result<Option<Decimal>, ArithmeticError>)
    ensures
        number_agrees(r, reverse_outcome(desired_output@, direction, *book, fee_rate@)),
{
    if desired_output.is_zero() {
        return Ok(Some(Decimal::zero()));
    }
    let keep = match checked_sub(Decimal::one(), fee_rate) {
        Some(k) => k,
        None => {
            return Err(ArithmeticError);
        },
    };
    let raw_needed = match checked_div(desired_output, keep) {
        Some(x) => x,
        None => {
            return Err(ArithmeticError);
        },
    };
    let swept = match direction {
        TradeDirection::Buy => run_sweep_by_quantity(&book.asks, raw_needed),
        TradeDirection::Sell => run_sweep_by_cost(&book.bids, raw_needed),
    };
    match swept {
        Ok((remaining, input)) => if lt(&Decimal::zero(), &remaining) {
            Ok(None)
        } else {
            Ok(Some(input))
        },
        Err(e) => Err(e),
    }
}

/// The raw input a leg needs so that `desired_output` comes out net of the fee, or None when
/// the book is too thin.
pub fn reverse_simulate_leg(
    desired_output: Decimal,
    direction: TradeDirection,
    book: &OrderBook,
    fee_rate: Decimal,
) -> (r: Option<Decimal>)
    requires
        !(reverse_outcome(desired_output@, direction, *book, fee_rate@) is Fault),
    ensures
        number_agrees(Ok(r), reverse_outcome(desired_output@, direction, *book, fee_rate@)),
{
    match checked_reverse_simulate_leg(desired_output, direction, book, fee_rate) {
        Ok(r) => r,
        Err(_) => None,
    }
}

// ---------------------------------------------------------------------------------------
// The whole triangle
// ---------------------------------------------------------------------------------------
/// The books of all three legs are present.
pub open spec fn has_books(t: Triangle, books: Map<Seq<char>, OrderBook>) -> bool {
    &&& books.contains_key(t.leg1.symbol@)
    &&& books.contains_key(t.leg2.symbol@)
    &&& books.contains_key(t.leg3.symbol@)
}

/// The USDT that comes back from sending `volume_in_usdt` through the three legs, each leg
/// receiving the net output of the one before. No value if a book is missing or too thin.
pub open spec fn triangle_outcome(
    volume_in_usdt: DecimalModel,
    t: Triangle,
    books: Map<Seq<char>, OrderBook>,
    fee_rate: DecimalModel,
) -> Outcome<DecimalModel> {
    if !has_books(t, books) {
        Outcome::Absent
    } else {
        match leg_outcome(volume_in_usdt, t.leg1.direction, books[t.leg1.symbol@], fee_rate) {
            Outcome::Fault => Outcome::Fault,
            Outcome::Absent => Outcome::Absent,
            Outcome::Value((_, net1)) => match leg_outcome(
                net1,
                t.leg2.direction,
                books[t.leg2.symbol@],
                fee_rate,
            ) {
                Outcome::Fault => Outcome::Fault,
                Outcome::Absent => Outcome::Absent,
                Outcome::Value((_, net2)) => match leg_outcome(
                    net2,
                    t.leg3.direction,
                    books[t.leg3.symbol@],
                    fee_rate,
                ) {
                    Outcome::Fault => Outcome::Fault,
                    Outcome::Absent => Outcome::Absent,
                    Outcome::Value((_, net3)) => Outcome::Value(net3),
                },
            },
        }
    }
}

/// Runs the whole triangle forward, reporting arithmetic faults.
pub fn checked_simulate_triangle(
    volume_in_usdt: Decimal,
    triangle: &Triangle,
    books: &SymbolMap<OrderBook>,
    fee_rate: Decimal,
) -> (r: Result<Option<Decimal>, ArithmeticError>)
    ensures
        number_agrees(r, triangle_outcome(volume_in_usdt@, *triangle, books@, fee_rate@)),
{
    let book1 = match books.get(triangle.leg1.symbol.as_str()) {
        Some(b) => b,
        None => {
            return Ok(None);
        },
    };
    let book2 = match books.get(triangle.leg2.symbol.as_str()) {
        Some(b) => b,
        None => {
            return Ok(None);
        },
    };
    let book3 = match books.get(triangle.leg3.symbol.as_str()) {
        Some(b) => b,
        None => {
            return Ok(None);
        },
    };
    let net1 = match checked_simulate_leg(volume_in_usdt, triangle.leg1.direction, book1, fee_rate) {
        Ok(Some((_, n))) => n,
        Ok(None) => {
            return Ok(None);
        },
        Err(e) => {
            return Err(e);
        },
    };
    let net2 = match checked_simulate_leg(net1, triangle.leg2.direction, book2, fee_rate) {
        Ok(Some((_, n))) => n,
        Ok(None) => {
            return Ok(None);
        },
        Err(e) => {
            return Err(e);
        },
    };
    match checked_simulate_leg(net2, triangle.leg3.direction, book3, fee_rate) {
        Ok(Some((_, n))) => Ok(Some(n)),
        Ok(None) => Ok(None),
        Err(e) => Err(e),
    }
}

/// Runs the whole triangle forward and returns the final USDT, or None when a book is
/// missing or too thin.
pub fn simulate_triangle(
    volume_in_usdt: Decimal,
    triangle: &Triangle,
    books: &SymbolMap<OrderBook>,
    fee_rate: Decimal,
) -> (r: Option<Decimal>)
    requires
        !(triangle_outcome(volume_in_usdt@, *triangle, books@, fee_rate@) is Fault),
    ensures
        number_agrees(Ok(r), triangle_outcome(volume_in_usdt@, *triangle, books@, fee_rate@)),
{
    match checked_simulate_triangle(volume_in_usdt, triangle, books, fee_rate) {
        Ok(r) => r,
        Err(_) => None,
    }
}

// ---------------------------------------------------------------------------------------
// Capacity of a triangle
// ---------------------------------------------------------------------------------------
/// The sum, in order, of price * quantity over the levels; None on a fault.
pub open spec fn total_cost(levels: Seq<OrderBookLevel>) -> Option<DecimalModel>
    decreases levels.len(),
{
    if levels.len() == 0 {
        Some(zero_model())
    } else {
        match total_cost(levels.drop_last()) {
            None => None,
            Some(sum) => match decimal_checked_mul(levels.last().price@, levels.last().quantity@) {
                None => None,
                Some(cost) => decimal_checked_add(sum, cost),
            },
        }
    }
}

/// The sum, in order, of the quantities of the levels; None on a fault.
pub open spec fn total_quantity(levels: Seq<OrderBookLevel>) -> Option<DecimalModel>
    decreases levels.len(),
{
    if levels.len() == 0 {
        Some(zero_model())
    } else {
        match total_quantity(levels.drop_last()) {
            None => None,
            Some(sum) => decimal_checked_add(sum, levels.last().quantity@),
        }
    }
}

/// The smaller of two numbers; the first when they are equal.
pub open spec fn min_value(a: DecimalModel, b: DecimalModel) -> DecimalModel {
    if value_le(a, b) {
        a
    } else {
        b
    }
}

/// The USDT leg 1 needs to deliver `amount` of A net; the largest decimal when the book of
/// leg 1 is too thin. None on a fault.
pub open spec fn usdt_for_leg1(
    amount: DecimalModel,
    t: Triangle,
    books: Map<Seq<char>, OrderBook>,
    fee_rate: DecimalModel,
) -> Option<DecimalModel> {
    match reverse_outcome(amount, t.leg1.direction, books[t.leg1.symbol@], fee_rate) {
        Outcome::Fault => None,
        Outcome::Absent => Some(max_model()),
        Outcome::Value(x) => Some(x),
    }
}

/// The USDT legs 1 and 2 need to deliver `amount` of B net; the largest decimal when a book
/// is too thin. None on a fault.
pub open spec fn usdt_for_legs12(
    amount: DecimalModel,
    t: Triangle,
    books: Map<Seq<char>, OrderBook>,
    fee_rate: DecimalModel,
) -> Option<DecimalModel> {
    match reverse_outcome(amount, t.leg2.direction, books[t.leg2.symbol@], fee_rate) {
        Outcome::Fault => None,
        Outcome::Absent => Some(max_model()),
        Outcome::Value(a) => usdt_for_leg1(a, t, books, fee_rate),
    }
}

/// The USDT the second leg can absorb, converted back through the first leg: when it
/// sells A, the USDT that buys the A its bids take in total; when it buys B with A, the USDT
/// that buys the A its asks cost in total.
pub open spec fn leg2_capacity(
    t: Triangle,
    books: Map<Seq<char>, OrderBook>,
    fee_rate: DecimalModel,
) -> Option<DecimalModel> {
    match t.leg2.direction {
        TradeDirection::Sell => match total_quantity(books[t.leg2.symbol@].bids@) {
            None => None,
            Some(a_max) => usdt_for_leg1(a_max, t, books, fee_rate),
        },
        TradeDirection::Buy => match total_cost(books[t.leg2.symbol@].asks@) {
            None => None,
            Some(a_max) => usdt_for_leg1(a_max, t, books, fee_rate),
        },
    }
}

/// The USDT the third leg can absorb, converted back through the first two legs.
pub open spec fn leg3_capacity(
    t: Triangle,
    books: Map<Seq<char>, OrderBook>,
    fee_rate: DecimalModel,
) -> Option<DecimalModel> {
    match total_quantity(books[t.leg3.symbol@].bids@) {
        None => None,
        Some(b_max) => usdt_for_legs12(b_max, t, books, fee_rate),
    }
}

/// The most USDT the triangle can take: the least of what the asks of leg 1 cost in total
/// and of what legs 2 and 3 can absorb, converted back to USDT. No value if a book is
/// missing.
pub open spec fn capacity_outcome(
    t: Triangle,
    books: Map<Seq<char>, OrderBook>,
    fee_rate: DecimalModel,
) -> Outcome<DecimalModel> {
    if !has_books(t, books) {
        Outcome::Absent
    } else {
        match total_cost(books[t.leg1.symbol@].asks@) {
            None => Outcome::Fault,
            Some(v1) => match leg2_capacity(t, books, fee_rate) {
                None => Outcome::Fault,
                Some(v2) => match leg3_capacity(t, books, fee_rate) {
                    None => Outcome::Fault,
                    Some(v3) => Outcome::Value(min_value(min_value(v1, v2), v3)),
                },
            },
        }
    }
}

/// Once the sum over a prefix faults, the sum over the whole faults.
proof fn lemma_total_cost_fault(levels: Seq<OrderBookLevel>, k: int)
    requires
        0 <= k <= levels.len(),
        total_cost(levels.subrange(0, k)) is None,
    ensures
        total_cost(levels) is None,
    decreases levels.len(),
{
    if k < levels.len() {
        assert(levels.drop_last().subrange(0, k) =~= levels.subrange(0, k));
        lemma_total_cost_fault(levels.drop_last(), k);
    } else {
        assert(levels.subrange(0, k) =~= levels);
    }
}

/// Once the sum over a prefix faults, the sum over the whole faults.
proof fn lemma_total_quantity_fault(levels: Seq<OrderBookLevel>, k: int)
    requires
        0 <= k <= levels.len(),
        total_quantity(levels.subrange(0, k)) is None,
    ensures
        total_quantity(levels) is None,
    decreases levels.len(),
{
    if k < levels.len() {
        assert(levels.drop_last().subrange(0, k) =~= levels.subrange(0, k));
        lemma_total_quantity_fault(levels.drop_last(), k);
    } else {
        assert(levels.subrange(0, k) =~= levels);
    }
}

/// The executable form of `total_cost`.
fn run_total_cost(levels: &Vec<OrderBookLevel>) -> (r: Result<Decimal, ArithmeticError>)
    ensures
        match total_cost(levels@) {
            Some(v) => r matches Ok(d) && d@ == v,
            None => r is Err,
        },
{
    let mut sum = Decimal::zero();
    let n = levels.len();
    let mut i: usize = 0;
    assert(levels@.subrange(0, 0).len() == 0);
    while i < n
        invariant
            n == levels@.len(),
            i <= n,
            total_cost(levels@.subrange(0, i as int)) == Some(sum@),
        decreases n - i,
    {
        let level = levels[i];
        let ghost prefix = levels@.subrange(0, i + 1);
        assert(prefix.drop_last() =~= levels@.subrange(0, i as int));
        assert(prefix.last() == level);
        let cost = match checked_mul(level.price, level.quantity) {
            Some(c) => c,
            None => {
                proof {
                    lemma_total_cost_fault(levels@, i + 1);
                }
                return Err(ArithmeticError);
            },
        };
        sum = match checked_add(sum, cost) {
            Some(t) => t,
            None => {
                proof {
                    lemma_total_cost_fault(levels@, i + 1);
                }
                return Err(ArithmeticError);
            },
        };
        i = i + 1;
    }
    assert(levels@.subrange(0, n as int) =~= levels@);
    Ok(sum)
}

/// The executable form of `total_quantity`.
fn run_total_quantity(levels: &Vec<OrderBookLevel>) -> (r: Result<Decimal, ArithmeticError>)
    ensures
        match total_quantity(levels@) {
            Some(v) => r matches Ok(d) && d@ == v,
            None => r is Err,
        },
{
    let mut sum = Decimal::zero();
    let n = levels.len();
    let mut i: usize = 0;
    assert(levels@.subrange(0, 0).len() == 0);
    while i < n
        invariant
            n == levels@.len(),
            i <= n,
            total_quantity(levels@.subrange(0, i as int)) == Some(sum@),
        decreases n - i,
    {
        let level = levels[i];
        let ghost prefix = levels@.subrange(0, i + 1);
        assert(prefix.drop_last() =~= levels@.subrange(0, i as int));
        assert(prefix.last() == level);
        sum = match checked_add(sum, level.quantity) {
            Some(t) => t,
            None => {
                proof {
                    lemma_total_quantity_fault(levels@, i + 1);
                }
                return Err(ArithmeticError);
            },
        };
        i = i + 1;
    }
    assert(levels@.subrange(0, n as int) =~= levels@);
    Ok(sum)
}

/// The smaller of two decimals; the first when they are equal.
fn min_of(a: Decimal, b: Decimal) -> (r: Decimal)
    ensures
        r@ == min_value(a@, b@),
{
    if le(&a, &b) {
        a
    } else {
        b
    }
}

/// The executable form of `usdt_for_leg1`.
fn run_usdt_for_leg1(amount: Decimal, triangle: &Triangle, book1: &OrderBook, fee_rate: Decimal) -> (r:
    Result<Decimal, ArithmeticError>)
    ensures
        match reverse_outcome(amount@, triangle.leg1.direction, *book1, fee_rate@) {
            Outcome::Fault => r is Err,
            Outcome::Absent => r matches Ok(d) && d@ == max_model(),
            Outcome::Value(x) => r matches Ok(d) && d@ == x,
        },
{
    match checked_reverse_simulate_leg(amount, triangle.leg1.direction, book1, fee_rate) {
        Ok(Some(x)) => Ok(x),
        Ok(None) => Ok(Decimal::max_value()),
        Err(e) => Err(e),
    }
}

/// The executable form of `usdt_for_legs12`.
fn run_usdt_for_legs12(
    amount: Decimal,
    triangle: &Triangle,
    book1: &OrderBook,
    book2: &OrderBook,
    fee_rate: Decimal,
) -> (r: Result<Decimal, ArithmeticError>)
    ensures
        match reverse_outcome(amount@, triangle.leg2.direction, *book2, fee_rate@) {
            Outcome::Fault => r is Err,
            Outcome::Absent => r matches Ok(d) && d@ == max_model(),
            Outcome::Value(a) => match reverse_outcome(a, triangle.leg1.direction, *book1, fee_rate@) {
                Outcome::Fault => r is Err,
                Outcome::Absent => r matches Ok(d) && d@ == max_model(),
                Outcome::Value(x) => r matches Ok(d) && d@ == x,
            },
        },
{
    match checked_reverse_simulate_leg(amount, triangle.leg2.direction, book2, fee_rate) {
        Ok(Some(a)) => run_usdt_for_leg1(a, triangle, book1, fee_rate),
        Ok(None) => Ok(Decimal::max_value()),
        Err(e) => Err(e),
    }
}

/// The capacity of the triangle in USDT, reporting arithmetic faults.
pub fn checked_calculate_max_usdt_capacity(
    triangle: &Triangle,
    books: &SymbolMap<OrderBook>,
    fee_rate: Decimal,
) -> (r: Result<Option<Decimal>, ArithmeticError>)
    ensures
        number_agrees(r, capacity_outcome(*triangle, books@, fee_rate@)),
{
    let book1 = match books.get(triangle.leg1.symbol.as_str()) {
        Some(b) => b,
        None => {
            return Ok(None);
        },
    };
    let book2 = match books.get(triangle.leg2.symbol.as_str()) {
        Some(b) => b,
        None => {
            return Ok(None);
        },
    };
    let book3 = match books.get(triangle.leg3.symbol.as_str()) {
        Some(b) => b,
        None => {
            return Ok(None);
        },
    };
    let v1 = match run_total_cost(&book1.asks) {
        Ok(v) => v,
        Err(e) => {
            return Err(e);
        },
    };
    let v2 = match triangle.leg2.direction {
        TradeDirection::Sell => {
            let a_max = match run_total_quantity(&book2.bids) {
                Ok(v) => v,
                Err(e) => {
                    return Err(e);
                },
            };
            match run_usdt_for_leg1(a_max, triangle, book1, fee_rate) {
                Ok(v) => v,
                Err(e) => {
                    return Err(e);
                },
            }
        },
        TradeDirection::Buy => {
            let a_max = match run_total_cost(&book2.asks) {
                Ok(v) => v,
                Err(e) => {
                    return Err(e);
                },
            };
            match run_usdt_for_leg1(a_max, triangle, book1, fee_rate) {
                Ok(v) => v,
                Err(e) => {
                    return Err(e);
                },
            }
        },
    };
    let b_max = match run_total_quantity(&book3.bids) {
        Ok(v) => v,
        Err(e) => {
            return Err(e);
        },
    };
    let v3 = match run_usdt_for_legs12(b_max, triangle, book1, book2, fee_rate) {
        Ok(v) => v,
        Err(e) => {
            return Err(e);
        },
    };
    Ok(Some(min_of(min_of(v1, v2), v3)))
}

/// The most USDT the triangle can take, from the depth of its three books, or None when a
/// book is missing.
pub fn calculate_max_usdt_capacity(
    triangle: &Triangle,
    books: &SymbolMap<OrderBook>,
    fee_rate: Decimal,
) -> (r: Option<Decimal>)
    requires
        !(capacity_outcome(*triangle, books@, fee_rate@) is Fault),
    ensures
        number_agrees(Ok(r), capacity_outcome(*triangle, books@, fee_rate@)),
{
    match checked_calculate_max_usdt_capacity(triangle, books, fee_rate) {
        Ok(r) => r,
        Err(_) => None,
    }
}

// ---------------------------------------------------------------------------------------
// Searching for the best volume
// ---------------------------------------------------------------------------------------
/// How many equal steps the search takes between the least order and the capacity.
pub open spec fn grid_steps() -> int {
    30
}

/// The opportunity found at volume `volume_in` with the given profit and profit rate: the
/// first leg is simulated again for its raw quantity; the second leg's order quantity is
/// the net output of the first when it sells and its raw output when it buys; the third
/// leg's quantity is the net output of the second. The rate is reported in percent.
pub open spec fn candidate(
    volume_in: DecimalModel,
    profit: DecimalModel,
    pct: DecimalModel,
    t: Triangle,
    books: Map<Seq<char>, OrderBook>,
    fee_rate: DecimalModel,
) -> Outcome<OpportunityModel> {
    match leg_outcome(volume_in, t.leg1.direction, books[t.leg1.symbol@], fee_rate) {
        Outcome::Fault => Outcome::Fault,
        Outcome::Absent => Outcome::Absent,
        Outcome::Value((raw1, net1)) => {
            let second = match t.leg2.direction {
                TradeDirection::Sell => match leg_outcome(
                    net1,
                    TradeDirection::Sell,
                    books[t.leg2.symbol@],
                    fee_rate,
                ) {
                    Outcome::Fault => Outcome::Fault,
                    Outcome::Absent => Outcome::Absent,
                    Outcome::Value((_, net2)) => Outcome::Value((net1, net2)),
                },
                TradeDirection::Buy => match leg_outcome(
                    net1,
                    TradeDirection::Buy,
                    books[t.leg2.symbol@],
                    fee_rate,
                ) {
                    Outcome::Fault => Outcome::Fault,
                    Outcome::Absent => Outcome::Absent,
                    Outcome::Value((raw2, net2)) => Outcome::Value((raw2, net2)),
                },
            };
            match second {
                Outcome::Fault => Outcome::Fault,
                Outcome::Absent => Outcome::Absent,
                Outcome::Value((qty2, net2)) => match decimal_checked_mul(pct, (1000, 1)) {
                    None => Outcome::Fault,
                    Some(pct100) => Outcome::Value(
                        OpportunityModel {
                            path_name: t.name@,
                            optimal_volume: volume_in,
                            expected_profit_pct: pct100,
                            expected_profit_usdt: profit,
                            leg1_raw_qty: raw1,
                            leg2_raw_qty: qty2,
                            leg3_raw_qty: net2,
                        },
                    ),
                },
            }
        },
    }
}

/// The volume of grid point `i`: min_order + step * i.
pub open spec fn grid_volume(min_order: DecimalModel, step: DecimalModel, i: int) -> Option<
    DecimalModel,
> {
    match decimal_checked_mul(step, (i, 0)) {
        None => None,
        Some(offset) => decimal_checked_add(min_order, offset),
    }
}

/// Grid point `i` updates the best profit so far and its opportunity: a point whose profit
/// rate exceeds `min_profit_rate` and whose profit exceeds the best so far replaces it.
pub open spec fn grid_point(
    i: int,
    best_profit: DecimalModel,
    best: Option<OpportunityModel>,
    t: Triangle,
    books: Map<Seq<char>, OrderBook>,
    fee_rate: DecimalModel,
    min_profit_rate: DecimalModel,
    min_order: DecimalModel,
    step: DecimalModel,
) -> Outcome<(DecimalModel, Option<OpportunityModel>)> {
    match grid_volume(min_order, step, i) {
        None => Outcome::Fault,
        Some(volume_in) => match triangle_outcome(volume_in, t, books, fee_rate) {
            Outcome::Fault => Outcome::Fault,
            Outcome::Absent => Outcome::Value((best_profit, best)),
            Outcome::Value(volume_out) => match decimal_checked_sub(volume_out, volume_in) {
                None => Outcome::Fault,
                Some(profit) => match decimal_checked_div(profit, volume_in) {
                    None => Outcome::Fault,
                    Some(pct) => if value_lt(min_profit_rate, pct) && value_lt(best_profit, profit) {
                        match candidate(volume_in, profit, pct, t, books, fee_rate) {
                            Outcome::Fault => Outcome::Fault,
                            Outcome::Absent => Outcome::Absent,
                            Outcome::Value(o) => Outcome::Value((profit, Some(o))),
                        }
                    } else {
                        Outcome::Value((best_profit, best))
                    },
                },
            },
        },
    }
}

/// The best profit and opportunity after grid points 0 .. k-1, starting from zero profit
/// and no opportunity.
pub open spec fn grid_state(
    k: nat,
    t: Triangle,
    books: Map<Seq<char>, OrderBook>,
    fee_rate: DecimalModel,
    min_profit_rate: DecimalModel,
    min_order: DecimalModel,
    step: DecimalModel,
) -> Outcome<(DecimalModel, Option<OpportunityModel>)>
    decreases k,
{
    if k == 0 {
        Outcome::Value((zero_model(), None))
    } else {
        match grid_state((k - 1) as nat, t, books, fee_rate, min_profit_rate, min_order, step) {
            Outcome::Value((best_profit, best)) => grid_point(
                k - 1,
                best_profit,
                best,
                t,
                books,
                fee_rate,
                min_profit_rate,
                min_order,
                step,
            ),
            Outcome::Absent => Outcome::Absent,
            Outcome::Fault => Outcome::Fault,
        }
    }
}

/// The search: below the least order size there is nothing; otherwise the grid
/// min_order + i * (capacity - min_order) / 30, i = 0 ..= 30, is walked and the most
/// profitable point above the profit threshold is kept.
pub open spec fn search_outcome(
    t: Triangle,
    books: Map<Seq<char>, OrderBook>,
    fee_rate: DecimalModel,
    min_profit_rate: DecimalModel,
    min_order: DecimalModel,
) -> Outcome<OpportunityModel> {
    match capacity_outcome(t, books, fee_rate) {
        Outcome::Fault => Outcome::Fault,
        Outcome::Absent => Outcome::Absent,
        Outcome::Value(cap) => if value_lt(cap, min_order) {
            Outcome::Absent
        } else {
            match decimal_checked_sub(cap, min_order) {
                None => Outcome::Fault,
                Some(span) => match decimal_checked_div(span, (grid_steps(), 0)) {
                    None => Outcome::Fault,
                    Some(step) => match grid_state(
                        (grid_steps() + 1) as nat,
                        t,
                        books,
                        fee_rate,
                        min_profit_rate,
                        min_order,
                        step,
                    ) {
                        Outcome::Fault => Outcome::Fault,
                        Outcome::Absent => Outcome::Absent,
                        Outcome::Value((_, found)) => match found {
                            Some(o) => Outcome::Value(o),
                            None => Outcome::Absent,
                        },
                    },
                },
            }
        },
    }
}

/// `r` is what the outcome `o` of the search says.
pub open spec fn search_agrees(
    r: Result<Option<ArbitrageOpportunity>, ArithmeticError>,
    o: Outcome<OpportunityModel>,
) -> bool {
    match o {
        Outcome::Value(v) => r matches Ok(Some(x)) && opportunity_model(x) == v,
        Outcome::Absent => r matches Ok(None),
        Outcome::Fault => r is Err,
    }
}

/// Once the grid walk stops with no value, it stays stopped.
proof fn lemma_grid_stops(
    k: nat,
    m: nat,
    t: Triangle,
    books: Map<Seq<char>, OrderBook>,
    fee_rate: DecimalModel,
    min_profit_rate: DecimalModel,
    min_order: DecimalModel,
    step: DecimalModel,
)
    requires
        k <= m,
        !(grid_state(k, t, books, fee_rate, min_profit_rate, min_order, step) is Value),
    ensures
        grid_state(m, t, books, fee_rate, min_profit_rate, min_order, step) == grid_state(
            k,
            t,
            books,
            fee_rate,
            min_profit_rate,
            min_order,
            step,
        ),
    decreases m,
{
    if k < m {
        lemma_grid_stops(k, (m - 1) as nat, t, books, fee_rate, min_profit_rate, min_order, step);
    }
}

/// The executable form of `candidate`.
fn run_candidate(
    volume_in: Decimal,
    profit: Decimal,
    pct: Decimal,
    triangle: &Triangle,
    book1: &OrderBook,
    book2: &OrderBook,
    fee_rate: Decimal,
    books: Ghost<Map<Seq<char>, OrderBook>>,
) -> (r: Result<Option<ArbitrageOpportunity>, ArithmeticError>)
    requires
        has_books(*triangle, books@),
        books@[triangle.leg1.symbol@] == *book1,
        books@[triangle.leg2.symbol@] == *book2,
    ensures
        search_agrees(
            r,
            candidate(volume_in@, profit@, pct@, *triangle, books@, fee_rate@),
        ),
        r matches Ok(Some(o)) ==> (fits(exact_product(pct@, hundred())) ==> same_value(
            o.expected_profit_pct@,
            exact_product(pct@, hundred()),
        )),
{
    let (raw1, net1) = match checked_simulate_leg(
        volume_in,
        triangle.leg1.direction,
        book1,
        fee_rate,
    ) {
        Ok(Some(p)) => p,
        Ok(None) => {
            return Ok(None);
        },
        Err(e) => {
            return Err(e);
        },
    };
    let (qty2, net2) = match triangle.leg2.direction {
        TradeDirection::Sell => match checked_simulate_leg(
            net1,
            TradeDirection::Sell,
            book2,
            fee_rate,
        ) {
            Ok(Some((_, net))) => (net1, net),
            Ok(None) => {
                return Ok(None);
            },
            Err(e) => {
                return Err(e);
            },
        },
        TradeDirection::Buy => match checked_simulate_leg(
            net1,
            TradeDirection::Buy,
            book2,
            fee_rate,
        ) {
            Ok(Some((raw, net))) => (raw, net),
            Ok(None) => {
                return Ok(None);
            },
            Err(e) => {
                return Err(e);
            },
        },
    };
    let pct100 = match checked_mul(pct, Decimal::new(1000, 1)) {
        Some(p) => p,
        None => {
            return Err(ArithmeticError);
        },
    };
    Ok(
        Some(
            ArbitrageOpportunity {
                path_name: triangle.name.clone(),
                optimal_volume: volume_in,
                expected_profit_pct: pct100,
                expected_profit_usdt: profit,
                leg1_raw_qty: raw1,
                leg2_raw_qty: qty2,
                leg3_raw_qty: net2,
            },
        ),
    )
}

/// A hundred, the factor that turns a rate into a percentage.
pub open spec fn hundred() -> DecimalModel {
    (1000, 1)
}

/// The percentage reported in `o` comes from a profit rate above `min_profit_rate`: when
/// that rate times a hundred fits, the percentage is that product and is above the
/// threshold times a hundred.
pub open spec fn pct_reported(o: ArbitrageOpportunity, min_profit_rate: DecimalModel) -> bool {
    exists|rate: DecimalModel|
        value_lt(min_profit_rate, rate) && (fits(#[trigger] exact_product(rate, hundred())) ==> {
            &&& same_value(o.expected_profit_pct@, exact_product(rate, hundred()))
            &&& value_lt(exact_product(min_profit_rate, hundred()), o.expected_profit_pct@)
        })
}

/// `r` is what the outcome `o` of one grid point says.
pub open spec fn point_agrees(
    r: Result<Option<(Decimal, Option<ArbitrageOpportunity>)>, ArithmeticError>,
    o: Outcome<(DecimalModel, Option<OpportunityModel>)>,
) -> bool {
    match o {
        Outcome::Value((p, b)) => r matches Ok(Some(x)) && x.0@ == p && opt_opportunity_model(x.1)
            == b,
        Outcome::Absent => r matches Ok(None),
        Outcome::Fault => r is Err,
    }
}

/// The executable form of `grid_point`.
fn run_grid_point(
    i: i64,
    best_profit: Decimal,
    best: Option<ArbitrageOpportunity>,
    triangle: &Triangle,
    books: &SymbolMap<OrderBook>,
    fee_rate: Decimal,
    min_profit_rate: Decimal,
    min_usdt_order: Decimal,
    step_size: Decimal,
) -> (r: Result<Option<(Decimal, Option<ArbitrageOpportunity>)>, ArithmeticError>)
    ensures
        point_agrees(
            r,
            grid_point(
                i as int,
                best_profit@,
                opt_opportunity_model(best),
                *triangle,
                books@,
                fee_rate@,
                min_profit_rate@,
                min_usdt_order@,
                step_size@,
            ),
        ),
        r matches Ok(Some(x)) ==> (x.1 matches Some(o) ==> (best matches Some(b) && o == b)
            || pct_reported(o, min_profit_rate@)),
{
    let offset = match checked_mul(step_size, Decimal::from_int(i)) {
        Some(x) => x,
        None => {
            return Err(ArithmeticError);
        },
    };
    let volume_in = match checked_add(min_usdt_order, offset) {
        Some(x) => x,
        None => {
            return Err(ArithmeticError);
        },
    };
    let volume_out = match checked_simulate_triangle(volume_in, triangle, books, fee_rate) {
        Err(e) => {
            return Err(e);
        },
        Ok(None) => {
            return Ok(Some((best_profit, best)));
        },
        Ok(Some(v)) => v,
    };
    let profit_usdt = match checked_sub(volume_out, volume_in) {
        Some(x) => x,
        None => {
            return Err(ArithmeticError);
        },
    };
    let profit_pct = match checked_div(profit_usdt, volume_in) {
        Some(x) => x,
        None => {
            return Err(ArithmeticError);
        },
    };
    if lt(&min_profit_rate, &profit_pct) && lt(&best_profit, &profit_usdt) {
        let book1 = match books.get(triangle.leg1.symbol.as_str()) {
            Some(b) => b,
            None => {
                return Ok(None);
            },
        };
        let book2 = match books.get(triangle.leg2.symbol.as_str()) {
            Some(b) => b,
            None => {
                return Ok(None);
            },
        };
        match run_candidate(
            volume_in,
            profit_usdt,
            profit_pct,
            triangle,
            book1,
            book2,
            fee_rate,
            Ghost(books@),
        ) {
            Ok(Some(o)) => {
                proof {
                    let e = exact_product(profit_pct@, hundred());
                    if fits(e) {
                        lemma_value_lt_scaled(min_profit_rate@, profit_pct@, hundred());
                        lemma_value_lt_le_transitive(
                            exact_product(min_profit_rate@, hundred()),
                            e,
                            o.expected_profit_pct@,
                        );
                    }
                    assert(pct_reported(o, min_profit_rate@));
                }
                Ok(Some((profit_usdt, Some(o))))
            },
            Ok(None) => Ok(None),
            Err(e) => Err(e),
        }
    } else {
        Ok(Some((best_profit, best)))
    }
}

/// Searches the volume that maximises the profit of the triangle, reporting arithmetic
/// faults. The reported percentage is a hundred times a profit rate above the threshold,
/// when that product fits.
pub fn checked_find_arbitrage_opportunity(
    triangle: &Triangle,
    books: &SymbolMap<OrderBook>,
    fee_rate: Decimal,
    min_profit_rate: Decimal,
    min_usdt_order: Decimal,
) -> (r: Result<Option<ArbitrageOpportunity>, ArithmeticError>)
    ensures
        search_agrees(
            r,
            search_outcome(*triangle, books@, fee_rate@, min_profit_rate@, min_usdt_order@),
        ),
        r matches Ok(Some(o)) ==> pct_reported(o, min_profit_rate@),
{
    let max_cap = match checked_calculate_max_usdt_capacity(triangle, books, fee_rate) {
        Ok(Some(c)) => c,
        Ok(None) => {
            return Ok(None);
        },
        Err(e) => {
            return Err(e);
        },
    };
    if lt(&max_cap, &min_usdt_order) {
        return Ok(None);
    }
    let span = match checked_sub(max_cap, min_usdt_order) {
        Some(x) => x,
        None => {
            return Err(ArithmeticError);
        },
    };
    let step_size = match checked_div(span, Decimal::from_int(30)) {
        Some(x) => x,
        None => {
            return Err(ArithmeticError);
        },
    };
    let ghost g = (*triangle, books@, fee_rate@, min_profit_rate@, min_usdt_order@, step_size@);
    let mut best_profit_usdt = Decimal::zero();
    let mut best_opportunity: Option<ArbitrageOpportunity> = None;
    let mut i: i64 = 0;
    while i <= 30
        invariant
            0 <= i <= 31,
            g == (*triangle, books@, fee_rate@, min_profit_rate@, min_usdt_order@, step_size@),
            capacity_outcome(*triangle, books@, fee_rate@) == Outcome::Value(max_cap@),
            !value_lt(max_cap@, min_usdt_order@),
            decimal_checked_sub(max_cap@, min_usdt_order@) == Some(span@),
            decimal_checked_div(span@, (grid_steps(), 0nat)) == Some(step_size@),
            grid_state(i as nat, g.0, g.1, g.2, g.3, g.4, g.5) == Outcome::Value(
                (best_profit_usdt@, opt_opportunity_model(best_opportunity)),
            ),
            best_opportunity matches Some(o) ==> pct_reported(o, min_profit_rate@),
        decreases 31 - i,
    {
        match run_grid_point(
            i,
            best_profit_usdt,
            best_opportunity,
            triangle,
            books,
            fee_rate,
            min_profit_rate,
            min_usdt_order,
            step_size,
        ) {
            Ok(Some((p, b))) => {
                best_profit_usdt = p;
                best_opportunity = b;
            },
            Ok(None) => {
                proof {
                    assert(grid_state((i + 1) as nat, g.0, g.1, g.2, g.3, g.4, g.5) is Absent);
                    lemma_grid_stops((i + 1) as nat, 31, g.0, g.1, g.2, g.3, g.4, g.5);
                }
                return Ok(None);
            },
            Err(e) => {
                proof {
                    assert(grid_state((i + 1) as nat, g.0, g.1, g.2, g.3, g.4, g.5) is Fault);
                    lemma_grid_stops((i + 1) as nat, 31, g.0, g.1, g.2, g.3, g.4, g.5);
                }
                return Err(e);
            },
        }
        i = i + 1;
    }
    match best_opportunity {
        Some(o) => Ok(Some(o)),
        None => Ok(None),
    }
}

/// Finds the input volume that maximises the profit of the triangle over a grid of 31
/// volumes between `min_usdt_order` and the triangle's capacity, keeping only volumes whose
/// net profit rate exceeds `min_profit_rate`. None when there is no such volume.
pub fn find_arbitrage_opportunity(
    triangle: &Triangle,
    books: &SymbolMap<OrderBook>,
    fee_rate: Decimal,
    min_profit_rate: Decimal,
    min_usdt_order: Decimal,
) -> (r: Option<ArbitrageOpportunity>)
    requires
        !(search_outcome(*triangle, books@, fee_rate@, min_profit_rate@, min_usdt_order@) is Fault),
    ensures
        search_agrees(
            Ok(r),
            search_outcome(*triangle, books@, fee_rate@, min_profit_rate@, min_usdt_order@),
        ),
        r matches Some(o) ==> pct_reported(o, min_profit_rate@),
{
    match checked_find_arbitrage_opportunity(
        triangle,
        books,
        fee_rate,
        min_profit_rate,
        min_usdt_order,
    ) {
        Ok(r) => r,
        Err(_) => None,
    }
}


// ---------------------------------------------------------------------------------------
// What the simulation and the search keep
// ---------------------------------------------------------------------------------------
/// The smaller of two numbers is at most each of them and is one of them.
pub proof fn lemma_min_value(a: DecimalModel, b: DecimalModel)
    ensures
        value_le(min_value(a, b), a),
        value_le(min_value(a, b), b),
        min_value(a, b) == a || min_value(a, b) == b,
{
}

/// A leg that is given nothing gives nothing back, raw or net.
pub proof fn law_zero_volume_leg(direction: TradeDirection, book: OrderBook, fee_rate: DecimalModel)
    ensures
        leg_outcome(zero_model(), direction, book, fee_rate) == Outcome::Value(
            (zero_model(), zero_model()),
        ),
        reverse_outcome(zero_model(), direction, book, fee_rate) == Outcome::Value(zero_model()),
{
}

/// What comes out of a leg net is what comes out raw times one minus the fee rate.
pub proof fn law_net_is_raw_less_fee(
    volume_in: DecimalModel,
    direction: TradeDirection,
    book: OrderBook,
    fee_rate: DecimalModel,
)
    requires
        volume_in.0 != 0,
        leg_outcome(volume_in, direction, book, fee_rate) is Value,
    ensures
        ({
            let (raw, net) = leg_outcome(volume_in, direction, book, fee_rate)->0;
            decimal_checked_sub(one_model(), fee_rate) matches Some(keep)
                && decimal_checked_mul(raw, keep) == Some(net)
        }),
{
}

/// The capacity of a triangle is the least of its three limits: it is at most what the
/// asks of leg 1 cost in total and at most what legs 2 and 3 can absorb, and it is one of
/// them.
pub proof fn law_capacity_is_least_limit(
    t: Triangle,
    books: Map<Seq<char>, OrderBook>,
    fee_rate: DecimalModel,
)
    requires
        capacity_outcome(t, books, fee_rate) is Value,
    ensures
        ({
            let cap = capacity_outcome(t, books, fee_rate)->0;
            let v1 = total_cost(books[t.leg1.symbol@].asks@)->0;
            let v2 = leg2_capacity(t, books, fee_rate)->0;
            let v3 = leg3_capacity(t, books, fee_rate)->0;
            &&& value_le(cap, v1)
            &&& value_le(cap, v2)
            &&& value_le(cap, v3)
            &&& (cap == v1 || cap == v2 || cap == v3)
        }),
{
    let v1 = total_cost(books[t.leg1.symbol@].asks@)->0;
    let v2 = leg2_capacity(t, books, fee_rate)->0;
    let v3 = leg3_capacity(t, books, fee_rate)->0;
    let m = min_value(v1, v2);
    lemma_min_value(v1, v2);
    lemma_min_value(m, v3);
    let cap = min_value(m, v3);
    if value_le(cap, m) {
        lemma_value_le_transitive(cap, m, v1);
        lemma_value_le_transitive(cap, m, v2);
    }
}


/// Grid point `i`, when its simulation gives a value: (volume, profit, profit rate).
pub open spec fn point_profit(
    i: int,
    t: Triangle,
    books: Map<Seq<char>, OrderBook>,
    fee_rate: DecimalModel,
    min_order: DecimalModel,
    step: DecimalModel,
) -> Option<(DecimalModel, DecimalModel, DecimalModel)> {
    match grid_volume(min_order, step, i) {
        None => None,
        Some(v) => match triangle_outcome(v, t, books, fee_rate) {
            Outcome::Value(out) => match decimal_checked_sub(out, v) {
                Some(p) => match decimal_checked_div(p, v) {
                    Some(r) => Some((v, p, r)),
                    None => None,
                },
                None => None,
            },
            _ => None,
        },
    }
}

/// The profit at grid point `i`, when its simulation gives a value.
pub open spec fn profit_at(
    i: int,
    t: Triangle,
    books: Map<Seq<char>, OrderBook>,
    fee_rate: DecimalModel,
    min_order: DecimalModel,
    step: DecimalModel,
) -> DecimalModel {
    match point_profit(i, t, books, fee_rate, min_order, step) {
        Some(x) => x.1,
        None => zero_model(),
    }
}

/// Grid point `i` gives a profit rate above the threshold.
pub open spec fn qualifies(
    i: int,
    t: Triangle,
    books: Map<Seq<char>, OrderBook>,
    fee_rate: DecimalModel,
    min_profit_rate: DecimalModel,
    min_order: DecimalModel,
    step: DecimalModel,
) -> bool {
    point_profit(i, t, books, fee_rate, min_order, step) matches Some(x) && value_lt(
        min_profit_rate,
        x.2,
    )
}

/// The step of the search grid: (capacity - least order) / 30, when the capacity is not
/// below the least order.
pub open spec fn search_step(
    t: Triangle,
    books: Map<Seq<char>, OrderBook>,
    fee_rate: DecimalModel,
    min_order: DecimalModel,
) -> Option<DecimalModel> {
    match capacity_outcome(t, books, fee_rate) {
        Outcome::Value(cap) => if value_lt(cap, min_order) {
            None
        } else {
            match decimal_checked_sub(cap, min_order) {
                Some(span) => decimal_checked_div(span, (grid_steps(), 0)),
                None => None,
            }
        },
        _ => None,
    }
}

/// `o` is the opportunity found at grid point `i`, with a profit rate above the threshold.
pub open spec fn found_at(
    i: int,
    o: OpportunityModel,
    t: Triangle,
    books: Map<Seq<char>, OrderBook>,
    fee_rate: DecimalModel,
    min_profit_rate: DecimalModel,
    min_order: DecimalModel,
    step: DecimalModel,
) -> bool {
    point_profit(i, t, books, fee_rate, min_order, step) matches Some(x) && x.0
        == o.optimal_volume && x.1 == o.expected_profit_usdt && value_lt(min_profit_rate, x.2)
        && candidate(x.0, x.1, x.2, t, books, fee_rate) == Outcome::Value(o)
}

/// `o` was found at grid point `i`, and every earlier grid point above the threshold has
/// strictly less profit: `i` is the first point that reaches the best profit.
pub open spec fn first_best_at(
    i: int,
    o: OpportunityModel,
    t: Triangle,
    books: Map<Seq<char>, OrderBook>,
    fee_rate: DecimalModel,
    min_profit_rate: DecimalModel,
    min_order: DecimalModel,
    step: DecimalModel,
) -> bool {
    &&& found_at(i, o, t, books, fee_rate, min_profit_rate, min_order, step)
    &&& forall|j: int|
        0 <= j < i && #[trigger] qualifies(
            j,
            t,
            books,
            fee_rate,
            min_profit_rate,
            min_order,
            step,
        ) ==> value_lt(profit_at(j, t, books, fee_rate, min_order, step), o.expected_profit_usdt)
}

/// What the walk over the first `k` grid points keeps: with nothing found the best profit
/// is zero; what was found is a qualifying point among them with a positive profit; and no
/// qualifying point among them has more profit than the best.
spec fn grid_inv(
    k: int,
    best: DecimalModel,
    found: Option<OpportunityModel>,
    t: Triangle,
    books: Map<Seq<char>, OrderBook>,
    fee_rate: DecimalModel,
    min_profit_rate: DecimalModel,
    min_order: DecimalModel,
    step: DecimalModel,
) -> bool {
    &&& (found is None ==> best == zero_model())
    &&& (found matches Some(o) ==> {
        &&& value_lt(zero_model(), best)
        &&& o.expected_profit_usdt == best
        &&& exists|i: int|
            0 <= i < k && #[trigger] first_best_at(
                i,
                o,
                t,
                books,
                fee_rate,
                min_profit_rate,
                min_order,
                step,
            )
    })
    &&& forall|j: int|
        0 <= j < k && #[trigger] qualifies(
            j,
            t,
            books,
            fee_rate,
            min_profit_rate,
            min_order,
            step,
        ) ==> value_le(profit_at(j, t, books, fee_rate, min_order, step), best)
}

proof fn lemma_grid_inv(
    k: nat,
    t: Triangle,
    books: Map<Seq<char>, OrderBook>,
    fee_rate: DecimalModel,
    min_profit_rate: DecimalModel,
    min_order: DecimalModel,
    step: DecimalModel,
)
    ensures
        grid_state(k, t, books, fee_rate, min_profit_rate, min_order, step) matches Outcome::Value(
            x,
        ) ==> grid_inv(k as int, x.0, x.1, t, books, fee_rate, min_profit_rate, min_order, step),
    decreases k,
{
    if k > 0 {
        let j = k - 1;
        lemma_grid_inv(j as nat, t, books, fee_rate, min_profit_rate, min_order, step);
        match grid_state(j as nat, t, books, fee_rate, min_profit_rate, min_order, step) {
            Outcome::Value((b, f)) => {
                let pp = point_profit(j, t, books, fee_rate, min_order, step);
                match grid_state(k, t, books, fee_rate, min_profit_rate, min_order, step) {
                    Outcome::Value((b2, f2)) => {
                        if pp is Some && value_lt(min_profit_rate, (pp->0).2) && value_lt(b, (pp->0).1) {
                            let x = pp->0;
                            let p = x.1;
                            let o = f2->0;
                            assert(found_at(j, o, t, books, fee_rate, min_profit_rate, min_order, step));
                            if f is Some {
                                lemma_value_lt_le_transitive(zero_model(), b, p);
                            }
                            assert forall|i: int|
                                0 <= i < j && #[trigger] qualifies(
                                    i,
                                    t,
                                    books,
                                    fee_rate,
                                    min_profit_rate,
                                    min_order,
                                    step,
                                ) implies value_lt(
                                profit_at(i, t, books, fee_rate, min_order, step),
                                o.expected_profit_usdt,
                            ) by {
                                lemma_value_le_lt_transitive(
                                    profit_at(i, t, books, fee_rate, min_order, step),
                                    b,
                                    p,
                                );
                            }
                            assert(first_best_at(j, o, t, books, fee_rate, min_profit_rate, min_order, step));
                            assert forall|i: int|
                                0 <= i < k && #[trigger] qualifies(
                                    i,
                                    t,
                                    books,
                                    fee_rate,
                                    min_profit_rate,
                                    min_order,
                                    step,
                                ) implies value_le(
                                profit_at(i, t, books, fee_rate, min_order, step),
                                b2,
                            ) by {
                                if i < j {
                                    lemma_value_le_transitive(
                                        profit_at(i, t, books, fee_rate, min_order, step),
                                        b,
                                        p,
                                    );
                                }
                            }
                        } else {
                            assert forall|i: int|
                                0 <= i < k && #[trigger] qualifies(
                                    i,
                                    t,
                                    books,
                                    fee_rate,
                                    min_profit_rate,
                                    min_order,
                                    step,
                                ) implies value_le(
                                profit_at(i, t, books, fee_rate, min_order, step),
                                b2,
                            ) by {}
                            if let Some(o) = f2 {
                                let i = choose|i: int|
                                    0 <= i < j && #[trigger] first_best_at(
                                        i,
                                        o,
                                        t,
                                        books,
                                        fee_rate,
                                        min_profit_rate,
                                        min_order,
                                        step,
                                    );
                                assert(first_best_at(i, o, t, books, fee_rate, min_profit_rate, min_order, step));
                            }
                        }
                    },
                    _ => {},
                }
            },
            _ => {},
        }
    }
}

/// The opportunity the search returns is the best of the grid: it was found at a grid
/// point whose profit rate is above the threshold, its profit is positive, no grid point
/// with a profit rate above the threshold has more profit, and every such point before it
/// has less (among equal profits the first point is kept).
pub proof fn law_search_finds_best(
    t: Triangle,
    books: Map<Seq<char>, OrderBook>,
    fee_rate: DecimalModel,
    min_profit_rate: DecimalModel,
    min_order: DecimalModel,
)
    requires
        search_outcome(t, books, fee_rate, min_profit_rate, min_order) is Value,
    ensures
        search_step(t, books, fee_rate, min_order) is Some,
        ({
            let o = search_outcome(t, books, fee_rate, min_profit_rate, min_order)->0;
            let step = search_step(t, books, fee_rate, min_order)->0;
            &&& value_lt(zero_model(), o.expected_profit_usdt)
            &&& exists|i: int|
                0 <= i <= grid_steps() && #[trigger] first_best_at(
                    i,
                    o,
                    t,
                    books,
                    fee_rate,
                    min_profit_rate,
                    min_order,
                    step,
                )
            &&& forall|j: int|
                0 <= j <= grid_steps() && #[trigger] qualifies(
                    j,
                    t,
                    books,
                    fee_rate,
                    min_profit_rate,
                    min_order,
                    step,
                ) ==> value_le(
                    profit_at(j, t, books, fee_rate, min_order, step),
                    o.expected_profit_usdt,
                )
        }),
{
    let step = search_step(t, books, fee_rate, min_order)->0;
    lemma_grid_inv(
        (grid_steps() + 1) as nat,
        t,
        books,
        fee_rate,
        min_profit_rate,
        min_order,
        step,
    );
}


/// The re-simulation of the first two legs for a point's opportunity runs exactly as the
/// triangle did, so it is never short of a book: it gives a value or an arithmetic fault.
proof fn lemma_candidate_present(
    volume_in: DecimalModel,
    profit: DecimalModel,
    pct: DecimalModel,
    t: Triangle,
    books: Map<Seq<char>, OrderBook>,
    fee_rate: DecimalModel,
)
    requires
        triangle_outcome(volume_in, t, books, fee_rate) is Value,
    ensures
        !(candidate(volume_in, profit, pct, t, books, fee_rate) is Absent),
{
}

/// The walk over the grid never comes out short of a book: it gives a value or a fault.
proof fn lemma_grid_never_absent(
    k: nat,
    t: Triangle,
    books: Map<Seq<char>, OrderBook>,
    fee_rate: DecimalModel,
    min_profit_rate: DecimalModel,
    min_order: DecimalModel,
    step: DecimalModel,
)
    ensures
        !(grid_state(k, t, books, fee_rate, min_profit_rate, min_order, step) is Absent),
    decreases k,
{
    if k > 0 {
        let j = k - 1;
        lemma_grid_never_absent(j as nat, t, books, fee_rate, min_profit_rate, min_order, step);
        if let Outcome::Value((b, f)) = grid_state(
            j as nat,
            t,
            books,
            fee_rate,
            min_profit_rate,
            min_order,
            step,
        ) {
            if let Some(v) = grid_volume(min_order, step, j) {
                if let Outcome::Value(out) = triangle_outcome(v, t, books, fee_rate) {
                    if let Some(p) = decimal_checked_sub(out, v) {
                        if let Some(r) = decimal_checked_div(p, v) {
                            lemma_candidate_present(v, p, r, t, books, fee_rate);
                        }
                    }
                }
            }
        }
    }
}

/// The search finds an opportunity exactly when some grid point has a profit rate above
/// the threshold and a positive profit, provided the capacity reaches the least order and
/// the search meets no arithmetic fault.
pub proof fn law_search_finds_when_profitable(
    t: Triangle,
    books: Map<Seq<char>, OrderBook>,
    fee_rate: DecimalModel,
    min_profit_rate: DecimalModel,
    min_order: DecimalModel,
)
    requires
        search_step(t, books, fee_rate, min_order) is Some,
        !(search_outcome(t, books, fee_rate, min_profit_rate, min_order) is Fault),
    ensures
        ({
            let step = search_step(t, books, fee_rate, min_order)->0;
            search_outcome(t, books, fee_rate, min_profit_rate, min_order) is Value
                <==> exists|j: int|
                0 <= j <= grid_steps() && #[trigger] qualifies(
                    j,
                    t,
                    books,
                    fee_rate,
                    min_profit_rate,
                    min_order,
                    step,
                ) && value_lt(zero_model(), profit_at(j, t, books, fee_rate, min_order, step))
        }),
{
    let step = search_step(t, books, fee_rate, min_order)->0;
    lemma_grid_never_absent(
        (grid_steps() + 1) as nat,
        t,
        books,
        fee_rate,
        min_profit_rate,
        min_order,
        step,
    );
    lemma_grid_inv(
        (grid_steps() + 1) as nat,
        t,
        books,
        fee_rate,
        min_profit_rate,
        min_order,
        step,
    );
    let g = grid_state(
        (grid_steps() + 1) as nat,
        t,
        books,
        fee_rate,
        min_profit_rate,
        min_order,
        step,
    );
    let best = (g->0).0;
    let found = (g->0).1;
    if let Some(o) = found {
        let i = choose|i: int|
            0 <= i < grid_steps() + 1 && #[trigger] first_best_at(
                i,
                o,
                t,
                books,
                fee_rate,
                min_profit_rate,
                min_order,
                step,
            );
        assert(qualifies(i, t, books, fee_rate, min_profit_rate, min_order, step));
        assert(profit_at(i, t, books, fee_rate, min_order, step) == best);
    } else {
        assert forall|j: int|
            0 <= j <= grid_steps() && #[trigger] qualifies(
                j,
                t,
                books,
                fee_rate,
                min_profit_rate,
                min_order,
                step,
            ) implies !value_lt(zero_model(), profit_at(j, t, books, fee_rate, min_order, step)) by {
            assert(value_le(profit_at(j, t, books, fee_rate, min_order, step), best));
        }
    }
}


/// The triangle gives a value exactly when its three books are present and each leg, fed
/// with the net output of the one before, gives a value; the value is the net output of
/// the third leg.
pub proof fn law_triangle_chains_legs(
    volume_in: DecimalModel,
    t: Triangle,
    books: Map<Seq<char>, OrderBook>,
    fee_rate: DecimalModel,
)
    ensures
        triangle_outcome(volume_in, t, books, fee_rate) is Value <==> {
            &&& has_books(t, books)
            &&& leg_outcome(volume_in, t.leg1.direction, books[t.leg1.symbol@], fee_rate) matches Outcome::Value(
                p1,
            )
            &&& leg_outcome(p1.1, t.leg2.direction, books[t.leg2.symbol@], fee_rate) matches Outcome::Value(
                p2,
            )
            &&& leg_outcome(p2.1, t.leg3.direction, books[t.leg3.symbol@], fee_rate) matches Outcome::Value(
                p3,
            )
            &&& triangle_outcome(volume_in, t, books, fee_rate) == Outcome::Value(p3.1)
        },
{
}


/// The sum of the costs over the levels takes in every level: adding a level at the end
/// adds its price times quantity to the sum of the levels before it (and an empty book
/// costs zero).
pub proof fn law_total_cost_adds_each_level(levels: Seq<OrderBookLevel>, l: OrderBookLevel)
    ensures
        total_cost(Seq::<OrderBookLevel>::empty()) == Some(zero_model()),
        total_cost(levels.push(l)) == match total_cost(levels) {
            None => None,
            Some(sum) => match decimal_checked_mul(l.price@, l.quantity@) {
                None => None,
                Some(cost) => decimal_checked_add(sum, cost),
            },
        },
{
    assert(levels.push(l).drop_last() =~= levels);
    assert(levels.push(l).last() == l);
}

/// The sum of the quantities over the levels takes in every level: adding a level at the
/// end adds its quantity to the sum of the levels before it.
pub proof fn law_total_quantity_adds_each_level(levels: Seq<OrderBookLevel>, l: OrderBookLevel)
    ensures
        total_quantity(Seq::<OrderBookLevel>::empty()) == Some(zero_model()),
        total_quantity(levels.push(l)) == match total_quantity(levels) {
            None => None,
            Some(sum) => decimal_checked_add(sum, l.quantity@),
        },
{
    assert(levels.push(l).drop_last() =~= levels);
    assert(levels.push(l).last() == l);
}

/// What one leg sweeps: a buy walks all the asks spending the volume, a sell walks all the
/// bids giving up the volume, each from nothing obtained.
pub open spec fn full_sweep(
    volume: DecimalModel,
    direction: TradeDirection,
    book: OrderBook,
) -> Option<(DecimalModel, DecimalModel)> {
    match direction {
        TradeDirection::Buy => sweep_by_cost(book.asks@, volume, zero_model()),
        TradeDirection::Sell => sweep_by_quantity(book.bids@, volume, zero_model()),
    }
}

/// A leg gives a value only when its book absorbs all of the volume: the sweep of the whole
/// side leaves nothing unspent, and the raw amount is what the sweep obtained. When the
/// sweep leaves some of the volume over, the leg gives no value.
pub proof fn law_leg_value_only_when_filled(
    volume_in: DecimalModel,
    direction: TradeDirection,
    book: OrderBook,
    fee_rate: DecimalModel,
)
    requires
        volume_in.0 != 0,
    ensures
        leg_outcome(volume_in, direction, book, fee_rate) is Value ==> (full_sweep(
            volume_in,
            direction,
            book,
        ) matches Some(x) && !value_lt(zero_model(), x.0) && (leg_outcome(
            volume_in,
            direction,
            book,
            fee_rate,
        )->0).0 == x.1),
        full_sweep(volume_in, direction, book) matches Some(x) && value_lt(zero_model(), x.0)
            ==> leg_outcome(volume_in, direction, book, fee_rate) is Absent,
{
}

/// What the reverse of one leg sweeps for a raw amount: a buy walks all the asks for that
/// many units of base, a sell walks all the bids for that much quote.
pub open spec fn full_reverse_sweep(
    raw_needed: DecimalModel,
    direction: TradeDirection,
    book: OrderBook,
) -> Option<(DecimalModel, DecimalModel)> {
    match direction {
        TradeDirection::Buy => sweep_by_quantity(book.asks@, raw_needed, zero_model()),
        TradeDirection::Sell => sweep_by_cost(book.bids@, raw_needed, zero_model()),
    }
}

/// The reverse of a leg walks the whole side of the book for the raw amount
/// desired / (1 - fee): it gives a value exactly when that sweep leaves nothing unfilled,
/// and the value is the input the sweep accumulated over the levels it consumed.
pub proof fn law_reverse_walks_whole_book(
    desired: DecimalModel,
    direction: TradeDirection,
    book: OrderBook,
    fee_rate: DecimalModel,
    keep: DecimalModel,
    raw_needed: DecimalModel,
)
    requires
        desired.0 != 0,
        decimal_checked_sub(one_model(), fee_rate) == Some(keep),
        decimal_checked_div(desired, keep) == Some(raw_needed),
    ensures
        reverse_outcome(desired, direction, book, fee_rate) is Value <==> (full_reverse_sweep(
            raw_needed,
            direction,
            book,
        ) matches Some(x) && !value_lt(zero_model(), x.0)),
        reverse_outcome(desired, direction, book, fee_rate) is Value ==> reverse_outcome(
            desired,
            direction,
            book,
            fee_rate,
        )->0 == (full_reverse_sweep(raw_needed, direction, book)->0).1,
        full_reverse_sweep(raw_needed, direction, book) matches Some(x) && value_lt(
            zero_model(),
            x.0,
        ) ==> reverse_outcome(desired, direction, book, fee_rate) is Absent,
{
}

/// The orders of a found opportunity are those of its volume: leg 1 orders the raw amount
/// leg 1 receives; when leg 2 sells A it orders the A that leg 1 delivers net, and when it
/// buys B it orders the B it receives raw; leg 3 orders the B that leg 2 delivers net.
pub proof fn law_opportunity_orders(
    t: Triangle,
    books: Map<Seq<char>, OrderBook>,
    fee_rate: DecimalModel,
    min_profit_rate: DecimalModel,
    min_order: DecimalModel,
)
    requires
        search_outcome(t, books, fee_rate, min_profit_rate, min_order) is Value,
    ensures
        ({
            let o = search_outcome(t, books, fee_rate, min_profit_rate, min_order)->0;
            let b1 = books[t.leg1.symbol@];
            let b2 = books[t.leg2.symbol@];
            &&& o.path_name == t.name@
            &&& leg_outcome(o.optimal_volume, t.leg1.direction, b1, fee_rate) matches Outcome::Value(
                p1,
            ) && o.leg1_raw_qty == p1.0 && match t.leg2.direction {
                TradeDirection::Sell => leg_outcome(p1.1, TradeDirection::Sell, b2, fee_rate) matches Outcome::Value(
                    p2,
                ) && o.leg2_raw_qty == p1.1 && o.leg3_raw_qty == p2.1,
                TradeDirection::Buy => leg_outcome(p1.1, TradeDirection::Buy, b2, fee_rate) matches Outcome::Value(
                    p2,
                ) && o.leg2_raw_qty == p2.0 && o.leg3_raw_qty == p2.1,
            }
        }),
{
    law_search_finds_best(t, books, fee_rate, min_profit_rate, min_order);
    let o = search_outcome(t, books, fee_rate, min_profit_rate, min_order)->0;
    let step = search_step(t, books, fee_rate, min_order)->0;
    let i = choose|i: int|
        0 <= i <= grid_steps() && #[trigger] first_best_at(
            i,
            o,
            t,
            books,
            fee_rate,
            min_profit_rate,
            min_order,
            step,
        );
    assert(found_at(i, o, t, books, fee_rate, min_profit_rate, min_order, step));
}


/// A sweep spending by cost walks the levels in order: with no level left nothing more is
/// spent; a level whose cost covers what remains takes all of it (obtaining remaining /
/// price) and ends the sweep; any other level is bought whole and the sweep goes on with
/// the next level.
pub proof fn law_sweep_by_cost_walks_levels(
    levels: Seq<OrderBookLevel>,
    remaining: DecimalModel,
    obtained: DecimalModel,
)
    ensures
        sweep_by_cost(Seq::<OrderBookLevel>::empty(), remaining, obtained) == Some(
            (remaining, obtained),
        ),
        levels.len() > 0 ==> {
            let l = levels[0];
            sweep_by_cost(levels, remaining, obtained) == match decimal_checked_mul(
                l.price@,
                l.quantity@,
            ) {
                None => None,
                Some(cost) => if value_le(remaining, cost) {
                    match decimal_checked_div(remaining, l.price@) {
                        None => None,
                        Some(part) => match decimal_checked_add(obtained, part) {
                            None => None,
                            Some(total) => Some((zero_model(), total)),
                        },
                    }
                } else {
                    match decimal_checked_add(obtained, l.quantity@) {
                        None => None,
                        Some(total) => match decimal_checked_sub(remaining, cost) {
                            None => None,
                            Some(left) => sweep_by_cost(levels.drop_first(), left, total),
                        },
                    }
                },
            }
        },
{
}

/// A sweep giving up a quantity walks the levels in order: with no level left nothing more
/// is given up; a level whose quantity covers what remains takes all of it (obtaining
/// remaining * price) and ends the sweep; any other level is sold to whole and the sweep
/// goes on with the next level.
pub proof fn law_sweep_by_quantity_walks_levels(
    levels: Seq<OrderBookLevel>,
    remaining: DecimalModel,
    obtained: DecimalModel,
)
    ensures
        sweep_by_quantity(Seq::<OrderBookLevel>::empty(), remaining, obtained) == Some(
            (remaining, obtained),
        ),
        levels.len() > 0 ==> {
            let l = levels[0];
            sweep_by_quantity(levels, remaining, obtained) == if value_le(remaining, l.quantity@) {
                match decimal_checked_mul(remaining, l.price@) {
                    None => None,
                    Some(part) => match decimal_checked_add(obtained, part) {
                        None => None,
                        Some(total) => Some((zero_model(), total)),
                    },
                }
            } else {
                match decimal_checked_mul(l.quantity@, l.price@) {
                    None => None,
                    Some(value) => match decimal_checked_add(obtained, value) {
                        None => None,
                        Some(total) => match decimal_checked_sub(remaining, l.quantity@) {
                            None => None,
                            Some(left) => sweep_by_quantity(levels.drop_first(), left, total),
                        },
                    },
                }
            }
        },
{
}

/// The three limits of a triangle. Leg 1 can take the total cost of its asks. When leg 2
/// sells A it can take the A its bids hold; when it buys B it can take the A its asks cost;
/// leg 3 can take the B its bids hold. Each of these is converted back to the USDT that
/// the legs before it need to deliver it (the largest decimal when a book is too thin to
/// say).
pub proof fn law_capacity_limits(t: Triangle, books: Map<Seq<char>, OrderBook>, fee_rate: DecimalModel)
    requires
        has_books(t, books),
    ensures
        ({
            let b1 = books[t.leg1.symbol@];
            let b2 = books[t.leg2.symbol@];
            let b3 = books[t.leg3.symbol@];
            let back1 = |a: DecimalModel|
                match reverse_outcome(a, t.leg1.direction, b1, fee_rate) {
                    Outcome::Fault => None,
                    Outcome::Absent => Some(max_model()),
                    Outcome::Value(x) => Some(x),
                };
            &&& leg2_capacity(t, books, fee_rate) == match t.leg2.direction {
                TradeDirection::Sell => match total_quantity(b2.bids@) {
                    None => None,
                    Some(a) => back1(a),
                },
                TradeDirection::Buy => match total_cost(b2.asks@) {
                    None => None,
                    Some(a) => back1(a),
                },
            }
            &&& leg3_capacity(t, books, fee_rate) == match total_quantity(b3.bids@) {
                None => None,
                Some(b) => match reverse_outcome(b, t.leg2.direction, b2, fee_rate) {
                    Outcome::Fault => None,
                    Outcome::Absent => Some(max_model()),
                    Outcome::Value(a) => back1(a),
                },
            }
            &&& capacity_outcome(t, books, fee_rate) == match total_cost(b1.asks@) {
                None => Outcome::Fault,
                Some(v1) => match (leg2_capacity(t, books, fee_rate), leg3_capacity(
                    t,
                    books,
                    fee_rate,
                )) {
                    (Some(v2), Some(v3)) => Outcome::Value(min_value(min_value(v1, v2), v3)),
                    _ => Outcome::Fault,
                },
            }
        }),
{
}

} // verus!
