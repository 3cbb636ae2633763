//! Fixed-point decimal numbers: a signed 96-bit mantissa scaled by a power of ten.
//!
//! The arithmetic itself is done by `rust_decimal`; this module keeps the value as plain
//! integers so that the trading logic can be stated and checked over it.
use crate::text::decimal_digits;
use vstd::prelude::*;

verus! {

/// Largest mantissa magnitude a decimal can hold: 2^96 - 1.
pub open spec fn max_mantissa() -> int {
    79228162514264337593543950335
}

/// Largest number of fractional digits a decimal can hold.
pub open spec fn max_scale() -> nat {
    28
}

/// 10^n.
pub open spec fn pow10(n: nat) -> int
    decreases n,
{
    if n == 0 {
        1
    } else {
        10 * pow10((n - 1) as nat)
    }
}

/// The mathematical model of a decimal: (mantissa, scale), standing for mantissa / 10^scale.
pub type DecimalModel = (int, nat);

/// A model that a real decimal can take.
pub open spec fn dec_wf(d: DecimalModel) -> bool {
    -max_mantissa() <= d.0 <= max_mantissa() && d.1 <= max_scale()
}

/// a and b stand for the same number.
pub open spec fn same_value(a: DecimalModel, b: DecimalModel) -> bool {
    a.0 * pow10(b.1) == b.0 * pow10(a.1)
}

/// The number a is less than or equal to the number b.
pub open spec fn value_le(a: DecimalModel, b: DecimalModel) -> bool {
    a.0 * pow10(b.1) <= b.0 * pow10(a.1)
}

/// The number a is strictly less than the number b.
pub open spec fn value_lt(a: DecimalModel, b: DecimalModel) -> bool {
    a.0 * pow10(b.1) < b.0 * pow10(a.1)
}

/// The model of zero.
pub open spec fn zero_model() -> DecimalModel {
    (0, 0)
}

/// The model of one.
pub open spec fn one_model() -> DecimalModel {
    (1, 0)
}

/// The model of the largest decimal.
pub open spec fn max_model() -> DecimalModel {
    (max_mantissa(), 0)
}

/// The larger of two scales.
pub open spec fn max_of(a: nat, b: nat) -> nat {
    if a <= b {
        b
    } else {
        a
    }
}

/// The exact sum of a and b, written at the larger of the two scales.
pub open spec fn exact_sum(a: DecimalModel, b: DecimalModel) -> DecimalModel {
    let s = max_of(a.1, b.1);
    (a.0 * pow10((s - a.1) as nat) + b.0 * pow10((s - b.1) as nat), s)
}

/// The exact difference a - b, written at the larger of the two scales.
pub open spec fn exact_difference(a: DecimalModel, b: DecimalModel) -> DecimalModel {
    let s = max_of(a.1, b.1);
    (a.0 * pow10((s - a.1) as nat) - b.0 * pow10((s - b.1) as nat), s)
}

/// The exact product of a and b.
pub open spec fn exact_product(a: DecimalModel, b: DecimalModel) -> DecimalModel {
    (a.0 * b.0, a.1 + b.1)
}

/// A model whose mantissa fits in 96 bits and whose scale is in range.
pub open spec fn fits(d: DecimalModel) -> bool {
    -max_mantissa() <= d.0 <= max_mantissa() && d.1 <= max_scale()
}

/// The view of an optional decimal.
pub open spec fn opt_model(o: Option<Decimal>) -> Option<DecimalModel> {
    match o {
        Some(d) => Some(d@),
        None => None,
    }
}

/// What `rust_decimal::Decimal::checked_add` returns on two decimals (None on overflow).
pub uninterp spec fn decimal_checked_add(a: DecimalModel, b: DecimalModel) -> Option<DecimalModel>;

/// What `rust_decimal::Decimal::checked_sub` returns on two decimals (None on overflow).
pub uninterp spec fn decimal_checked_sub(a: DecimalModel, b: DecimalModel) -> Option<DecimalModel>;

/// What `rust_decimal::Decimal::checked_mul` returns on two decimals (None on overflow).
pub uninterp spec fn decimal_checked_mul(a: DecimalModel, b: DecimalModel) -> Option<DecimalModel>;

/// What `rust_decimal::Decimal::checked_div` returns on two decimals
/// (None on overflow or on a zero divisor).
pub uninterp spec fn decimal_checked_div(a: DecimalModel, b: DecimalModel) -> Option<DecimalModel>;

/// What `<rust_decimal::Decimal as FromStr>::from_str` accepts and returns on a text.
pub uninterp spec fn decimal_parse(text: Seq<char>) -> Option<DecimalModel>;

/// `n` zero digits.
pub open spec fn zeros(n: nat) -> Seq<char> {
    Seq::new(n, |i: int| '0')
}

/// The digits of |m| without leading zeros (none for zero), left-padded with zeros to at
/// least `s` digits.
pub open spec fn padded_digits(m: int, s: nat) -> Seq<char> {
    let n: nat = if m < 0 {
        (-m) as nat
    } else {
        m as nat
    };
    let d = if n == 0 {
        Seq::<char>::empty()
    } else {
        decimal_digits(n)
    };
    if d.len() < s {
        zeros((s - d.len()) as nat) + d
    } else {
        d
    }
}

/// How a decimal is written: a minus sign for a negative mantissa, the whole digits ("0"
/// when there are none), then, when the scale is positive, "." and exactly `scale`
/// fraction digits.
pub open spec fn decimal_text(d: DecimalModel) -> Seq<char> {
    let p = padded_digits(d.0, d.1);
    let whole = p.take(p.len() - d.1);
    let fraction = p.skip(p.len() - d.1);
    let body = if d.1 == 0 {
        if p.len() == 0 {
            seq!['0']
        } else {
            p
        }
    } else {
        (if whole.len() == 0 {
            seq!['0']
        } else {
            whole
        }) + seq!['.'] + fraction
    };
    if d.0 < 0 {
        seq!['-'] + body
    } else {
        body
    }
}

/// The largest integer not above mantissa / 10^scale.
pub open spec fn floor_model(d: DecimalModel) -> DecimalModel {
    (d.0 / pow10(d.1), 0)
}

/// A decimal with its trailing fractional zeros removed, and zero written as (0, 0).
pub open spec fn normalized(d: DecimalModel) -> DecimalModel
    decreases d.1,
{
    if d.0 == 0 {
        (0, 0)
    } else if d.1 > 0 && d.0 % 10 == 0 {
        normalized((d.0 / 10, (d.1 - 1) as nat))
    } else {
        d
    }
}

/// Every power of ten is positive.
pub proof fn lemma_pow10_positive(n: nat)
    ensures
        pow10(n) > 0,
    decreases n,
{
    if n > 0 {
        lemma_pow10_positive((n - 1) as nat);
    }
}

/// Powers of ten multiply: 10^(a + b) = 10^a * 10^b.
pub proof fn lemma_pow10_add(a: nat, b: nat)
    ensures
        pow10(a + b) == pow10(a) * pow10(b),
    decreases a,
{
    if a > 0 {
        lemma_pow10_add((a - 1) as nat, b);
        assert((a + b - 1) as nat == ((a - 1) as nat + b) as nat);
        assert(pow10(a + b) == 10 * pow10((a + b - 1) as nat));
        assert(10 * (pow10((a - 1) as nat) * pow10(b)) == (10 * pow10((a - 1) as nat)) * pow10(b))
            by (nonlinear_arith);
    }
}

/// Cross-multiplied comparisons chain: x * pb <= y * pa and y * pc <= z * pb give
/// x * pc <= z * pa when the scales are positive.
proof fn lemma_cross_le(x: int, y: int, z: int, pa: int, pb: int, pc: int)
    requires
        pa > 0,
        pb > 0,
        pc > 0,
        x * pb <= y * pa,
        y * pc <= z * pb,
    ensures
        x * pc <= z * pa,
{
    assert(x * pb * pc <= y * pa * pc) by (nonlinear_arith)
        requires
            x * pb <= y * pa,
            pc > 0,
    ;
    assert(y * pc * pa <= z * pb * pa) by (nonlinear_arith)
        requires
            y * pc <= z * pb,
            pa > 0,
    ;
    assert(x * pc * pb <= z * pa * pb) by (nonlinear_arith)
        requires
            x * pb * pc <= y * pa * pc,
            y * pc * pa <= z * pb * pa,
    ;
    assert(x * pc <= z * pa) by (nonlinear_arith)
        requires
            x * pc * pb <= z * pa * pb,
            pb > 0,
    ;
}

/// Strict cross-multiplied comparisons chain like the others.
proof fn lemma_cross_lt(x: int, y: int, z: int, pa: int, pb: int, pc: int)
    requires
        pa > 0,
        pb > 0,
        pc > 0,
        x * pb < y * pa,
        y * pc <= z * pb,
    ensures
        x * pc < z * pa,
{
    assert(x * pb * pc < y * pa * pc) by (nonlinear_arith)
        requires
            x * pb < y * pa,
            pc > 0,
    ;
    assert(y * pc * pa <= z * pb * pa) by (nonlinear_arith)
        requires
            y * pc <= z * pb,
            pa > 0,
    ;
    assert(x * pc * pb < z * pa * pb) by (nonlinear_arith)
        requires
            x * pb * pc < y * pa * pc,
            y * pc * pa <= z * pb * pa,
    ;
    assert(x * pc < z * pa) by (nonlinear_arith)
        requires
            x * pc * pb < z * pa * pb,
            pb > 0,
    ;
}

/// The order of numbers is transitive.
pub proof fn lemma_value_le_transitive(a: DecimalModel, b: DecimalModel, c: DecimalModel)
    requires
        value_le(a, b),
        value_le(b, c),
    ensures
        value_le(a, c),
{
    lemma_pow10_positive(a.1);
    lemma_pow10_positive(b.1);
    lemma_pow10_positive(c.1);
    lemma_cross_le(a.0, b.0, c.0, pow10(a.1), pow10(b.1), pow10(c.1));
}

/// A strict step followed by a step up is strict.
pub proof fn lemma_value_lt_le_transitive(a: DecimalModel, b: DecimalModel, c: DecimalModel)
    requires
        value_lt(a, b),
        value_le(b, c),
    ensures
        value_lt(a, c),
{
    lemma_pow10_positive(a.1);
    lemma_pow10_positive(b.1);
    lemma_pow10_positive(c.1);
    lemma_cross_lt(a.0, b.0, c.0, pow10(a.1), pow10(b.1), pow10(c.1));
}

/// A step up followed by a strict step is strict, cross-multiplied.
proof fn lemma_cross_le_lt(x: int, y: int, z: int, pa: int, pb: int, pc: int)
    requires
        pa > 0,
        pb > 0,
        pc > 0,
        x * pb <= y * pa,
        y * pc < z * pb,
    ensures
        x * pc < z * pa,
{
    assert(x * pb * pc <= y * pa * pc) by (nonlinear_arith)
        requires
            x * pb <= y * pa,
            pc > 0,
    ;
    assert(y * pc * pa < z * pb * pa) by (nonlinear_arith)
        requires
            y * pc < z * pb,
            pa > 0,
    ;
    assert(x * pc * pb < z * pa * pb) by (nonlinear_arith)
        requires
            x * pb * pc <= y * pa * pc,
            y * pc * pa < z * pb * pa,
    ;
    assert(x * pc < z * pa) by (nonlinear_arith)
        requires
            x * pc * pb < z * pa * pb,
            pb > 0,
    ;
}

/// A step up followed by a strict step is strict.
pub proof fn lemma_value_le_lt_transitive(a: DecimalModel, b: DecimalModel, c: DecimalModel)
    requires
        value_le(a, b),
        value_lt(b, c),
    ensures
        value_lt(a, c),
{
    lemma_pow10_positive(a.1);
    lemma_pow10_positive(b.1);
    lemma_pow10_positive(c.1);
    lemma_cross_le_lt(a.0, b.0, c.0, pow10(a.1), pow10(b.1), pow10(c.1));
}

/// Multiplying both sides by the same positive number keeps a strict order.
pub proof fn lemma_value_lt_scaled(a: DecimalModel, b: DecimalModel, c: DecimalModel)
    requires
        value_lt(a, b),
        c.0 > 0,
    ensures
        value_lt(exact_product(a, c), exact_product(b, c)),
{
    lemma_pow10_positive(a.1);
    lemma_pow10_positive(b.1);
    lemma_pow10_positive(c.1);
    lemma_pow10_add(a.1, c.1);
    lemma_pow10_add(b.1, c.1);
    let (pa, pb, pc) = (pow10(a.1), pow10(b.1), pow10(c.1));
    assert(a.0 * pb * (c.0 * pc) < b.0 * pa * (c.0 * pc)) by (nonlinear_arith)
        requires
            a.0 * pb < b.0 * pa,
            c.0 > 0,
            pc > 0,
    ;
    assert((a.0 * c.0) * (pb * pc) == a.0 * pb * (c.0 * pc)) by (nonlinear_arith);
    assert((b.0 * c.0) * (pa * pc) == b.0 * pa * (c.0 * pc)) by (nonlinear_arith);
}

/// A signed 96-bit mantissa scaled down by a power of ten between 0 and 28.
#[derive(Clone, Copy, Debug)]
pub struct Decimal {
    mantissa: i128,
    scale: u32,
}

impl View for Decimal {
    type V = DecimalModel;

    closed spec fn view(&self) -> DecimalModel {
        (self.mantissa as int, self.scale as nat)
    }
}

impl Decimal {
    #[verifier::type_invariant]
    spec fn well_formed(self) -> bool {
        -79228162514264337593543950335 <= self.mantissa <= 79228162514264337593543950335
            && self.scale <= 28
    }

    /// The decimal num / 10^scale.
    pub fn new(num: i64, scale: u32) -> (r: Decimal)
        requires
            scale <= 28,
        ensures
            r@ == (num as int, scale as nat),
    {
        let r = Decimal { mantissa: num as i128, scale };
        proof {
            assert(r@ == (num as int, scale as nat));
        }
        r
    }

    /// The decimal num / 10^scale, when num fits in 96 bits and scale is at most 28.
    pub fn try_from_i128_with_scale(num: i128, scale: u32) -> (r: Option<Decimal>)
        ensures
            r is Some <==> fits((num as int, scale as nat)),
            r is Some ==> r->0@ == (num as int, scale as nat),
    {
        if scale <= 28 && -79228162514264337593543950335 <= num && num
            <= 79228162514264337593543950335 {
            let r = Decimal { mantissa: num, scale };
            proof {
                assert(r@ == (num as int, scale as nat));
            }
            Some(r)
        } else {
            None
        }
    }

    /// Zero.
    pub fn zero() -> (r: Decimal)
        ensures
            r@ == zero_model(),
    {
        Decimal::new(0, 0)
    }

    /// One.
    pub fn one() -> (r: Decimal)
        ensures
            r@ == one_model(),
    {
        Decimal::new(1, 0)
    }

    /// The largest decimal, 2^96 - 1.
    pub fn max_value() -> (r: Decimal)
        ensures
            r@ == max_model(),
    {
        let r = Decimal { mantissa: 79228162514264337593543950335, scale: 0 };
        proof {
            assert(r@ == max_model());
        }
        r
    }

    /// The integer i as a decimal.
    pub fn from_int(i: i64) -> (r: Decimal)
        ensures
            r@ == (i as int, 0nat),
    {
        Decimal::new(i, 0)
    }

    /// The mantissa.
    pub fn mantissa(&self) -> (r: i128)
        ensures
            r == self@.0,
            dec_wf(self@),
    {
        proof {
            use_type_invariant(self);
        }
        self.mantissa
    }

    /// The scale: the number of fractional digits.
    pub fn scale(&self) -> (r: u32)
        ensures
            r == self@.1,
            dec_wf(self@),
    {
        proof {
            use_type_invariant(self);
        }
        self.scale
    }

    /// Whether the number is zero.
    pub fn is_zero(&self) -> (r: bool)
        ensures
            r == (self@.0 == 0),
    {
        self.mantissa == 0
    }
}

impl PartialEq for Decimal {
    fn eq(&self, other: &Decimal) -> (r: bool) {
        value_eq(self, other)
    }
}

impl vstd::std_specs::cmp::PartialEqSpecImpl for Decimal {
    open spec fn obeys_eq_spec() -> bool {
        true
    }

    open spec fn eq_spec(&self, other: &Decimal) -> bool {
        same_value(self@, other@)
    }
}

/// `rust_decimal::Decimal::checked_add`. The result is named by `decimal_checked_add`;
/// when the exact sum fits in 96 bits at the larger scale, the call succeeds and is exact.
#[verifier::external_body]
pub(crate) fn checked_add(a: Decimal, b: Decimal) -> (r: Option<Decimal>)
    ensures
        opt_model(r) == decimal_checked_add(a@, b@),
        fits(exact_sum(a@, b@)) ==> r is Some && same_value(r->0@, exact_sum(a@, b@)),
{
    let x = rust_decimal::Decimal::from_i128_with_scale(a.mantissa, a.scale);
    let y = rust_decimal::Decimal::from_i128_with_scale(b.mantissa, b.scale);
    match x.checked_add(y) {
        Some(d) => Some(Decimal { mantissa: d.mantissa(), scale: d.scale() }),
        None => None,
    }
}

/// `rust_decimal::Decimal::checked_sub`. The result is named by `decimal_checked_sub`;
/// when the exact difference fits in 96 bits at the larger scale, the call succeeds and is exact.
#[verifier::external_body]
pub(crate) fn checked_sub(a: Decimal, b: Decimal) -> (r: Option<Decimal>)
    ensures
        opt_model(r) == decimal_checked_sub(a@, b@),
        fits(exact_difference(a@, b@)) ==> r is Some && same_value(r->0@, exact_difference(a@, b@)),
{
    let x = rust_decimal::Decimal::from_i128_with_scale(a.mantissa, a.scale);
    let y = rust_decimal::Decimal::from_i128_with_scale(b.mantissa, b.scale);
    match x.checked_sub(y) {
        Some(d) => Some(Decimal { mantissa: d.mantissa(), scale: d.scale() }),
        None => None,
    }
}

/// `rust_decimal::Decimal::checked_mul`. The result is named by `decimal_checked_mul`;
/// when the exact product fits in 96 bits with at most 28 fractional digits, the call
/// succeeds and is exact.
#[verifier::external_body]
pub(crate) fn checked_mul(a: Decimal, b: Decimal) -> (r: Option<Decimal>)
    ensures
        opt_model(r) == decimal_checked_mul(a@, b@),
        fits(exact_product(a@, b@)) ==> r is Some && same_value(r->0@, exact_product(a@, b@)),
{
    let x = rust_decimal::Decimal::from_i128_with_scale(a.mantissa, a.scale);
    let y = rust_decimal::Decimal::from_i128_with_scale(b.mantissa, b.scale);
    match x.checked_mul(y) {
        Some(d) => Some(Decimal { mantissa: d.mantissa(), scale: d.scale() }),
        None => None,
    }
}

/// `rust_decimal::Decimal::checked_div`. The result is named by `decimal_checked_div`;
/// a zero divisor gives None, a zero dividend (with a nonzero divisor) gives zero, and
/// when the exact quotient is a decimal that fits (96-bit mantissa, at most 28 fractional
/// digits) the call succeeds with that value. How an inexact quotient is rounded is left
/// unsaid.
#[verifier::external_body]
pub(crate) fn checked_div(a: Decimal, b: Decimal) -> (r: Option<Decimal>)
    ensures
        opt_model(r) == decimal_checked_div(a@, b@),
        b@.0 == 0 ==> r is None,
        b@.0 != 0 && a@.0 == 0 ==> r is Some && r->0@ == zero_model(),
        forall|q: DecimalModel|
            b@.0 != 0 && fits(q) && #[trigger] same_value(a@, exact_product(q, b@)) ==> r is Some
                && same_value(r->0@, q),
{
    let x = rust_decimal::Decimal::from_i128_with_scale(a.mantissa, a.scale);
    let y = rust_decimal::Decimal::from_i128_with_scale(b.mantissa, b.scale);
    match x.checked_div(y) {
        Some(d) => Some(Decimal { mantissa: d.mantissa(), scale: d.scale() }),
        None => None,
    }
}

/// `<rust_decimal::Decimal as PartialOrd>::le`: compares the two numbers by value.
#[verifier::external_body]
pub(crate) fn le(a: &Decimal, b: &Decimal) -> (r: bool)
    ensures
        r == value_le(a@, b@),
{
    let x = rust_decimal::Decimal::from_i128_with_scale(a.mantissa, a.scale);
    let y = rust_decimal::Decimal::from_i128_with_scale(b.mantissa, b.scale);
    x <= y
}

/// `<rust_decimal::Decimal as PartialOrd>::lt`: compares the two numbers by value.
#[verifier::external_body]
pub(crate) fn lt(a: &Decimal, b: &Decimal) -> (r: bool)
    ensures
        r == value_lt(a@, b@),
{
    let x = rust_decimal::Decimal::from_i128_with_scale(a.mantissa, a.scale);
    let y = rust_decimal::Decimal::from_i128_with_scale(b.mantissa, b.scale);
    x < y
}

/// `<rust_decimal::Decimal as PartialEq>::eq`: compares the two numbers by value.
#[verifier::external_body]
pub(crate) fn value_eq(a: &Decimal, b: &Decimal) -> (r: bool)
    ensures
        r == same_value(a@, b@),
{
    let x = rust_decimal::Decimal::from_i128_with_scale(a.mantissa, a.scale);
    let y = rust_decimal::Decimal::from_i128_with_scale(b.mantissa, b.scale);
    x == y
}

/// `rust_decimal::Decimal::floor`: the largest integer not above the number, at scale 0.
#[verifier::external_body]
pub(crate) fn floor(a: Decimal) -> (r: Decimal)
    ensures
        r@ == floor_model(a@),
{
    let d = rust_decimal::Decimal::from_i128_with_scale(a.mantissa, a.scale).floor();
    Decimal { mantissa: d.mantissa(), scale: d.scale() }
}

/// `rust_decimal::Decimal::normalize`: the same number without trailing fractional zeros.
#[verifier::external_body]
pub(crate) fn normalize(a: Decimal) -> (r: Decimal)
    ensures
        r@ == normalized(a@),
{
    let d = rust_decimal::Decimal::from_i128_with_scale(a.mantissa, a.scale).normalize();
    Decimal { mantissa: d.mantissa(), scale: d.scale() }
}

/// The error type of `rust_decimal`, carried through as it is.
#[verifier::external_type_specification]
#[verifier::external_body]
pub struct ExDecimalError(rust_decimal::Error);

/// `<rust_decimal::Decimal as FromStr>::from_str`: whether it accepts a text and what it
/// returns are named by `decimal_parse`; the grammar, the rounding of long inputs and which
/// error comes back are left unsaid.
#[verifier::external_body]
pub(crate) fn parse(text: &str) -> (r: Result<Decimal, rust_decimal::Error>)
    ensures
        r is Ok <==> decimal_parse(text@) is Some,
        r matches Ok(d) ==> decimal_parse(text@) == Some(d@),
{
    match <rust_decimal::Decimal as std::str::FromStr>::from_str(text) {
        Ok(d) => Ok(Decimal { mantissa: d.mantissa(), scale: d.scale() }),
        Err(e) => Err(e),
    }
}

/// `<rust_decimal::Decimal as Display>` through `to_string`: the sign of a negative number,
/// the whole digits, and for a positive scale "." followed by exactly `scale` fraction
/// digits (`decimal_text`).
#[verifier::external_body]
pub(crate) fn to_text(a: Decimal) -> (r: String)
    ensures
        r@ == decimal_text(a@),
{
    rust_decimal::Decimal::from_i128_with_scale(a.mantissa, a.scale).to_string()
}

} // verus!
