//! Exact decimal numbers, as a signed 96-bit mantissa over a power of ten,
//! with arithmetic delegated to `rust_decimal`.
use rust_decimal::Decimal;
use vstd::prelude::*;

verus! {

/// Largest mantissa magnitude a decimal can hold: 2^96 - 1.
pub const MAX_MANTISSA: i128 = 79228162514264337593543950335;

/// Largest number of fractional digits a decimal can hold.
pub const MAX_SCALE: u32 = 28;

/// 10^n.
pub open spec fn pow10(n: nat) -> int
    decreases n,
{
    if n == 0 {
        1
    } else {
        10 * pow10((n - 1) as nat)
    }
}

/// 10^i is positive and grows with i.
pub proof fn lemma_pow10_grows(i: nat, j: nat)
    requires
        i <= j,
    ensures
        1 <= pow10(i) <= pow10(j),
    decreases j,
{
    if j > i {
        lemma_pow10_grows(i, (j - 1) as nat);
    } else if i > 0 {
        lemma_pow10_grows((i - 1) as nat, (i - 1) as nat);
    }
}

/// 10^(a + b) == 10^a * 10^b.
pub proof fn lemma_pow10_add(a: nat, b: nat)
    ensures
        pow10(a + b) == pow10(a) * pow10(b),
    decreases a,
{
    if a > 0 {
        lemma_pow10_add((a - 1) as nat, b);
        assert(10 * (pow10((a - 1) as nat) * pow10(b)) == (10 * pow10((a - 1) as nat)) * pow10(b))
            by (nonlinear_arith);
    }
}

/// The number `mantissa / 10^scale`.
#[derive(Clone, Copy, Debug, PartialEq, Eq, Structural)]
pub struct Dec {
    pub mantissa: i128,
    pub scale: u32,
}

/// What arithmetic is judged on: a mantissa and a scale.
pub type DecPair = (int, nat);

/// Result of `rust_decimal::Decimal::checked_mul` on the decimals given by two pairs.
pub uninterp spec fn decimal_product(a: DecPair, b: DecPair) -> Option<DecPair>;

/// Result of `rust_decimal::Decimal::checked_div` on the decimals given by two pairs.
pub uninterp spec fn decimal_quotient(a: DecPair, b: DecPair) -> Option<DecPair>;

/// Result of `rust_decimal::Decimal::checked_add` on the decimals given by two pairs.
pub uninterp spec fn decimal_sum(a: DecPair, b: DecPair) -> Option<DecPair>;

/// Result of `rust_decimal::Decimal::checked_sub` on the decimals given by two pairs.
pub uninterp spec fn decimal_difference(a: DecPair, b: DecPair) -> Option<DecPair>;

/// Result of `rust_decimal::Decimal::round_dp(2)` on the decimal of a pair.
pub uninterp spec fn rounded_to_cents(a: DecPair) -> DecPair;

/// Text that `format!("{:.2}", d)` gives for the decimal of a pair.
pub uninterp spec fn two_place_text(a: DecPair) -> Seq<char>;

pub open spec fn fits_mantissa(m: int) -> bool {
    -MAX_MANTISSA <= m <= MAX_MANTISSA
}

pub open spec fn opt_pair(o: Option<Dec>) -> Option<DecPair> {
    match o {
        Some(d) => Some(d.pair()),
        None => None,
    }
}

/// The larger of two scales.
pub open spec fn common_scale(a: DecPair, b: DecPair) -> nat {
    if a.1 >= b.1 {
        a.1
    } else {
        b.1
    }
}

/// The mantissa of `a` written at scale `s` (no smaller than `a`'s own).
pub open spec fn aligned(a: DecPair, s: nat) -> int {
    a.0 * pow10((s - a.1) as nat)
}

/// Both operands, and `sign`-combined sum of them, fit at the larger scale.
pub open spec fn aligned_fits(a: DecPair, b: DecPair, sign: int) -> bool {
    let s = common_scale(a, b);
    &&& fits_mantissa(aligned(a, s))
    &&& fits_mantissa(aligned(b, s))
    &&& fits_mantissa(aligned(a, s) + sign * aligned(b, s))
}

/// Two pairs stand for the same number.
pub open spec fn same_value(a: DecPair, b: DecPair) -> bool {
    a.0 * pow10(b.1) == b.0 * pow10(a.1)
}

impl Dec {
    pub open spec fn pair(self) -> DecPair {
        (self.mantissa as int, self.scale as nat)
    }

    /// A value `rust_decimal` can represent.
    pub open spec fn wf(self) -> bool {
        fits_mantissa(self.mantissa as int) && self.scale <= MAX_SCALE
    }

    pub fn new(mantissa: i128, scale: u32) -> (r: Dec)
        ensures
            r.mantissa == mantissa,
            r.scale == scale,
    {
        Dec { mantissa, scale }
    }

    pub fn from_u32(n: u32) -> (r: Dec)
        ensures
            r.pair() == (n as int, 0nat),
            r.wf(),
    {
        Dec { mantissa: n as i128, scale: 0 }
    }

    pub fn one() -> (r: Dec)
        ensures
            r.pair() == (1int, 0nat),
            r.wf(),
    {
        Dec { mantissa: 1, scale: 0 }
    }
}

/// Relies on `Decimal::checked_mul` (rust_decimal `ops/mul.rs`): a zero
/// operand gives plain zero; a product whose mantissa fits in 96 bits and
/// whose scale stays within 28 is exact, at the sum of the scales.
#[verifier::external_body]
pub(crate) fn checked_mul(a: Dec, b: Dec) -> (r: Option<Dec>)
    requires
        a.wf(),
        b.wf(),
    ensures
        opt_pair(r) == decimal_product(a.pair(), b.pair()),
        r matches Some(v) ==> v.wf(),
        a.mantissa == 0 || b.mantissa == 0 ==> r == Some(Dec { mantissa: 0, scale: 0 }),
        a.mantissa != 0 && b.mantissa != 0 && fits_mantissa(a.mantissa * b.mantissa)
            && a.scale + b.scale <= MAX_SCALE ==> r == Some(
            Dec { mantissa: (a.mantissa * b.mantissa) as i128, scale: (a.scale + b.scale) as u32 },
        ),
{
    let x = Decimal::from_i128_with_scale(a.mantissa, a.scale);
    let y = Decimal::from_i128_with_scale(b.mantissa, b.scale);
    x.checked_mul(y).map(|v| Dec { mantissa: v.mantissa(), scale: v.scale() })
}

/// Relies on `Decimal::checked_div` (rust_decimal `ops/div.rs`): a zero divisor
/// gives `None`; a zero dividend over a non-zero divisor gives plain zero.
#[verifier::external_body]
pub(crate) fn checked_div(a: Dec, b: Dec) -> (r: Option<Dec>)
    requires
        a.wf(),
        b.wf(),
    ensures
        opt_pair(r) == decimal_quotient(a.pair(), b.pair()),
        r matches Some(v) ==> v.wf(),
        b.mantissa == 0 ==> r is None,
        b.mantissa != 0 && a.mantissa == 0 ==> r == Some(Dec { mantissa: 0, scale: 0 }),
{
    let x = Decimal::from_i128_with_scale(a.mantissa, a.scale);
    let y = Decimal::from_i128_with_scale(b.mantissa, b.scale);
    x.checked_div(y).map(|v| Dec { mantissa: v.mantissa(), scale: v.scale() })
}

/// Relies on `Decimal::checked_add` (rust_decimal `ops/add.rs`): a zero
/// operand hands the other back unchanged; when both operands and their sum
/// fit in 96 bits at the larger scale, the sum is exact at that scale.
#[verifier::external_body]
pub(crate) fn checked_add(a: Dec, b: Dec) -> (r: Option<Dec>)
    requires
        a.wf(),
        b.wf(),
    ensures
        opt_pair(r) == decimal_sum(a.pair(), b.pair()),
        r matches Some(v) ==> v.wf(),
        a.mantissa == 0 ==> r == Some(b),
        a.mantissa != 0 && b.mantissa == 0 ==> r == Some(a),
        a.mantissa != 0 && b.mantissa != 0 && aligned_fits(a.pair(), b.pair(), 1) ==> opt_pair(r)
            == Some(
            (
                aligned(a.pair(), common_scale(a.pair(), b.pair())) + aligned(
                    b.pair(),
                    common_scale(a.pair(), b.pair()),
                ),
                common_scale(a.pair(), b.pair()),
            ),
        ),
{
    let x = Decimal::from_i128_with_scale(a.mantissa, a.scale);
    let y = Decimal::from_i128_with_scale(b.mantissa, b.scale);
    x.checked_add(y).map(|v| Dec { mantissa: v.mantissa(), scale: v.scale() })
}

/// Relies on `Decimal::checked_sub` (rust_decimal `ops/add.rs`): subtracting
/// from zero negates the other operand; subtracting zero hands the first
/// back unchanged; when both operands and their difference fit in 96 bits at
/// the larger scale, the difference is exact at that scale.
#[verifier::external_body]
pub(crate) fn checked_sub(a: Dec, b: Dec) -> (r: Option<Dec>)
    requires
        a.wf(),
        b.wf(),
    ensures
        opt_pair(r) == decimal_difference(a.pair(), b.pair()),
        r matches Some(v) ==> v.wf(),
        a.mantissa == 0 ==> opt_pair(r) == Some((-b.mantissa, b.scale as nat)),
        a.mantissa != 0 && b.mantissa == 0 ==> r == Some(a),
        a.mantissa != 0 && b.mantissa != 0 && aligned_fits(a.pair(), b.pair(), -1) ==> opt_pair(r)
            == Some(
            (
                aligned(a.pair(), common_scale(a.pair(), b.pair())) - aligned(
                    b.pair(),
                    common_scale(a.pair(), b.pair()),
                ),
                common_scale(a.pair(), b.pair()),
            ),
        ),
{
    let x = Decimal::from_i128_with_scale(a.mantissa, a.scale);
    let y = Decimal::from_i128_with_scale(b.mantissa, b.scale);
    x.checked_sub(y).map(|v| Dec { mantissa: v.mantissa(), scale: v.scale() })
}

/// Relies on `Decimal::round_dp(2)`: rounds to two fractional digits, half
/// to even, and hands back a value with at most two digits unchanged.
#[verifier::external_body]
pub(crate) fn round_to_cents(a: Dec) -> (r: Dec)
    requires
        a.wf(),
    ensures
        r.pair() == rounded_to_cents(a.pair()),
        r.wf(),
        a.scale <= 2 ==> r == a,
{
    let v = Decimal::from_i128_with_scale(a.mantissa, a.scale).round_dp(2);
    Dec { mantissa: v.mantissa(), scale: v.scale() }
}

/// Relies on `Decimal`'s `Display` with a precision of two (rust_decimal
/// `str.rs`, `to_str_internal`): the digits of the decimal cut, not
/// rounded, to two fractional places, padded with zeros.
#[verifier::external_body]
pub(crate) fn two_places(a: Dec) -> (r: Vec<char>)
    requires
        a.wf(),
    ensures
        r@ == two_place_text(a.pair()),
{
    let x = Decimal::from_i128_with_scale(a.mantissa, a.scale);
    format!("{:.2}", x).chars().collect()
}

} // verus!
