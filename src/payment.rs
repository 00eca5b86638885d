//! Binary exponentiation over decimals and the level monthly payment of a
//! fixed-rate loan.
use crate::decimal::{
    checked_add, checked_div, checked_mul, checked_sub, decimal_difference, decimal_product,
    decimal_quotient, decimal_sum, lemma_pow10_grows, opt_pair, pow10, same_value, Dec, DecPair,
};
use vstd::prelude::*;

verus! {

/// Square-and-multiply from accumulator `acc`: each set bit of `e`, lowest
/// first, multiplies `acc` by the current base, and the base is squared
/// while bits remain. Every product is rounded as `rust_decimal` rounds it.
pub open spec fn power_from(acc: DecPair, base: DecPair, e: nat) -> Option<DecPair>
    decreases e,
{
    if e == 0 {
        Some(acc)
    } else {
        let next = if e % 2 == 1 {
            decimal_product(acc, base)
        } else {
            Some(acc)
        };
        match next {
            None => None,
            Some(a) => if e / 2 == 0 {
                Some(a)
            } else {
                match decimal_product(base, base) {
                    None => None,
                    Some(b) => power_from(a, b, e / 2),
                }
            },
        }
    }
}

/// `base^e` by square-and-multiply, starting from 1.
pub open spec fn decimal_power(base: DecPair, e: nat) -> Option<DecPair> {
    power_from((1, 0), base, e)
}

/// The decimal is equal to one.
pub open spec fn is_one(a: DecPair) -> bool {
    a.0 == pow10(a.1)
}

/// Level monthly payment: with monthly rate `m = rate / 100 / 12` and
/// `g = (1 + m)^(12 years)`, it is `principal / (12 years)` when `g` is one,
/// and `principal * ((m * g) / (g - 1))` otherwise; `None` where a step
/// overflows or divides by zero.
pub open spec fn payment_of(principal: DecPair, rate: DecPair, years: nat) -> Option<DecPair> {
    let n = years * 12;
    match decimal_quotient(rate, (100, 0)) {
        None => None,
        Some(yearly) => match decimal_quotient(yearly, (12, 0)) {
            None => None,
            Some(m) => match decimal_sum((1, 0), m) {
                None => None,
                Some(step) => match decimal_power(step, n) {
                    None => None,
                    Some(g) => if is_one(g) {
                        decimal_quotient(principal, (n as int, 0))
                    } else {
                        match decimal_product(m, g) {
                            None => None,
                            Some(num) => match decimal_difference(g, (1, 0)) {
                                None => None,
                                Some(den) => match decimal_quotient(num, den) {
                                    None => None,
                                    Some(f) => decimal_product(principal, f),
                                },
                            },
                        }
                    },
                },
            },
        },
    }
}

/// `base^exp` by square-and-multiply; `None` where a product overflows.
/// Raising to zero gives one, raising to one gives `base`, and one raised
/// to any power stays one.
pub fn power(base: Dec, exp: u32) -> (r: Option<Dec>)
    requires
        base.wf(),
    ensures
        opt_pair(r) == decimal_power(base.pair(), exp as nat),
        r matches Some(v) ==> v.wf(),
        exp == 0 ==> r == Some(Dec { mantissa: 1, scale: 0 }),
        exp == 1 ==> (r matches Some(v) && same_value(v.pair(), base.pair())),
        base.pair() == (1int, 0nat) ==> r == Some(Dec { mantissa: 1, scale: 0 }),
{
    let mut result = Dec::one();
    let mut b = base;
    let mut e = exp;
    while e > 0
        invariant
            result.wf(),
            b.wf(),
            power_from(result.pair(), b.pair(), e as nat) == decimal_power(base.pair(), exp as nat),
            exp == 0 ==> e == 0 && result.pair() == (1int, 0nat),
            exp == 1 ==> (e == 1 && result.pair() == (1int, 0nat) && b == base) || (e == 0
                && same_value(result.pair(), base.pair())),
            base.pair() == (1int, 0nat) ==> result.pair() == (1int, 0nat) && b.pair() == (
                1int,
                0nat,
            ),
        decreases e,
    {
        if e % 2 == 1 {
            match checked_mul(result, b) {
                None => return None,
                Some(v) => {
                    proof {
                        if exp == 1 {
                            assert(result.mantissa == 1 && result.scale == 0);
                            if b.mantissa != 0 {
                                assert(result.mantissa * b.mantissa == b.mantissa);
                                assert(v.pair() == b.pair());
                            } else {
                                assert(v.pair() == (0int, 0nat));
                                let k = pow10(b.scale as nat);
                                assert(0 * k == 0) by (nonlinear_arith);
                            }
                            assert(same_value(v.pair(), base.pair()));
                        }
                    }
                    result = v;
                },
            }
        }
        e = e / 2;
        if e > 0 {
            match checked_mul(b, b) {
                None => return None,
                Some(v) => {
                    b = v;
                },
            }
        }
    }
    Some(result)
}

/// 10^s, for a scale a decimal can hold.
fn ten_to(s: u32) -> (r: i128)
    requires
        s <= 28,
    ensures
        r == pow10(s as nat),
{
    proof {
        reveal_with_fuel(pow10, 29);
        lemma_pow10_grows(s as nat, 28);
    }
    let mut r: i128 = 1;
    let mut i: u32 = 0;
    while i < s
        invariant
            i <= s <= 28,
            r == pow10(i as nat),
            pow10(s as nat) <= 10000000000000000000000000000,
        decreases s - i,
    {
        proof {
            lemma_pow10_grows((i + 1) as nat, s as nat);
        }
        r = r * 10;
        i = i + 1;
    }
    r
}

/// Level monthly payment of a loan of `principal` over `years` at
/// `annual_rate` percent a year; `None` where a step overflows. At a zero
/// rate it is the principal spread evenly over the months.
pub fn monthly_payment(principal: Dec, annual_rate: Dec, years: u32) -> (r: Option<Dec>)
    requires
        principal.wf(),
        annual_rate.wf(),
        years <= 30,
    ensures
        opt_pair(r) == payment_of(principal.pair(), annual_rate.pair(), years as nat),
        r matches Some(v) ==> v.wf(),
        annual_rate.mantissa == 0 ==> opt_pair(r) == decimal_quotient(
            principal.pair(),
            (12 * years, 0nat),
        ),
{
    let n: u32 = years * 12;
    let yearly = match checked_div(annual_rate, Dec::from_u32(100)) {
        None => return None,
        Some(v) => v,
    };
    let monthly = match checked_div(yearly, Dec::from_u32(12)) {
        None => return None,
        Some(v) => v,
    };
    let step = match checked_add(Dec::one(), monthly) {
        None => return None,
        Some(v) => v,
    };
    let growth = match power(step, n) {
        None => return None,
        Some(v) => v,
    };
    if growth.mantissa == ten_to(growth.scale) {
        return checked_div(principal, Dec::from_u32(n));
    }
    let numerator = match checked_mul(monthly, growth) {
        None => return None,
        Some(v) => v,
    };
    let denominator = match checked_sub(growth, Dec::one()) {
        None => return None,
        Some(v) => v,
    };
    match checked_div(numerator, denominator) {
        None => None,
        Some(f) => checked_mul(principal, f),
    }
}

} // verus!
