//! Credit-score bands and the rate adjustment each one carries.
use crate::decimal::{
    aligned, aligned_fits, checked_add, checked_sub, common_scale, decimal_difference, decimal_sum,
    lemma_pow10_add, lemma_pow10_grows, opt_pair, pow10, Dec, DecPair,
};
use vstd::prelude::*;

verus! {

/// Change to the annual rate, in hundredths of a percentage point, for a
/// credit score: the first band whose lower bound the score reaches.
pub open spec fn adjustment_hundredths(score: int) -> int {
    if score >= 800 {
        -50
    } else if score >= 750 {
        -25
    } else if score >= 700 {
        0
    } else if score >= 650 {
        50
    } else if score >= 600 {
        100
    } else {
        200
    }
}

/// Size of the band's adjustment, as a decimal.
pub open spec fn band_delta(score: int) -> DecPair {
    if score >= 800 {
        (5, 1)
    } else if score >= 750 {
        (25, 2)
    } else if score >= 700 {
        (0, 0)
    } else if score >= 650 {
        (5, 1)
    } else if score >= 600 {
        (10, 1)
    } else {
        (20, 1)
    }
}

/// Direction of the band's adjustment: down for the two top bands.
pub open spec fn band_sign(score: int) -> int {
    if score >= 750 {
        -1
    } else {
        1
    }
}

/// `r` is `base` moved by `h` hundredths, as exact numbers.
pub open spec fn shifted(base: DecPair, r: DecPair, h: int) -> bool {
    r.0 * 100 * pow10(base.1) == (base.0 * 100 + h * pow10(base.1)) * pow10(r.1)
}

/// Adding `sign * dm / 10^ds` to `base` exactly moves it by that many
/// hundredths, whether `base` is zero or the sum is taken at the larger scale.
proof fn lemma_shift(base: DecPair, dm: int, ds: nat, sign: int)
    requires
        1 <= ds <= 2,
        sign == 1 || sign == -1,
    ensures
        ({
            let s = common_scale(base, (dm, ds));
            shifted(
                base,
                (aligned(base, s) + sign * aligned((dm, ds), s), s),
                sign * dm * pow10((2 - ds) as nat),
            )
        }),
        base.0 == 0 ==> shifted(base, (sign * dm, ds), sign * dm * pow10((2 - ds) as nat)),
{
    let s = common_scale(base, (dm, ds));
    let b = base.1;
    let u = pow10((s - b) as nat);
    let v = pow10((s - ds) as nat);
    let w = pow10((2 - ds) as nat);
    let pb = pow10(b);
    let ps = pow10(s);
    lemma_pow10_add((s - b) as nat, b);
    lemma_pow10_add((s - ds) as nat, 2);
    lemma_pow10_add((2 - ds) as nat, ds);
    lemma_pow10_add((2 - ds) as nat, s);
    lemma_pow10_add(ds, (s - ds) as nat);
    reveal_with_fuel(pow10, 3);
    assert(u * pb == ps);
    assert(v * 100 == w * ps) by {
        assert(v * pow10(2) == pow10((s + 2 - ds) as nat));
        assert(w * ps == pow10((s + 2 - ds) as nat));
    }
    assert(w * pow10(ds) == 100);
    let x = sign * dm;
    let m = base.0;
    assert(sign * (dm * v) == x * v) by (nonlinear_arith)
        requires
            x == sign * dm,
    ;
    assert(sign * dm * w * pb == x * w * pb) by (nonlinear_arith)
        requires
            x == sign * dm,
    ;
    assert((m * u + x * v) * 100 * pb == m * (u * pb) * 100 + x * (v * 100) * pb)
        by (nonlinear_arith);
    assert(x * (w * ps) * pb == x * w * pb * ps) by (nonlinear_arith);
    assert((m * 100 + x * w * pb) * ps == m * 100 * ps + x * w * pb * ps) by (nonlinear_arith);
    assert(m * ps * 100 == m * 100 * ps) by (nonlinear_arith);
    if base.0 == 0 {
        assert(sign * dm * 100 * pb == (0 * 100 + sign * dm * w * pb) * pow10(ds))
            by (nonlinear_arith)
            requires
                w * pow10(ds) == 100,
        ;
    }
}

/// The adjusted rate: the base less 0.5 or 0.25 for the two top bands,
/// unchanged for 700 to 749, plus 0.5, 1.0 or 2.0 for the lower bands.
pub open spec fn adjusted_rate(base: DecPair, score: int) -> Option<DecPair> {
    if score >= 800 {
        decimal_difference(base, (5, 1))
    } else if score >= 750 {
        decimal_difference(base, (25, 2))
    } else if score >= 700 {
        Some(base)
    } else if score >= 650 {
        decimal_sum(base, (5, 1))
    } else if score >= 600 {
        decimal_sum(base, (10, 1))
    } else {
        decimal_sum(base, (20, 1))
    }
}

/// A higher credit score never carries a larger adjustment: 800 and up gets
/// the largest discount, below 600 the largest surcharge.
pub proof fn lemma_adjustment_non_increasing(low: int, high: int)
    requires
        low <= high,
    ensures
        adjustment_hundredths(high) <= adjustment_hundredths(low),
        adjustment_hundredths(high) >= -50,
        adjustment_hundredths(low) <= 200,
{
}

/// Of two exact adjustments of one base rate, the one for the higher
/// credit score is no larger.
pub proof fn lemma_adjusted_rate_non_increasing(
    base: DecPair,
    low: int,
    high: int,
    r_low: DecPair,
    r_high: DecPair,
)
    requires
        low <= high,
        shifted(base, r_low, adjustment_hundredths(low)),
        shifted(base, r_high, adjustment_hundredths(high)),
    ensures
        r_high.0 * pow10(r_low.1) <= r_low.0 * pow10(r_high.1),
{
    lemma_adjustment_non_increasing(low, high);
    lemma_pow10_grows(0, base.1);
    lemma_pow10_grows(0, r_low.1);
    lemma_pow10_grows(0, r_high.1);
    let pb = pow10(base.1);
    let pl = pow10(r_low.1);
    let ph = pow10(r_high.1);
    let hl = adjustment_hundredths(low);
    let hh = adjustment_hundredths(high);
    let k = 100 * pb;
    assert(r_low.0 * k == (base.0 * 100 + hl * pb) * pl) by (nonlinear_arith)
        requires
            r_low.0 * 100 * pb == (base.0 * 100 + hl * pb) * pl,
            k == 100 * pb,
    ;
    assert(r_high.0 * k == (base.0 * 100 + hh * pb) * ph) by (nonlinear_arith)
        requires
            r_high.0 * 100 * pb == (base.0 * 100 + hh * pb) * ph,
            k == 100 * pb,
    ;
    assert((base.0 * 100 + hh * pb) * ph * pl <= (base.0 * 100 + hl * pb) * pl * ph)
        by (nonlinear_arith)
        requires
            hh <= hl,
            pb > 0,
            pl > 0,
            ph > 0,
    ;
    assert(r_high.0 * pl * k <= r_low.0 * ph * k) by (nonlinear_arith)
        requires
            r_low.0 * k == (base.0 * 100 + hl * pb) * pl,
            r_high.0 * k == (base.0 * 100 + hh * pb) * ph,
            (base.0 * 100 + hh * pb) * ph * pl <= (base.0 * 100 + hl * pb) * pl * ph,
    ;
    assert(r_high.0 * pl <= r_low.0 * ph) by (nonlinear_arith)
        requires
            r_high.0 * pl * k <= r_low.0 * ph * k,
            k > 0,
    ;
}

/// The base rate adjusted for a credit score; `None` only where the
/// arithmetic overflows. Scores from 700 to 749 leave the rate as it is.
pub fn adjust_rate_for_credit(base_rate: Dec, credit_score: u16) -> (r: Option<Dec>)
    requires
        base_rate.wf(),
    ensures
        opt_pair(r) == adjusted_rate(base_rate.pair(), credit_score as int),
        r matches Some(v) ==> v.wf(),
        700 <= credit_score < 750 ==> r == Some(base_rate),
        !(700 <= credit_score < 750) && aligned_fits(
            base_rate.pair(),
            band_delta(credit_score as int),
            band_sign(credit_score as int),
        ) ==> (r matches Some(v) && shifted(
            base_rate.pair(),
            v.pair(),
            adjustment_hundredths(credit_score as int),
        )),
{
    let ghost b = base_rate.pair();
    let ghost score = credit_score as int;
    proof {
        reveal_with_fuel(pow10, 3);
    }
    if credit_score >= 800 {
        proof {
            lemma_shift(b, 5, 1, -1);
        }
        checked_sub(base_rate, Dec::new(5, 1))
    } else if credit_score >= 750 {
        proof {
            lemma_shift(b, 25, 2, -1);
        }
        checked_sub(base_rate, Dec::new(25, 2))
    } else if credit_score >= 700 {
        Some(base_rate)
    } else if credit_score >= 650 {
        proof {
            lemma_shift(b, 5, 1, 1);
        }
        checked_add(base_rate, Dec::new(5, 1))
    } else if credit_score >= 600 {
        proof {
            lemma_shift(b, 10, 1, 1);
        }
        checked_add(base_rate, Dec::new(10, 1))
    } else {
        proof {
            lemma_shift(b, 20, 1, 1);
        }
        checked_add(base_rate, Dec::new(20, 1))
    }
}

} // verus!
