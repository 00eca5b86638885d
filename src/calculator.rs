//! Quotes from every lender that accepts the borrower, and at a custom rate.
use crate::credit::{adjust_rate_for_credit, adjusted_rate};
use crate::decimal::{
    aligned, aligned_fits, checked_mul, checked_sub, common_scale, decimal_difference,
    decimal_product, lemma_pow10_add, opt_pair, pow10, Dec, DecPair,
};
use crate::lender::{midpoint_of, minimum_required_score, LoanType, Lender};
use crate::payment::{monthly_payment, payment_of};
use vstd::prelude::*;
use vstd::string::*;

verus! {

/// A validated request: amount, term in years and the borrower's score.
#[derive(Clone, Copy, Debug, PartialEq, Eq, Structural)]
pub struct LoanRequest {
    pub loan_type: LoanType,
    pub principal: Dec,
    pub years: u32,
    pub credit_score: u16,
}

impl LoanRequest {
    pub open spec fn wf(self) -> bool {
        self.principal.wf() && self.years <= 30
    }
}

/// One row of the comparison: who offers it, at what annual rate, and what
/// the loan costs.
#[derive(Clone, Debug)]
pub struct Quote {
    pub lender: String,
    pub rate: Dec,
    pub monthly_payment: Dec,
    pub total_interest: Dec,
    pub total_payment: Dec,
}

#[derive(Clone, Copy, Debug, PartialEq, Eq, Structural)]
pub enum QuoteError {
    /// No lender accepts the borrower's score; the lowest minimum among the
    /// lenders (or the lowest valid score, with no lenders) is reported.
    NoQualifyingLender { minimum_score: u16 },
    /// The decimal arithmetic overflowed for some lender.
    Overflow,
}

/// `a + b == c` as exact numbers.
pub open spec fn adds_up(a: DecPair, b: DecPair, c: DecPair) -> bool {
    a.0 * pow10(b.1 + c.1) + b.0 * pow10(a.1 + c.1) == c.0 * pow10(a.1 + b.1)
}

/// Total paid over `years` of a monthly payment, and the interest in it.
pub open spec fn totals_of(monthly: DecPair, principal: DecPair, years: nat) -> Option<
    (DecPair, DecPair),
> {
    match decimal_product(monthly, ((years * 12) as int, 0)) {
        None => None,
        Some(total) => match decimal_difference(total, principal) {
            None => None,
            Some(interest) => Some((total, interest)),
        },
    }
}

/// The loan can be priced at `rate` without overflow.
pub open spec fn priced(rate: DecPair, principal: DecPair, years: nat) -> bool {
    match payment_of(principal, rate, years) {
        None => false,
        Some(m) => totals_of(m, principal, years) is Some,
    }
}

/// `q` is the quote named `name` for the loan at `rate`; when nothing is
/// rounded away in the subtraction, interest plus principal is exactly the
/// total paid.
pub open spec fn quote_holds(
    q: Quote,
    name: Seq<char>,
    rate: DecPair,
    principal: DecPair,
    years: nat,
) -> bool {
    &&& q.lender@ == name
    &&& q.rate.pair() == rate
    &&& payment_of(principal, rate, years) == Some(q.monthly_payment.pair())
    &&& totals_of(q.monthly_payment.pair(), principal, years) == Some(
        (q.total_payment.pair(), q.total_interest.pair()),
    )
    &&& aligned_fits(q.total_payment.pair(), principal, -1) ==> adds_up(
        q.total_interest.pair(),
        principal,
        q.total_payment.pair(),
    )
}

/// Rate a lender offers the borrower: the midpoint of its range for the
/// kind of loan, adjusted for the credit score.
pub open spec fn lender_rate(l: Lender, req: LoanRequest) -> Option<DecPair> {
    match midpoint_of(l.range_for(req.loan_type)) {
        None => None,
        Some(mid) => adjusted_rate(mid, req.credit_score as int),
    }
}

pub open spec fn lender_priced(l: Lender, req: LoanRequest) -> bool {
    match lender_rate(l, req) {
        None => false,
        Some(rate) => priced(rate, req.principal.pair(), req.years as nat),
    }
}

pub open spec fn lender_quote_holds(q: Quote, l: Lender, req: LoanRequest) -> bool {
    match lender_rate(l, req) {
        None => false,
        Some(rate) => quote_holds(q, l.name@, rate, req.principal.pair(), req.years as nat),
    }
}

/// The lenders that accept `score`, in their given order.
pub open spec fn eligible(ls: Seq<Lender>, score: int) -> Seq<Lender>
    decreases ls.len(),
{
    if ls.len() == 0 {
        seq![]
    } else {
        let rest = eligible(ls.drop_last(), score);
        if ls.last().accepts(score) {
            rest.push(ls.last())
        } else {
            rest
        }
    }
}

/// The eligible lenders are exactly the lenders whose minimum the score
/// reaches; when the score is below every minimum, none is eligible.
pub proof fn lemma_eligible_members(ls: Seq<Lender>, score: int)
    ensures
        forall|l: Lender| #[trigger]
            eligible(ls, score).contains(l) <==> ls.contains(l) && l.accepts(score),
        (forall|i: int| 0 <= i < ls.len() ==> !ls[i].accepts(score)) ==> eligible(ls, score).len()
            == 0,
    decreases ls.len(),
{
    if ls.len() > 0 {
        let init = ls.drop_last();
        lemma_eligible_members(init, score);
        assert(ls =~= init.push(ls.last()));
        let e = eligible(init, score);
        assert forall|l: Lender| #[trigger]
            eligible(ls, score).contains(l) <==> ls.contains(l) && l.accepts(score) by {
            assert(ls.contains(l) <==> init.contains(l) || l == ls.last()) by {
                if ls.contains(l) {
                    let k = choose|k: int| 0 <= k < ls.len() && ls[k] == l;
                    if k < ls.len() - 1 {
                        assert(init[k] == l);
                    }
                }
                if init.contains(l) {
                    let k = choose|k: int| 0 <= k < init.len() && init[k] == l;
                    assert(ls[k] == l);
                }
                if l == ls.last() {
                    assert(ls[ls.len() - 1] == l);
                }
            }
            assert(e.push(ls.last()).contains(l) <==> e.contains(l) || l == ls.last()) by {
                let ep = e.push(ls.last());
                if ep.contains(l) {
                    let k = choose|k: int| 0 <= k < ep.len() && ep[k] == l;
                    if k < e.len() {
                        assert(e[k] == l);
                    }
                }
                if e.contains(l) {
                    let k = choose|k: int| 0 <= k < e.len() && e[k] == l;
                    assert(ep[k] == l);
                }
                if l == ls.last() {
                    assert(ep[e.len() as int] == l);
                }
            }
        }
        if forall|i: int| 0 <= i < ls.len() ==> !ls[i].accepts(score) {
            assert(!ls[ls.len() - 1].accepts(score));
            assert forall|i: int| 0 <= i < init.len() implies !init[i].accepts(score) by {
                assert(init[i] == ls[i]);
            }
        }
    }
}

/// Exact subtraction gives back the first operand when the second is added.
proof fn lemma_difference_adds_up(t: DecPair, p: DecPair)
    requires
        t.1 <= 28,
        p.1 <= 28,
    ensures
        ({
            let s = common_scale(t, p);
            adds_up((aligned(t, s) - aligned(p, s), s), p, t)
        }),
{
    let s = common_scale(t, p);
    let ta = (s - t.1) as nat;
    let pa = (s - p.1) as nat;
    lemma_pow10_add(ta, p.1 + t.1);
    lemma_pow10_add(pa, p.1 + t.1);
    assert(ta + (p.1 + t.1) == s + p.1);
    assert(pa + (p.1 + t.1) == s + t.1);
    let x = pow10(ta);
    let y = pow10(pa);
    let z = pow10(p.1 + t.1);
    assert((t.0 * x - p.0 * y) * z == t.0 * (x * z) - p.0 * (y * z)) by (nonlinear_arith);
}

/// Prices the loan at `rate` under the name `lender`; `None` only where the
/// arithmetic overflows. When nothing is rounded away, the interest plus
/// the principal is exactly the total paid.
pub fn quote_at_rate(lender: String, rate: Dec, principal: Dec, years: u32) -> (r: Option<Quote>)
    requires
        rate.wf(),
        principal.wf(),
        years <= 30,
    ensures
        r is Some <==> priced(rate.pair(), principal.pair(), years as nat),
        r matches Some(q) ==> quote_holds(q, lender@, rate.pair(), principal.pair(), years as nat),
        r matches Some(q) ==> q.total_interest.wf() && q.total_payment.wf()
            && q.monthly_payment.wf(),
        r matches Some(q) ==> (aligned_fits(q.total_payment.pair(), principal.pair(), -1)
            ==> adds_up(q.total_interest.pair(), principal.pair(), q.total_payment.pair())),
{
    let monthly = match monthly_payment(principal, rate, years) {
        None => return None,
        Some(v) => v,
    };
    let total = match checked_mul(monthly, Dec::from_u32(years * 12)) {
        None => return None,
        Some(v) => v,
    };
    let interest = match checked_sub(total, principal) {
        None => return None,
        Some(v) => v,
    };
    proof {
        let t = total.pair();
        let p = principal.pair();
        if aligned_fits(t, p, -1) {
            if t.0 == 0 {
                let z = pow10(p.1 + t.1);
                assert(-p.0 * z + p.0 * z == 0 * pow10(p.1 + p.1)) by (nonlinear_arith);
            } else if p.0 == 0 {
                assert(t.0 * pow10(p.1 + t.1) + 0 * pow10(t.1 + t.1) == t.0 * pow10(t.1 + p.1))
                    by (nonlinear_arith);
            } else {
                lemma_difference_adds_up(t, p);
            }
        }
    }
    Some(
        Quote {
            lender,
            rate,
            monthly_payment: monthly,
            total_interest: interest,
            total_payment: total,
        },
    )
}

/// The loan priced at a rate the borrower gives, with no credit adjustment,
/// under the name "Custom Rate".
pub fn custom_quote(rate: Dec, principal: Dec, years: u32) -> (r: Option<Quote>)
    requires
        rate.wf(),
        principal.wf(),
        years <= 30,
    ensures
        r is Some <==> priced(rate.pair(), principal.pair(), years as nat),
        r matches Some(q) ==> quote_holds(
            q,
            "Custom Rate"@,
            rate.pair(),
            principal.pair(),
            years as nat,
        ),
{
    let label = String::from_str("Custom Rate");
    quote_at_rate(label, rate, principal, years)
}

/// The quote a lender gives the borrower; `None` only where the arithmetic
/// overflows.
pub fn quote_for_lender(lender: &Lender, req: &LoanRequest) -> (r: Option<Quote>)
    requires
        lender.wf(),
        req.wf(),
    ensures
        r is Some <==> lender_priced(*lender, *req),
        r matches Some(q) ==> lender_quote_holds(q, *lender, *req),
{
    let base = match lender.base_rate(&req.loan_type) {
        None => return None,
        Some(v) => v,
    };
    let rate = match adjust_rate_for_credit(base, req.credit_score) {
        None => return None,
        Some(v) => v,
    };
    quote_at_rate(lender.name.clone(), rate, req.principal, req.years)
}

/// Quotes from the lenders that accept the borrower's score, in the
/// lenders' order. When none accepts it, the lowest minimum score among the
/// lenders is reported instead.
pub fn compare_lenders(lenders: &Vec<Lender>, req: &LoanRequest) -> (r: Result<
    Vec<Quote>,
    QuoteError,
>)
    requires
        forall|i: int| 0 <= i < lenders@.len() ==> #[trigger] lenders@[i].wf(),
        req.wf(),
    ensures
        eligible(lenders@, req.credit_score as int).len() == 0 <==> r is Err && r->Err_0
            is NoQualifyingLender,
        r matches Ok(qs) ==> qs@.len() == eligible(lenders@, req.credit_score as int).len() && (
        forall|k: int|
            0 <= k < qs@.len() ==> #[trigger] lender_quote_holds(
                qs@[k],
                eligible(lenders@, req.credit_score as int)[k],
                *req,
            )),
        r matches Err(QuoteError::NoQualifyingLender { minimum_score }) ==> (lenders@.len() == 0
            ==> minimum_score == 300) && (lenders@.len() > 0 ==> exists|i: int|
            0 <= i < lenders@.len() && lenders@[i].min_credit_score == minimum_score) && (forall|
            i: int,
        |
            0 <= i < lenders@.len() ==> minimum_score <= lenders@[i].min_credit_score),
        r == Err::<Vec<Quote>, QuoteError>(QuoteError::Overflow) <==> exists|i: int|
            0 <= i < lenders@.len() && lenders@[i].accepts(req.credit_score as int)
                && !lender_priced(lenders@[i], *req),
{
    let ghost score = req.credit_score as int;
    let mut quotes: Vec<Quote> = Vec::new();
    let mut i: usize = 0;
    while i < lenders.len()
        invariant
            i <= lenders@.len(),
            forall|j: int| 0 <= j < lenders@.len() ==> #[trigger] lenders@[j].wf(),
            req.wf(),
            score == req.credit_score as int,
            quotes@.len() == eligible(lenders@.subrange(0, i as int), score).len(),
            forall|k: int|
                0 <= k < quotes@.len() ==> #[trigger] lender_quote_holds(
                    quotes@[k],
                    eligible(lenders@.subrange(0, i as int), score)[k],
                    *req,
                ),
            forall|j: int|
                0 <= j < i && lenders@[j].accepts(score) ==> lender_priced(
                    #[trigger] lenders@[j],
                    *req,
                ),
        decreases lenders@.len() - i,
    {
        let ghost before = lenders@.subrange(0, i as int);
        assert(lenders@.subrange(0, i + 1).drop_last() =~= before);
        let lender = &lenders[i];
        if lender.is_eligible(req.credit_score) {
            match quote_for_lender(lender, req) {
                None => {
                    proof {
                        lemma_eligible_members(lenders@, score);
                        assert(lenders@.contains(lenders@[i as int]));
                        assert(eligible(lenders@, score).contains(lenders@[i as int]));
                    }
                    return Err(QuoteError::Overflow);
                },
                Some(q) => {
                    quotes.push(q);
                },
            }
        }
        i = i + 1;
    }
    assert(lenders@.subrange(0, lenders@.len() as int) =~= lenders@);
    if quotes.len() == 0 {
        Err(QuoteError::NoQualifyingLender { minimum_score: minimum_required_score(lenders) })
    } else {
        Ok(quotes)
    }
}

} // verus!
