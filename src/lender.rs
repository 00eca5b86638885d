//! Loan categories, lenders with their rate ranges, and eligibility.
use crate::decimal::{checked_add, checked_div, decimal_quotient, decimal_sum, opt_pair, Dec, DecPair};
use vstd::prelude::*;

verus! {

/// Lowest valid credit score, reported when no lender sets a minimum.
pub const LOWEST_SCORE: u16 = 300;

#[derive(Clone, Copy, Debug, PartialEq, Eq, Structural)]
pub enum LoanType {
    Home,
    Car,
    Personal,
}

impl LoanType {
    /// Amount offered before the borrower enters one.
    pub fn get_default_amount(&self) -> (r: Dec)
        ensures
            r.wf(),
            r.pair() == match self {
                LoanType::Home => (300000int, 0nat),
                LoanType::Car => (25000int, 0nat),
                LoanType::Personal => (10000int, 0nat),
            },
    {
        match self {
            LoanType::Home => Dec::new(300000, 0),
            LoanType::Car => Dec::new(25000, 0),
            LoanType::Personal => Dec::new(10000, 0),
        }
    }

    /// Largest amount that may be borrowed.
    pub fn get_max_amount(&self) -> (r: Dec)
        ensures
            r.wf(),
            r.pair() == match self {
                LoanType::Home => (10000000int, 0nat),
                LoanType::Car => (150000int, 0nat),
                LoanType::Personal => (100000int, 0nat),
            },
    {
        match self {
            LoanType::Home => Dec::new(10000000, 0),
            LoanType::Car => Dec::new(150000, 0),
            LoanType::Personal => Dec::new(100000, 0),
        }
    }

    /// A line describing the usual range of amounts.
    pub fn get_description(&self) -> (r: &'static str)
        ensures
            r@ == match self {
                LoanType::Home => "Home loans typically range from $100,000 to $10,000,000"@,
                LoanType::Car => "Car loans typically range from $5,000 to $150,000"@,
                LoanType::Personal => "Personal loans typically range from $1,000 to $100,000"@,
            },
    {
        match self {
            LoanType::Home => "Home loans typically range from $100,000 to $10,000,000",
            LoanType::Car => "Car loans typically range from $5,000 to $150,000",
            LoanType::Personal => "Personal loans typically range from $1,000 to $100,000",
        }
    }

    /// Term in years offered before the borrower enters one.
    pub fn get_default_term(&self) -> (r: u32)
        ensures
            r == match self {
                LoanType::Home => 30u32,
                LoanType::Car => 5u32,
                LoanType::Personal => 3u32,
            },
    {
        match self {
            LoanType::Home => 30,
            LoanType::Car => 5,
            LoanType::Personal => 3,
        }
    }
}

/// Annual rates, in percent, that a lender quotes for one kind of loan.
#[derive(Clone, Copy, Debug, PartialEq, Eq, Structural)]
pub struct RateRange {
    pub min: Dec,
    pub max: Dec,
}

impl RateRange {
    pub open spec fn wf(self) -> bool {
        self.min.wf() && self.max.wf()
    }

    /// The two ends of the range.
    pub fn to_decimal_tuple(&self) -> (r: (Dec, Dec))
        ensures
            r == (self.min, self.max),
    {
        (self.min, self.max)
    }
}

/// Midpoint `(min + max) / 2` of a rate range.
pub open spec fn midpoint_of(range: RateRange) -> Option<DecPair> {
    match decimal_sum(range.min.pair(), range.max.pair()) {
        None => None,
        Some(s) => decimal_quotient(s, (2, 0)),
    }
}

#[derive(Clone, Debug)]
pub struct Lender {
    pub name: String,
    pub home_loan_range: RateRange,
    pub car_loan_range: RateRange,
    pub personal_loan_range: RateRange,
    pub min_credit_score: u16,
}

impl Lender {
    pub open spec fn wf(self) -> bool {
        self.home_loan_range.wf() && self.car_loan_range.wf() && self.personal_loan_range.wf()
    }

    pub open spec fn range_for(self, loan_type: LoanType) -> RateRange {
        match loan_type {
            LoanType::Home => self.home_loan_range,
            LoanType::Car => self.car_loan_range,
            LoanType::Personal => self.personal_loan_range,
        }
    }

    pub open spec fn accepts(self, credit_score: int) -> bool {
        credit_score >= self.min_credit_score
    }

    /// The rate range this lender quotes for a kind of loan.
    pub fn get_rate_range(&self, loan_type: &LoanType) -> (r: (Dec, Dec))
        ensures
            r == (self.range_for(*loan_type).min, self.range_for(*loan_type).max),
    {
        match loan_type {
            LoanType::Home => self.home_loan_range.to_decimal_tuple(),
            LoanType::Car => self.car_loan_range.to_decimal_tuple(),
            LoanType::Personal => self.personal_loan_range.to_decimal_tuple(),
        }
    }

    /// The borrower's score reaches this lender's minimum.
    pub fn is_eligible(&self, credit_score: u16) -> (r: bool)
        ensures
            r == self.accepts(credit_score as int),
    {
        credit_score >= self.min_credit_score
    }

    /// Midpoint of this lender's range for a kind of loan; `None` only where
    /// the arithmetic overflows.
    pub fn base_rate(&self, loan_type: &LoanType) -> (r: Option<Dec>)
        requires
            self.wf(),
        ensures
            opt_pair(r) == midpoint_of(self.range_for(*loan_type)),
            r matches Some(v) ==> v.wf(),
    {
        let (min, max) = self.get_rate_range(loan_type);
        match checked_add(min, max) {
            None => None,
            Some(s) => checked_div(s, Dec::from_u32(2)),
        }
    }
}

/// Lowest minimum credit score over the lenders, or the lowest valid score
/// when there are none.
pub fn minimum_required_score(lenders: &Vec<Lender>) -> (r: u16)
    ensures
        lenders@.len() == 0 ==> r == LOWEST_SCORE,
        lenders@.len() > 0 ==> exists|i: int|
            0 <= i < lenders@.len() && lenders@[i].min_credit_score == r,
        forall|i: int| 0 <= i < lenders@.len() ==> r <= lenders@[i].min_credit_score,
{
    if lenders.len() == 0 {
        return LOWEST_SCORE;
    }
    let mut best: u16 = lenders[0].min_credit_score;
    let mut i: usize = 1;
    while i < lenders.len()
        invariant
            1 <= i <= lenders@.len(),
            exists|j: int| 0 <= j < i && lenders@[j].min_credit_score == best,
            forall|j: int| 0 <= j < i ==> best <= lenders@[j].min_credit_score,
        decreases lenders@.len() - i,
    {
        if lenders[i].min_credit_score < best {
            best = lenders[i].min_credit_score;
        }
        i = i + 1;
    }
    best
}

} // verus!
