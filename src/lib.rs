//! Loan comparison: fixed-rate amortization over exact decimals, credit-score
//! rate adjustment and lender eligibility.
pub mod decimal;
pub mod payment;
pub mod credit;
pub mod lender;
pub mod calculator;
pub mod money;
