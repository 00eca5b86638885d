use loan_compare::calculator::{compare_lenders, custom_quote, quote_at_rate, LoanRequest, QuoteError};
use loan_compare::credit::adjust_rate_for_credit;
use loan_compare::decimal::Dec;
use loan_compare::lender::{minimum_required_score, Lender, LoanType, RateRange};
use loan_compare::money::{format_money, format_rate, quote_row};
use loan_compare::payment::{monthly_payment, power};
use rust_decimal::Decimal;
use std::str::FromStr;

fn dec(text: &str) -> Dec {
    let d = Decimal::from_str(text).unwrap();
    Dec::new(d.mantissa(), d.scale())
}

fn value(d: Dec) -> Decimal {
    Decimal::from_i128_with_scale(d.mantissa, d.scale)
}

fn range(min: &str, max: &str) -> RateRange {
    RateRange { min: dec(min), max: dec(max) }
}

fn lender(name: &str, min_score: u16) -> Lender {
    Lender {
        name: name.to_string(),
        home_loan_range: range("5.5", "6.5"),
        car_loan_range: range("4.0", "5.0"),
        personal_loan_range: range("8.0", "12.0"),
        min_credit_score: min_score,
    }
}

fn request(principal: &str, years: u32, score: u16) -> LoanRequest {
    LoanRequest { loan_type: LoanType::Home, principal: dec(principal), years, credit_score: score }
}

#[test]
fn power_to_zero_is_one() {
    let r = power(dec("3.75"), 0).unwrap();
    assert_eq!(value(r), Decimal::ONE);
}

#[test]
fn power_to_one_is_base() {
    let r = power(dec("1.005"), 1).unwrap();
    assert_eq!(value(r), Decimal::from_str("1.005").unwrap());
}

#[test]
fn power_of_one_stays_one() {
    let r = power(dec("1"), 360).unwrap();
    assert_eq!(value(r), Decimal::ONE);
}

#[test]
fn power_exact_values() {
    assert_eq!(value(power(dec("2"), 10).unwrap()), Decimal::from(1024));
    assert_eq!(value(power(dec("1.5"), 2).unwrap()), Decimal::from_str("2.25").unwrap());
    assert_eq!(value(power(dec("-3"), 3).unwrap()), Decimal::from(-27));
}

#[test]
fn power_overflow_is_none() {
    assert!(power(dec("10"), 40).is_none());
}

#[test]
fn thirty_year_fixed_payment() {
    let m = monthly_payment(dec("300000"), dec("6.0"), 30).unwrap();
    assert_eq!(format_money(m), "$1,798.65");
    assert_eq!(value(m).round_dp(2), Decimal::from_str("1798.65").unwrap());
}

#[test]
fn zero_rate_is_straight_line() {
    let m = monthly_payment(dec("12000"), dec("0"), 1).unwrap();
    assert_eq!(value(m), Decimal::from(1000));
    let m = monthly_payment(dec("360000"), dec("0.00"), 30).unwrap();
    assert_eq!(value(m), Decimal::from(1000));
}

#[test]
fn payments_are_positive() {
    for (p, r, t) in [("1000", "0", 1u32), ("25000", "4.5", 5), ("10000000", "99.9", 30), ("0.01", "1", 30)] {
        let m = monthly_payment(dec(p), dec(r), t).unwrap();
        assert!(value(m) > Decimal::ZERO, "{} {} {}", p, r, t);
    }
}

#[test]
fn interest_plus_principal_is_total() {
    for (p, r, t) in [("300000", "6.0", 30u32), ("25000", "4.75", 5), ("10000", "13.3", 3)] {
        let q = quote_at_rate("Bank".to_string(), dec(r), dec(p), t).unwrap();
        assert_eq!(value(q.total_interest) + value(dec(p)), value(q.total_payment));
        assert_eq!(value(q.total_payment), value(q.monthly_payment) * Decimal::from(t * 12));
    }
}

#[test]
fn rate_adjustment_bands() {
    let base = dec("6.00");
    let cases = [
        (850u16, "5.50"),
        (800, "5.50"),
        (799, "5.75"),
        (750, "5.75"),
        (749, "6.00"),
        (700, "6.00"),
        (699, "6.50"),
        (650, "6.50"),
        (649, "7.00"),
        (600, "7.00"),
        (599, "8.00"),
        (300, "8.00"),
    ];
    for (score, expected) in cases {
        let r = adjust_rate_for_credit(base, score).unwrap();
        assert_eq!(value(r), Decimal::from_str(expected).unwrap(), "score {}", score);
    }
}

#[test]
fn rate_adjustment_never_grows_with_score() {
    let base = dec("4.125");
    let mut last = value(adjust_rate_for_credit(base, 300).unwrap());
    for score in 301u16..=850 {
        let r = value(adjust_rate_for_credit(base, score).unwrap());
        assert!(r <= last, "score {}", score);
        last = r;
    }
}

#[test]
fn band_700_to_749_keeps_rate() {
    for score in 700u16..750 {
        assert_eq!(adjust_rate_for_credit(dec("3.3"), score), Some(dec("3.3")));
    }
}

#[test]
fn eligibility_and_base_rate() {
    let l = lender("A", 680);
    assert!(l.is_eligible(680));
    assert!(!l.is_eligible(679));
    assert_eq!(value(l.base_rate(&LoanType::Home).unwrap()), Decimal::from(6));
    assert_eq!(value(l.base_rate(&LoanType::Car).unwrap()), Decimal::from_str("4.5").unwrap());
    assert_eq!(value(l.base_rate(&LoanType::Personal).unwrap()), Decimal::from(10));
    assert_eq!(l.get_rate_range(&LoanType::Car), (dec("4.0"), dec("5.0")));
}

#[test]
fn comparison_keeps_eligible_lenders_in_order() {
    let lenders = vec![lender("A", 700), lender("B", 760), lender("C", 620), lender("D", 720)];
    let quotes = compare_lenders(&lenders, &request("300000", 30, 720)).unwrap();
    let names: Vec<&str> = quotes.iter().map(|q| q.lender.as_str()).collect();
    assert_eq!(names, vec!["A", "C", "D"]);
    for q in &quotes {
        assert_eq!(value(q.rate), Decimal::from(6));
        assert_eq!(format_money(q.monthly_payment), "$1,798.65");
    }
}

#[test]
fn no_qualifying_lender_reports_minimum() {
    let lenders = vec![lender("A", 700), lender("B", 660), lender("C", 690)];
    let r = compare_lenders(&lenders, &request("10000", 3, 650));
    assert_eq!(r.err(), Some(QuoteError::NoQualifyingLender { minimum_score: 660 }));
}

#[test]
fn no_lenders_reports_lowest_score() {
    let r = compare_lenders(&Vec::new(), &request("10000", 3, 650));
    assert_eq!(r.err(), Some(QuoteError::NoQualifyingLender { minimum_score: 300 }));
}

#[test]
fn minimum_required_score_values() {
    assert_eq!(minimum_required_score(&Vec::new()), 300);
    let lenders = vec![lender("A", 700), lender("B", 640), lender("C", 690)];
    assert_eq!(minimum_required_score(&lenders), 640);
}

#[test]
fn custom_rate_quote() {
    let q = custom_quote(dec("7.25"), dec("25000"), 5).unwrap();
    assert_eq!(q.lender, "Custom Rate");
    assert_eq!(value(q.rate), Decimal::from_str("7.25").unwrap());
    assert_eq!(format_money(q.monthly_payment), "$497.98");
    let row = quote_row(&q);
    assert_eq!(row[0], "Custom Rate");
    assert_eq!(row[1], "7.25%");
    assert_eq!(row[2], "$497.98");
}

#[test]
fn money_formatting() {
    assert_eq!(format_money(dec("1234567.5")), "$1,234,567.50");
    assert_eq!(format_money(dec("0")), "$0.00");
    assert_eq!(format_money(dec("999.999")), "$1,000.00");
    assert_eq!(format_money(dec("123")), "$123.00");
    assert_eq!(format_money(dec("1000")), "$1,000.00");
    assert_eq!(format_money(dec("12.345")), "$12.34");
}

#[test]
fn rate_formatting() {
    assert_eq!(format_rate(dec("6")), "6.00%");
    assert_eq!(format_rate(dec("5.75")), "5.75%");
}

#[test]
fn loan_type_constants() {
    assert_eq!(LoanType::Home.get_default_term(), 30);
    assert_eq!(LoanType::Car.get_default_term(), 5);
    assert_eq!(LoanType::Personal.get_default_term(), 3);
    assert_eq!(value(LoanType::Home.get_max_amount()), Decimal::from(10_000_000));
    assert_eq!(value(LoanType::Car.get_default_amount()), Decimal::from(25_000));
    assert!(LoanType::Personal.get_description().starts_with("Personal loans"));
}

#[test]
fn tiny_principal_payment_rounds_to_zero() {
    let m = monthly_payment(dec("0.0000000000000000000000000001"), dec("0"), 1).unwrap();
    assert_eq!(value(m), Decimal::ZERO);
}
