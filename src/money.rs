//! Currency text: two fractional digits, commas between thousands, and a
//! dollar sign in front.
use crate::decimal::{rounded_to_cents, round_to_cents, two_place_text, two_places, Dec};
use crate::calculator::Quote;
use vstd::prelude::*;

verus! {

/// Index of the first '.' in `s`, or its length when there is none.
pub open spec fn point_index(s: Seq<char>) -> int
    decreases s.len(),
{
    if s.len() == 0 {
        0
    } else {
        let p = point_index(s.drop_last());
        if p < s.len() - 1 {
            p
        } else if s.last() == '.' {
            s.len() - 1
        } else {
            s.len() as int
        }
    }
}

/// `s` with a ',' before each group of three characters counted from the
/// right, none at the very front.
pub open spec fn grouped(s: Seq<char>) -> Seq<char>
    decreases s.len(),
{
    if s.len() > 3 {
        grouped(s.subrange(0, s.len() - 3)).push(',') + s.subrange(s.len() - 3, s.len() as int)
    } else {
        s
    }
}

/// Commas grouping the digits before the decimal point; the rest unchanged.
pub open spec fn with_separators(s: Seq<char>) -> Seq<char> {
    grouped(s.take(point_index(s))) + s.skip(point_index(s))
}

/// Money text of a decimal: '$' before the two-place form, with
/// separators, of the decimal rounded to cents.
pub open spec fn money_text(a: Dec) -> Seq<char> {
    seq!['$'] + with_separators(two_place_text(rounded_to_cents(a.pair())))
}

proof fn lemma_point_index_extends(s: Seq<char>, k: int)
    requires
        0 <= k <= s.len(),
        point_index(s.take(k)) < k,
    ensures
        point_index(s) == point_index(s.take(k)),
    decreases s.len(),
{
    if s.len() == k {
        assert(s.take(k) =~= s);
    } else {
        assert(s.drop_last().take(k) =~= s.take(k));
        lemma_point_index_extends(s.drop_last(), k);
    }
}

/// Relies on `String`'s `FromIterator<char>`: the characters in order.
#[verifier::external_body]
fn text_from_chars(v: &Vec<char>) -> (r: String)
    ensures
        r@ == v@,
{
    v.iter().collect()
}

/// Index of the first '.' in `v`, or its length.
fn find_point(v: &Vec<char>) -> (r: usize)
    ensures
        r == point_index(v@),
{
    let mut i: usize = 0;
    while i < v.len()
        invariant
            i <= v@.len(),
            point_index(v@.take(i as int)) == i,
        decreases v@.len() - i,
    {
        assert(v@.take(i + 1).drop_last() =~= v@.take(i as int));
        if v[i] == '.' {
            proof {
                lemma_point_index_extends(v@, i + 1);
            }
            return i;
        }
        i = i + 1;
    }
    assert(v@.take(i as int) =~= v@);
    i
}

/// The amount rounded to two fractional digits, thousands separated by
/// commas and a '$' in front: 1234567.5 gives "$1,234,567.50".
pub fn format_money(amount: Dec) -> (r: String)
    requires
        amount.wf(),
    ensures
        r@ == money_text(amount),
{
    let cents = round_to_cents(amount);
    let mut text = two_places(cents);
    let ghost target = with_separators(text@);
    let point = find_point(&text);
    let mut pos = point;
    assert(text@.take(pos as int) + text@.skip(pos as int) =~= text@);
    while pos > 3
        invariant
            pos <= text@.len(),
            grouped(text@.take(pos as int)) + text@.skip(pos as int) == target,
        decreases pos,
    {
        let ghost before = text@;
        pos = pos - 3;
        text.insert(pos, ',');
        assert(before.take(pos + 3).subrange(0, pos as int) =~= text@.take(pos as int));
        assert(grouped(text@.take(pos as int)) + text@.skip(pos as int) =~= grouped(
            before.take(pos + 3).subrange(0, pos as int),
        ).push(',') + before.take(pos + 3).subrange(pos as int, pos + 3) + before.skip(pos + 3));
    }
    assert(grouped(text@.take(pos as int)) == text@.take(pos as int));
    assert(text@.take(pos as int) + text@.skip(pos as int) =~= text@);
    text.insert(0, '$');
    assert(text@ =~= seq!['$'] + target);
    text_from_chars(&text)
}

/// Text of an annual rate: its two-place form followed by '%'.
pub open spec fn rate_text(a: Dec) -> Seq<char> {
    two_place_text(a.pair()).push('%')
}

/// An annual rate as text, such as "6.25%".
pub fn format_rate(rate: Dec) -> (r: String)
    requires
        rate.wf(),
    ensures
        r@ == rate_text(rate),
{
    let mut text = two_places(rate);
    text.push('%');
    text_from_chars(&text)
}

/// The cells of a quote's row: lender, rate, monthly payment, total
/// interest and total payment.
pub fn quote_row(q: &Quote) -> (r: Vec<String>)
    requires
        q.rate.wf(),
        q.monthly_payment.wf(),
        q.total_interest.wf(),
        q.total_payment.wf(),
    ensures
        r@.len() == 5,
        r@[0]@ == q.lender@,
        r@[1]@ == rate_text(q.rate),
        r@[2]@ == money_text(q.monthly_payment),
        r@[3]@ == money_text(q.total_interest),
        r@[4]@ == money_text(q.total_payment),
{
    let mut row: Vec<String> = Vec::new();
    row.push(q.lender.clone());
    row.push(format_rate(q.rate));
    row.push(format_money(q.monthly_payment));
    row.push(format_money(q.total_interest));
    row.push(format_money(q.total_payment));
    row
}

} // verus!
