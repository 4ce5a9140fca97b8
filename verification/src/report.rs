//! From a filter and a statement to the line that reports the total.

use crate::aggregate::{matching_total, sum_matches};
use crate::amount::{
    all_digits, amount_cents, digit_value, digits_value, is_digit, lemma_two_digits,
};
use crate::extract::{extraction, parse, Failure, ParseError, PRICE_RE};
use crate::pattern::{compile, compiled};
use crate::text::{lines, string_of};
use vstd::prelude::*;

verus! {

/// Why no total could be given.
#[derive(Debug, Clone, PartialEq, Eq)]
pub enum RunError {
    /// The filter is not a regular expression; `cause` is the engine's
    /// account of it.
    Filter { pattern: String, cause: String },
    /// The statement could not be read.
    Statement(ParseError),
}

/// The character that stands for the digit `d`.
pub open spec fn digit_char(d: nat) -> char
    recommends
        d < 10,
{
    ((d + 48) as u8) as char
}

/// `n` in base ten, without leading zeros; `0` for zero.
pub open spec fn decimal(n: nat) -> Seq<char>
    decreases n,
{
    if n < 10 {
        seq![digit_char(n)]
    } else {
        decimal(n / 10).push(digit_char(n % 10))
    }
}

/// An amount of `cents` written in dollars, with a point and two decimals.
pub open spec fn written(cents: nat) -> Seq<char> {
    decimal(cents / 100) + seq!['.', digit_char(cents % 100 / 10), digit_char(cents % 10)]
}

/// The line that reports `cents` as the total for the filter `pattern`.
pub open spec fn report(pattern: Seq<char>, cents: nat) -> Seq<char> {
    "The price for all matches of "@ + pattern + " is: "@ + written(cents)
}

/// What [`total_for`] comes to, where `filter` is what the engine made of
/// the filter and `price` what it made of the amount pattern: the filter
/// is looked at first, then the statement.
pub open spec fn run_outcome(
    filter: Option<regex::Regex>,
    price: Option<regex::Regex>,
    contents: Seq<char>,
) -> Result<nat, Option<Failure>> {
    match filter {
        None => Err(None),
        Some(filter) => match price {
            None => Err(Some(Failure::Pattern)),
            Some(price) => match extraction(lines(contents), price) {
                Ok(entries) => Ok(matching_total(entries, filter)),
                Err(f) => Err(Some(f)),
            },
        },
    }
}

/// What the outcome of a run holds: the total, or the failure of the
/// statement, or `None` for a filter that is no regular expression.
pub open spec fn run_view(r: Result<u128, RunError>) -> Result<nat, Option<Failure>> {
    match r {
        Ok(total) => Ok(total as nat),
        Err(RunError::Filter { .. }) => Err(None),
        Err(RunError::Statement(e)) => Err(Some(e@)),
    }
}

/// A number written in base ten is a run of digits that stands for the
/// number.
pub proof fn lemma_decimal_reads_back(n: nat)
    ensures
        decimal(n).len() >= 1,
        all_digits(decimal(n)),
        digits_value(decimal(n)) == n,
    decreases n,
{
    let d = digit_char(n % 10);
    if n < 10 {
        assert(digits_value(seq![d].drop_last()) == 0);
    } else {
        lemma_decimal_reads_back(n / 10);
        assert(decimal(n / 10).push(d).drop_last() == decimal(n / 10));
    }
}

/// An amount that is written out and read again is the same amount.
pub proof fn lemma_written_reads_back(cents: nat)
    ensures
        amount_cents(written(cents)) == Some(cents),
{
    let dollars = decimal(cents / 100);
    let tens = digit_char(cents % 100 / 10);
    let units = digit_char(cents % 10);
    let t = written(cents);
    let n = t.len() as int;
    lemma_decimal_reads_back(cents / 100);
    assert(t.take(n - 3) == dollars);
    assert(t.skip(n - 2) == seq![tens, units]);
    lemma_two_digits(seq![tens, units]);
}

/// The character of the digit `d`.
fn digit_to_char(d: u8) -> (c: char)
    requires
        d < 10,
    ensures
        c == digit_char(d as nat),
{
    (d + 48) as char
}

/// Appends `n` in base ten to `out`.
fn push_decimal(n: u128, out: &mut Vec<char>)
    ensures
        final(out)@ == old(out)@ + decimal(n as nat),
    decreases n,
{
    if n >= 10 {
        push_decimal(n / 10, out);
    }
    out.push(digit_to_char((n % 10) as u8));
}

/// Writes an amount of `cents` in dollars, with two decimals.
pub fn format_amount(cents: u128) -> (s: String)
    ensures
        s@ == written(cents as nat),
{
    let mut out: Vec<char> = Vec::new();
    push_decimal(cents / 100, &mut out);
    out.push('.');
    out.push(digit_to_char((cents % 100 / 10) as u8));
    out.push(digit_to_char((cents % 10) as u8));
    string_of(out.as_slice())
}

/// The line that reports `cents` as the total for the filter `pattern`.
pub fn report_line(pattern: &str, cents: u128) -> (s: String)
    ensures
        s@ == report(pattern@, cents as nat),
{
    let amount = format_amount(cents);
    String::from_str("The price for all matches of ").concat(pattern).concat(" is: ").concat(
        amount.as_str(),
    )
}

/// The total, in cents, of the entries of the statement `contents` that
/// the filter `pattern` selects. A filter that is no regular expression
/// is reported before anything that is wrong with the statement.
pub fn total_for(pattern: &str, contents: &str) -> (r: Result<u128, RunError>)
    ensures
        run_view(r) == run_outcome(compiled(pattern@), compiled(PRICE_RE@), contents@),
        r matches Err(RunError::Filter { pattern: p, .. }) ==> p@ == pattern@,
{
    match compile(pattern) {
        Err(e) => Err(RunError::Filter { pattern: pattern.to_owned(), cause: e.to_string() }),
        Ok(filter) => match parse(contents) {
            Err(e) => Err(RunError::Statement(e)),
            Ok(entries) => Ok(sum_matches(&entries, &filter)),
        },
    }
}

} // verus!
