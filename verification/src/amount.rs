//! Decimal amounts, counted in cents.
//!
//! An amount is written as a run of digits, one separator and two more
//! digits. The separator decides how the text is read:
//!
//! * `.` separates dollars from cents: `32.30` is 3230 cents;
//! * a digit makes the whole text one number of dollars: `12345` is
//!   1234500 cents;
//! * `e` or `E` makes the last two digits a power of ten: `5e03` is
//!   5000 dollars, 500000 cents.
//!
//! Any other text is no amount. Only the ASCII digits count as digits.
//! An amount is held in a `u64`; one that does not fit is refused.

use vstd::prelude::*;
use vstd::slice::slice_subrange;

verus! {

/// One of the ten ASCII digits.
pub open spec fn is_digit(c: char) -> bool {
    '0' <= c <= '9'
}

/// The number that a digit stands for.
pub open spec fn digit_value(c: char) -> nat
    recommends
        is_digit(c),
{
    (c as int - '0' as int) as nat
}

/// Every character of `s` is a digit.
pub open spec fn all_digits(s: Seq<char>) -> bool {
    forall|i: int| 0 <= i < s.len() ==> is_digit(#[trigger] s[i])
}

/// The number that a run of digits stands for in base ten; 0 for the empty
/// run.
pub open spec fn digits_value(s: Seq<char>) -> nat
    recommends
        all_digits(s),
    decreases s.len(),
{
    if s.len() == 0 {
        0
    } else {
        digits_value(s.drop_last()) * 10 + digit_value(s.last())
    }
}

/// Ten to the power of `e`.
pub open spec fn pow10(e: nat) -> nat
    decreases e,
{
    if e == 0 {
        1
    } else {
        10 * pow10((e - 1) as nat)
    }
}

/// The amount that `t` stands for, in cents, whatever its size; `None`
/// where `t` is not written as an amount.
pub open spec fn amount_cents(t: Seq<char>) -> Option<nat> {
    let n = t.len() as int;
    if n < 4 {
        None
    } else {
        let whole = t.take(n - 3);
        let sep = t[n - 3];
        let last_two = t.skip(n - 2);
        if !all_digits(whole) || !all_digits(last_two) {
            None
        } else if sep == '.' {
            Some(digits_value(whole) * 100 + digits_value(last_two))
        } else if is_digit(sep) {
            Some(digits_value(t) * 100)
        } else if sep == 'e' || sep == 'E' {
            Some(digits_value(whole) * pow10(digits_value(last_two)) * 100)
        } else {
            None
        }
    }
}

/// `v` as a `u64`, where it fits.
pub open spec fn fit(v: nat) -> Option<u64> {
    if v <= u64::MAX {
        Some(v as u64)
    } else {
        None
    }
}

/// The amount that `t` stands for, in cents; `None` where `t` is not
/// written as an amount, or stands for more than a `u64` holds.
pub open spec fn amount_of(t: Seq<char>) -> Option<u64> {
    match amount_cents(t) {
        Some(v) => fit(v),
        None => None,
    }
}

/// A prefix of a run of digits stands for no more than the whole run.
pub proof fn lemma_digits_value_prefix(s: Seq<char>, k: int)
    requires
        0 <= k <= s.len(),
    ensures
        digits_value(s.take(k)) <= digits_value(s),
    decreases s.len(),
{
    if k == s.len() {
        assert(s.take(k) == s);
    } else {
        lemma_digits_value_prefix(s.drop_last(), k);
        assert(s.drop_last().take(k) == s.take(k));
    }
}

/// Powers of ten are positive and grow with the exponent.
pub proof fn lemma_pow10_grows(a: nat, b: nat)
    requires
        a <= b,
    ensures
        1 <= pow10(a) <= pow10(b),
    decreases b,
{
    if b == 0 {
    } else if a == b {
        lemma_pow10_grows((a - 1) as nat, (b - 1) as nat);
    } else {
        lemma_pow10_grows(a, (b - 1) as nat);
    }
}

/// A run of two digits stands for ten times the first plus the second.
pub proof fn lemma_two_digits(s: Seq<char>)
    requires
        s.len() == 2,
    ensures
        digits_value(s) == digit_value(s[0]) * 10 + digit_value(s[1]),
{
    reveal_with_fuel(digits_value, 3);
}

/// Whether `c` is a digit.
pub fn is_digit_char(c: char) -> (b: bool)
    ensures
        b == is_digit(c),
{
    '0' <= c && c <= '9'
}

/// The number that the digit `c` stands for.
fn digit_of(c: char) -> (d: u64)
    requires
        is_digit(c),
    ensures
        d == digit_value(c),
        d <= 9,
{
    (c as u8 - 48) as u64
}

/// Whether `chars[from..to]` holds digits only.
fn only_digits(chars: &[char], from: usize, to: usize) -> (b: bool)
    requires
        from <= to <= chars@.len(),
    ensures
        b == all_digits(chars@.subrange(from as int, to as int)),
{
    let ghost run = chars@.subrange(from as int, to as int);
    let mut i: usize = from;
    while i < to
        invariant
            from <= i <= to <= chars@.len(),
            run == chars@.subrange(from as int, to as int),
            forall|j: int| 0 <= j < i - from ==> is_digit(#[trigger] run[j]),
        decreases to - i,
    {
        if !is_digit_char(chars[i]) {
            assert(!is_digit(run[i - from]));
            return false;
        }
        i += 1;
    }
    true
}

/// The number that the digits `chars[from..to]` stand for, where it fits.
fn read_digits(chars: &[char], from: usize, to: usize) -> (r: Option<u64>)
    requires
        from <= to <= chars@.len(),
        all_digits(chars@.subrange(from as int, to as int)),
    ensures
        r == fit(digits_value(chars@.subrange(from as int, to as int))),
{
    let ghost run = chars@.subrange(from as int, to as int);
    let mut acc: u64 = 0;
    let mut i: usize = from;
    while i < to
        invariant
            from <= i <= to <= chars@.len(),
            run == chars@.subrange(from as int, to as int),
            all_digits(run),
            acc == digits_value(run.take(i - from)),
        decreases to - i,
    {
        assert(is_digit(run[i - from]));
        let d: u64 = digit_of(chars[i]);
        proof {
            let next = run.take(i - from + 1);
            assert(next.drop_last() == run.take(i - from));
            lemma_digits_value_prefix(run, i - from + 1);
        }
        if acc > (u64::MAX - d) / 10 {
            return None;
        }
        acc = acc * 10 + d;
        i += 1;
    }
    assert(run.take(to - from) == run);
    Some(acc)
}

/// `whole` times ten to the power of `exp`, where it fits.
fn scale(whole: u64, exp: u64) -> (r: Option<u64>)
    ensures
        r == fit(whole as nat * pow10(exp as nat)),
{
    if whole == 0 {
        return Some(0);
    }
    let mut acc: u64 = whole;
    let mut k: u64 = 0;
    assert(whole as nat * pow10(0) == whole) by {
        assert(pow10(0) == 1);
    }
    while k < exp
        invariant
            k <= exp,
            whole > 0,
            acc == whole as nat * pow10(k as nat),
        decreases exp - k,
    {
        if acc > u64::MAX / 10 {
            proof {
                lemma_pow10_grows((k + 1) as nat, exp as nat);
                let step = pow10((k + 1) as nat);
                let full = pow10(exp as nat);
                assert(whole as nat * step == acc * 10) by (nonlinear_arith)
                    requires
                        step == 10 * pow10(k as nat),
                        acc == whole as nat * pow10(k as nat),
                ;
                assert(whole as nat * step <= whole as nat * full) by (nonlinear_arith)
                    requires
                        step <= full,
                ;
            }
            return None;
        }
        assert(whole as nat * pow10((k + 1) as nat) == acc * 10) by (nonlinear_arith)
            requires
                pow10((k + 1) as nat) == 10 * pow10(k as nat),
                acc == whole as nat * pow10(k as nat),
        ;
        acc = acc * 10;
        k += 1;
    }
    Some(acc)
}

/// Reads `chars` as an amount.
pub fn amount_from_chars(chars: &[char]) -> (r: Option<u64>)
    ensures
        r == amount_of(chars@),
{
    let n = chars.len();
    if n < 4 {
        return None;
    }
    let ghost t = chars@;
    let ghost whole = t.take(n - 3);
    let ghost last_two = t.skip(n - 2);
    if !only_digits(chars, 0, n - 3) || !only_digits(chars, n - 2, n) {
        return None;
    }
    let sep = chars[n - 3];
    assert(is_digit(last_two[0]) && is_digit(last_two[1]));
    let two: u64 = digit_of(chars[n - 2]) * 10 + digit_of(chars[n - 1]);
    proof {
        lemma_two_digits(last_two);
    }
    if sep == '.' {
        match read_digits(chars, 0, n - 3) {
            Some(dollars) => {
                if dollars > (u64::MAX - two) / 100 {
                    None
                } else {
                    Some(dollars * 100 + two)
                }
            },
            None => None,
        }
    } else if is_digit_char(sep) {
        assert(all_digits(t)) by {
            assert forall|i: int| 0 <= i < t.len() implies is_digit(#[trigger] t[i]) by {
                if i < n - 3 {
                    assert(t[i] == whole[i]);
                }
            }
        }
        assert(t == t.subrange(0, n as int));
        match read_digits(chars, 0, n) {
            Some(dollars) => {
                if dollars > u64::MAX / 100 {
                    None
                } else {
                    Some(dollars * 100)
                }
            },
            None => None,
        }
    } else if sep == 'e' || sep == 'E' {
        let ghost w = digits_value(whole);
        let ghost p = pow10(two as nat);
        proof {
            lemma_pow10_grows(0, two as nat);
            assert(w <= w * p && w * p <= w * p * 100) by (nonlinear_arith)
                requires
                    1 <= p,
            ;
        }
        match read_digits(chars, 0, n - 3) {
            Some(mantissa) => {
                match scale(mantissa, two) {
                    Some(dollars) => {
                        if dollars > u64::MAX / 100 {
                            None
                        } else {
                            Some(dollars * 100)
                        }
                    },
                    None => None,
                }
            },
            None => None,
        }
    } else {
        None
    }
}

/// The text of a match without its first two characters, the `-$` that
/// opens it; `None` for a match of fewer than two characters.
pub open spec fn amount_text(matched: Seq<char>) -> Option<Seq<char>> {
    if matched.len() >= 2 {
        Some(matched.skip(2))
    } else {
        None
    }
}

/// The amount that a match carries: what follows its first two characters,
/// read as an amount.
pub open spec fn amount_of_match(matched: Seq<char>) -> Option<u64> {
    match amount_text(matched) {
        Some(t) => amount_of(t),
        None => None,
    }
}

/// Reads the amount that a match carries.
pub fn match_amount(matched: &[char]) -> (r: Option<u64>)
    ensures
        r == amount_of_match(matched@),
{
    let n = matched.len();
    if n < 2 {
        None
    } else {
        let rest = slice_subrange(matched, 2, n);
        amount_from_chars(rest)
    }
}

} // verus!
