use regex::Regex;
use spending_counter::aggregate;
use spending_counter::extract::{parse, Entry};

fn cents(dollars: f64) -> u64 {
    (dollars * 100.0).round() as u64
}

fn dollars(cents: u128) -> f64 {
    cents as f64 / 100.0
}

fn entries(items: &[(&str, f64)]) -> Vec<Entry> {
    items
        .iter()
        .map(|(text, amount)| Entry { text: text.to_string(), cents: cents(*amount) })
        .collect()
}

#[test]
fn sum_matches() {
    let entries = entries(&[
        ("te st", 1.0),
        ("test", 2.0),
        ("test test test", 4.0),
        ("tester", 8.0),
        ("tesst", 16.0),
        ("tast", 32.0),
    ]);
    let re = Regex::new("t[ae]st").unwrap();
    let actual = dollars(aggregate::sum_matches(&entries, &re));
    let expected = 2.0 + 4.0 + 8.0 + 32.0;
    assert!((actual - expected).abs() < 0.01,
        "Actual: {actual}\nExpected: {expected}"
    );
}

#[test]
fn sum_matches_is_exact_in_cents() {
    let entries = entries(&[
        ("te st", 1.0),
        ("test", 2.0),
        ("test test test", 4.0),
        ("tester", 8.0),
        ("tesst", 16.0),
        ("tast", 32.0),
    ]);
    let re = Regex::new("t[ae]st").unwrap();
    assert_eq!(aggregate::sum_matches(&entries, &re), 4600);
}

#[test]
fn sum_of_no_entries_is_zero() {
    let none: Vec<Entry> = Vec::new();
    assert_eq!(aggregate::sum_matches(&none, &Regex::new("").unwrap()), 0);
    assert_eq!(aggregate::sum_matches(&none, &Regex::new("t[ae]st").unwrap()), 0);
}

#[test]
fn sum_is_zero_where_nothing_matches() {
    let entries = entries(&[("tea", 1.5), ("rent", 700.0)]);
    assert_eq!(aggregate::sum_matches(&entries, &Regex::new("coffee").unwrap()), 0);
}

#[test]
fn sum_does_not_depend_on_the_order() {
    let re = Regex::new("t[ae]st").unwrap();
    let forward = entries(&[("test", 2.0), ("tesst", 16.0), ("tast", 32.0), ("tester", 8.0)]);
    let mut backward = forward.clone();
    backward.reverse();
    assert_eq!(aggregate::sum_matches(&forward, &re), 4200);
    assert_eq!(aggregate::sum_matches(&backward, &re), 4200);
}

#[test]
fn sum_ignores_entries_that_do_not_match() {
    let re = Regex::new("t[ae]st").unwrap();
    let with = entries(&[("test", 2.0), ("tesst", 16.0), ("tast", 32.0)]);
    let without = entries(&[("test", 2.0), ("tast", 32.0)]);
    assert_eq!(aggregate::sum_matches(&with, &re), aggregate::sum_matches(&without, &re));
    assert_eq!(aggregate::sum_matches(&with, &re), 3400);
}

#[test]
fn sum_leaves_the_entries_as_they_were() {
    let re = Regex::new("t").unwrap();
    let before = entries(&[("test", 2.0), ("rent", 3.0)]);
    let after = before.clone();
    assert_eq!(aggregate::sum_matches(&after, &re), 500);
    assert_eq!(before, after);
}

#[test]
fn sum_goes_beyond_u64() {
    let entries = vec![
        Entry { text: "a".to_string(), cents: u64::MAX },
        Entry { text: "b".to_string(), cents: u64::MAX },
        Entry { text: "a again".to_string(), cents: 3 },
    ];
    assert_eq!(
        aggregate::sum_matches(&entries, &Regex::new("").unwrap()),
        2 * (u64::MAX as u128) + 3
    );
    assert_eq!(
        aggregate::sum_matches(&entries, &Regex::new("a").unwrap()),
        u64::MAX as u128 + 3
    );
}

#[test]
fn statement_total_with_a_filter_that_matches_everything() {
    let text = "abcd -$32.30 $55\nehea 48629$3.3. -$11.20\n-$3.00 ejejee";
    let entries = parse(text).unwrap();
    let sum = aggregate::sum_matches(&entries, &Regex::new("").unwrap());
    assert_eq!(sum, 4650);
    assert!((dollars(sum) - 46.50).abs() < 0.01);
}

#[test]
fn filter_sees_the_text_in_lower_case() {
    let entries = parse("TEA -$1.50\nCoffee -$2.25\ntea cake -$3.00").unwrap();
    assert_eq!(aggregate::sum_matches(&entries, &Regex::new("tea").unwrap()), 450);
    assert_eq!(aggregate::sum_matches(&entries, &Regex::new("TEA").unwrap()), 0);
    assert_eq!(aggregate::sum_matches(&entries, &Regex::new("^coffee").unwrap()), 225);
}
