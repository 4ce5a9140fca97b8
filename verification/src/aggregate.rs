//! The aggregator: the total of the entries that a filter selects.

use crate::extract::{views, Entry, EntryView};
use crate::pattern::{has_match, is_match};
use regex::Regex;
use vstd::prelude::*;

verus! {

/// Whether the filter `re` selects `e`: whether it matches somewhere in the
/// entry's text.
pub open spec fn selected(e: EntryView, re: Regex) -> bool {
    has_match(re, e.text)
}

/// What `e` adds to the total under the filter `re`: its amount where the
/// filter selects it, nothing where it does not.
pub open spec fn contribution(e: EntryView, re: Regex) -> nat {
    if selected(e, re) {
        e.cents
    } else {
        0
    }
}

/// The sum of the amounts of `entries`, in cents.
pub open spec fn total(entries: Seq<EntryView>) -> nat
    decreases entries.len(),
{
    if entries.len() == 0 {
        0
    } else {
        total(entries.drop_last()) + entries.last().cents
    }
}

/// The sum of the amounts of those of `entries` that the filter `re`
/// selects, in cents.
pub open spec fn matching_total(entries: Seq<EntryView>, re: Regex) -> nat
    decreases entries.len(),
{
    if entries.len() == 0 {
        0
    } else {
        matching_total(entries.drop_last(), re) + contribution(entries.last(), re)
    }
}

/// No entries, no total: whatever the filter, the total of nothing is 0.
pub proof fn lemma_total_of_nothing(re: Regex)
    ensures
        matching_total(Seq::<EntryView>::empty(), re) == 0,
{
}

/// The total of one entry is what that entry adds.
pub proof fn lemma_total_of_one(e: EntryView, re: Regex)
    ensures
        matching_total(seq![e], re) == contribution(e, re),
{
    assert(matching_total(seq![e].drop_last(), re) == 0);
}

/// The total of two sequences put together is the sum of their totals.
pub proof fn lemma_total_concat(a: Seq<EntryView>, b: Seq<EntryView>, re: Regex)
    ensures
        matching_total(a + b, re) == matching_total(a, re) + matching_total(b, re),
    decreases b.len(),
{
    if b.len() > 0 {
        lemma_total_concat(a, b.drop_last(), re);
        assert((a + b).drop_last() == a + b.drop_last());
    }
}

/// An entry that the filter does not select adds nothing: the total is the
/// same with it as without it, wherever it stands.
pub proof fn lemma_unselected_adds_nothing(
    before: Seq<EntryView>,
    e: EntryView,
    after: Seq<EntryView>,
    re: Regex,
)
    requires
        !selected(e, re),
    ensures
        matching_total(before + seq![e] + after, re) == matching_total(before + after, re),
{
    let one = seq![e];
    lemma_total_of_one(e, re);
    lemma_total_concat(before, one, re);
    lemma_total_concat(before + one, after, re);
    lemma_total_concat(before, after, re);
}

/// The total is taken over exactly the entries that the filter selects: it
/// is the plain sum of the amounts of those entries.
pub proof fn lemma_total_is_sum_of_selected(entries: Seq<EntryView>, re: Regex)
    ensures
        matching_total(entries, re) == total(entries.filter(|e: EntryView| selected(e, re))),
    decreases entries.len(),
{
    reveal(Seq::filter);
    if entries.len() > 0 {
        let pred = |e: EntryView| selected(e, re);
        lemma_total_is_sum_of_selected(entries.drop_last(), re);
        let kept = entries.drop_last().filter(pred);
        if pred(entries.last()) {
            assert(kept.push(entries.last()).drop_last() == kept);
        }
    }
}

/// Taking one entry out of a sequence takes its contribution out of the
/// total.
pub proof fn lemma_total_remove(entries: Seq<EntryView>, i: int, re: Regex)
    requires
        0 <= i < entries.len(),
    ensures
        matching_total(entries, re) == matching_total(entries.remove(i), re) + contribution(
            entries[i],
            re,
        ),
{
    let before = entries.subrange(0, i);
    let one = seq![entries[i]];
    let after = entries.subrange(i + 1, entries.len() as int);
    assert(entries == before + one + after);
    lemma_total_of_one(entries[i], re);
    lemma_total_concat(before, one, re);
    lemma_total_concat(before + one, after, re);
    lemma_total_concat(before, after, re);
}

/// The total does not depend on the order of the entries, and so not on
/// the order in which they are put to the filter: two sequences that hold
/// the same entries the same number of times have the same total.
pub proof fn lemma_total_reordered(a: Seq<EntryView>, b: Seq<EntryView>, re: Regex)
    requires
        a.to_multiset() == b.to_multiset(),
    ensures
        matching_total(a, re) == matching_total(b, re),
    decreases a.len(),
{
    a.to_multiset_ensures();
    b.to_multiset_ensures();
    if a.len() > 0 {
        let x = a.last();
        assert(b.to_multiset().count(x) > 0);
        let j = choose|j: int| 0 <= j < b.len() && b[j] == x;
        assert(a.remove(a.len() - 1) == a.drop_last());
        lemma_total_reordered(a.drop_last(), b.remove(j), re);
        lemma_total_remove(b, j, re);
    }
}

/// The sum of the amounts of those of `entries` whose text `re` matches,
/// in cents. The entries are put to the filter in their order, and none of
/// them is changed.
pub fn sum_matches(entries: &Vec<Entry>, re: &Regex) -> (sum: u128)
    ensures
        sum == matching_total(views(entries@), *re),
{
    let mut sum: u128 = 0;
    let mut i: usize = 0;
    while i < entries.len()
        invariant
            i <= entries@.len(),
            sum == matching_total(views(entries@).take(i as int), *re),
            sum <= i * u64::MAX,
        decreases entries@.len() - i,
    {
        assert(views(entries@).take(i + 1).drop_last() == views(entries@).take(i as int));
        if is_match(re, entries[i].text.as_str()) {
            sum = sum + entries[i].cents as u128;
        }
        i += 1;
    }
    assert(views(entries@).take(entries@.len() as int) == views(entries@));
    sum
}

} // verus!
