//! The extractor: from a statement's text to its entries.
//!
//! Each line is searched for amounts with the pattern [`PRICE_RE`]. A line
//! without an amount is passed over, a line with one amount becomes an
//! entry, and a line with several amounts stops the extraction: which of
//! them was meant cannot be told.

use crate::amount::{amount_of_match, match_amount};
use crate::pattern::{compile, compiled, find_all, occurrences};
use crate::text::{
    chars_of, fold_case, lemma_fold_case_settles, lines, lowercase, split_lines, texts,
};
use regex::Regex;
use vstd::prelude::*;

verus! {

/// The pattern of an amount: `-$`, one or more digits, any one character
/// as separator, two digits. The separator is not held to be a point, and a
/// digit is whatever the regex engine takes for one; what number a match
/// stands for, if any, is for [`amount_of_match`] to say.
pub const PRICE_RE: &'static str = r"-\$\d+.\d{2}";

/// One line of a statement that carries an amount.
#[derive(Debug, Clone, PartialEq, Eq)]
pub struct Entry {
    /// The line, with its ASCII capital letters in lower case.
    pub text: String,
    /// The amount, in cents. The sign of the written amount is not kept.
    pub cents: u64,
}

/// What an [`Entry`] holds.
pub struct EntryView {
    pub text: Seq<char>,
    pub cents: nat,
}

impl View for Entry {
    type V = EntryView;

    open spec fn view(&self) -> EntryView {
        EntryView { text: self.text@, cents: self.cents as nat }
    }
}

/// Why an extraction stopped.
#[derive(Debug, Clone, PartialEq, Eq)]
pub enum ParseError {
    /// The regex engine refused the amount pattern.
    Pattern,
    /// The line holds more than one amount.
    AmbiguousLine { line: String },
    /// The line holds one amount, and its number cannot be read or is too
    /// large.
    InvalidAmount { line: String },
}

/// What a [`ParseError`] holds.
pub enum Failure {
    Pattern,
    AmbiguousLine { line: Seq<char> },
    InvalidAmount { line: Seq<char> },
}

impl View for ParseError {
    type V = Failure;

    open spec fn view(&self) -> Failure {
        match self {
            ParseError::Pattern => Failure::Pattern,
            ParseError::AmbiguousLine { line } => Failure::AmbiguousLine { line: line@ },
            ParseError::InvalidAmount { line } => Failure::InvalidAmount { line: line@ },
        }
    }
}

impl Failure {
    /// The words in which the failure is reported. A failure on a line
    /// shows that line as it was read.
    pub open spec fn message(self) -> Seq<char> {
        match self {
            Failure::Pattern => "the pattern of an amount is not a regular expression"@,
            Failure::AmbiguousLine { line } => {
                "the following line contains more than one price:\n"@ + line
            },
            Failure::InvalidAmount { line } => {
                "the following line contains a price that cannot be read:\n"@ + line
            },
        }
    }
}

impl ParseError {
    /// The words in which the failure is reported.
    pub fn message(&self) -> (m: String)
        ensures
            m@ == self@.message(),
    {
        match self {
            ParseError::Pattern => String::from_str(
                "the pattern of an amount is not a regular expression",
            ),
            ParseError::AmbiguousLine { line } => String::from_str(
                "the following line contains more than one price:\n",
            ).concat(line.as_str()),
            ParseError::InvalidAmount { line } => String::from_str(
                "the following line contains a price that cannot be read:\n",
            ).concat(line.as_str()),
        }
    }
}

/// What a sequence of entries holds.
pub open spec fn views(entries: Seq<Entry>) -> Seq<EntryView> {
    entries.map_values(|e: Entry| e@)
}

/// What the outcome of reading one line holds.
pub open spec fn line_view(r: Result<Option<Entry>, ParseError>) -> Result<
    Option<EntryView>,
    Failure,
> {
    match r {
        Ok(Some(e)) => Ok(Some(e@)),
        Ok(None) => Ok(None),
        Err(e) => Err(e@),
    }
}

/// What the outcome of an extraction holds.
pub open spec fn outcome_view(r: Result<Vec<Entry>, ParseError>) -> Result<
    Seq<EntryView>,
    Failure,
> {
    match r {
        Ok(entries) => Ok(views(entries@)),
        Err(e) => Err(e@),
    }
}

/// What one line comes to, given the amounts `found` in it.
pub open spec fn line_outcome(line: Seq<char>, found: Seq<Seq<char>>) -> Result<
    Option<EntryView>,
    Failure,
> {
    if found.len() == 0 {
        Ok(None)
    } else if found.len() == 1 {
        match amount_of_match(found[0]) {
            Some(cents) => Ok(Some(EntryView { text: fold_case(line), cents: cents as nat })),
            None => Err(Failure::InvalidAmount { line }),
        }
    } else {
        Err(Failure::AmbiguousLine { line })
    }
}

/// What `lines` come to, where `re` finds the amounts: the entries of the
/// lines in their order, or the failure of the first line that has one.
pub open spec fn extraction(lines: Seq<Seq<char>>, re: Regex) -> Result<Seq<EntryView>, Failure>
    decreases lines.len(),
{
    if lines.len() == 0 {
        Ok(Seq::<EntryView>::empty())
    } else {
        match extraction(lines.drop_last(), re) {
            Err(f) => Err(f),
            Ok(entries) => match line_outcome(lines.last(), occurrences(re, lines.last())) {
                Ok(None) => Ok(entries),
                Ok(Some(e)) => Ok(entries.push(e)),
                Err(f) => Err(f),
            },
        }
    }
}

/// An extraction that has failed on some lines fails in the same way on
/// any text that begins with them.
pub proof fn lemma_failure_is_final(lines: Seq<Seq<char>>, k: int, re: Regex)
    requires
        0 <= k <= lines.len(),
        extraction(lines.take(k), re) is Err,
    ensures
        extraction(lines, re) == extraction(lines.take(k), re),
    decreases lines.len(),
{
    if k == lines.len() {
        assert(lines.take(k) == lines);
    } else {
        assert(lines.drop_last().take(k) == lines.take(k));
        lemma_failure_is_final(lines.drop_last(), k, re);
    }
}

/// Extraction goes line by line: the entries of two texts put together are
/// those of the first followed by those of the second, and the first
/// failure decides.
pub proof fn lemma_extraction_concat(a: Seq<Seq<char>>, b: Seq<Seq<char>>, re: Regex)
    ensures
        extraction(a + b, re) == match extraction(a, re) {
            Err(f) => Err(f),
            Ok(first) => match extraction(b, re) {
                Err(f) => Err(f),
                Ok(second) => Ok(first + second),
            },
        },
    decreases b.len(),
{
    if b.len() > 0 {
        lemma_extraction_concat(a, b.drop_last(), re);
        assert((a + b).drop_last() == a + b.drop_last());
    }
}

/// What an extraction yields: no more entries than there are lines, each
/// with a text in lower case and an amount that a `u64` holds.
pub proof fn lemma_entries_are_normal(lines: Seq<Seq<char>>, re: Regex)
    requires
        extraction(lines, re) is Ok,
    ensures
        extraction(lines, re)->Ok_0.len() <= lines.len(),
        forall|i: int|
            0 <= i < extraction(lines, re)->Ok_0.len() ==> {
                let e = #[trigger] extraction(lines, re)->Ok_0[i];
                fold_case(e.text) == e.text && e.cents <= u64::MAX
            },
    decreases lines.len(),
{
    if lines.len() > 0 {
        lemma_entries_are_normal(lines.drop_last(), re);
        lemma_fold_case_settles(lines.last());
    }
}

/// A line in which no amount is found yields no entry: the extraction
/// comes to the same with the line as without it.
pub proof fn lemma_line_without_amount(
    before: Seq<Seq<char>>,
    line: Seq<char>,
    after: Seq<Seq<char>>,
    re: Regex,
)
    requires
        occurrences(re, line).len() == 0,
    ensures
        extraction(seq![line], re) == Ok::<Seq<EntryView>, Failure>(Seq::empty()),
        extraction(before + seq![line] + after, re) == extraction(before + after, re),
{
    let one = seq![line];
    assert(extraction(one.drop_last(), re) == Ok::<Seq<EntryView>, Failure>(Seq::empty()));
    lemma_extraction_concat(before, one, re);
    lemma_extraction_concat(before + one, after, re);
    lemma_extraction_concat(before, after, re);
}

/// A line in which exactly one amount is found, and whose amount can be
/// read, yields exactly one entry: the line in lower case with the amount
/// that follows the `-$` of the match. Among other lines the entry stands
/// where the line stands.
pub proof fn lemma_line_with_one_amount(
    before: Seq<Seq<char>>,
    line: Seq<char>,
    after: Seq<Seq<char>>,
    re: Regex,
)
    requires
        occurrences(re, line).len() == 1,
        amount_of_match(occurrences(re, line)[0]) is Some,
    ensures
        extraction(seq![line], re) == Ok::<Seq<EntryView>, Failure>(
            seq![
                EntryView {
                    text: fold_case(line),
                    cents: amount_of_match(occurrences(re, line)[0]).unwrap() as nat,
                },
            ],
        ),
        extraction(before + seq![line] + after, re) == match extraction(before, re) {
            Err(f) => Err(f),
            Ok(first) => match extraction(after, re) {
                Err(f) => Err(f),
                Ok(second) => Ok(
                    first + seq![
                        EntryView {
                            text: fold_case(line),
                            cents: amount_of_match(occurrences(re, line)[0]).unwrap() as nat,
                        },
                    ] + second,
                ),
            },
        },
{
    let one = seq![line];
    assert(extraction(one.drop_last(), re) == Ok::<Seq<EntryView>, Failure>(Seq::empty()));
    lemma_extraction_concat(before, one, re);
    lemma_extraction_concat(before + one, after, re);
}

/// A line in which two or more amounts are found makes the extraction
/// fail, wherever the line stands: no part of the text is returned.
pub proof fn lemma_ambiguous_line_fails(lines: Seq<Seq<char>>, i: int, re: Regex)
    requires
        0 <= i < lines.len(),
        occurrences(re, lines[i]).len() >= 2,
    ensures
        extraction(lines, re) is Err,
{
    lemma_failure_is_final(lines, i + 1, re);
}

/// Reads one line, given the texts of the amounts found in it.
pub fn entry_for_line(line: &str, found: &Vec<String>) -> (r: Result<Option<Entry>, ParseError>)
    ensures
        line_view(r) == line_outcome(line@, texts(found@)),
{
    if found.len() == 0 {
        Ok(None)
    } else if found.len() == 1 {
        let matched = chars_of(found[0].as_str());
        match match_amount(matched.as_slice()) {
            Some(cents) => Ok(Some(Entry { text: lowercase(line), cents })),
            None => Err(ParseError::InvalidAmount { line: line.to_owned() }),
        }
    } else {
        Err(ParseError::AmbiguousLine { line: line.to_owned() })
    }
}

/// Extracts the entries of `s`, with `re` to find the amounts.
pub fn parse_with(s: &str, re: &Regex) -> (r: Result<Vec<Entry>, ParseError>)
    ensures
        outcome_view(r) == extraction(lines(s@), *re),
{
    let all = split_lines(s);
    let mut entries: Vec<Entry> = Vec::new();
    let mut i: usize = 0;
    assert(views(entries@) == Seq::<EntryView>::empty());
    while i < all.len()
        invariant
            i <= all@.len(),
            texts(all@) == lines(s@),
            extraction(texts(all@).take(i as int), *re) == Ok::<Seq<EntryView>, Failure>(
                views(entries@),
            ),
        decreases all@.len() - i,
    {
        let line = all[i].as_str();
        let found = find_all(re, line);
        let ghost so_far = views(entries@);
        assert(texts(all@).take(i + 1).drop_last() == texts(all@).take(i as int));
        match entry_for_line(line, &found) {
            Ok(None) => {},
            Ok(Some(entry)) => {
                entries.push(entry);
                assert(views(entries@) == so_far.push(entry@));
            },
            Err(e) => {
                proof {
                    lemma_failure_is_final(texts(all@), i + 1, *re);
                }
                return Err(e);
            },
        }
        i += 1;
    }
    assert(texts(all@).take(all@.len() as int) == texts(all@));
    Ok(entries)
}

/// Extracts the entries of `s`: for each line that holds exactly one match
/// of [`PRICE_RE`], the line in lower case and the amount of the match.
pub fn parse(s: &str) -> (r: Result<Vec<Entry>, ParseError>)
    ensures
        outcome_view(r) == match compiled(PRICE_RE@) {
            Some(re) => extraction(lines(s@), re),
            None => Err(Failure::Pattern),
        },
{
    match compile(PRICE_RE) {
        Ok(re) => parse_with(s, &re),
        Err(_) => Err(ParseError::Pattern),
    }
}

} // verus!
