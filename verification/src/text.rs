//! Characters, lines and case folding.

use vstd::prelude::*;
use vstd::slice::slice_subrange;

verus! {

broadcast use vstd::string::group_string_axioms;

/// The texts held by a sequence of strings.
pub open spec fn texts(v: Seq<String>) -> Seq<Seq<char>> {
    v.map_values(|s: String| s@)
}

/// The lines of `s`: the pieces that its newline characters separate, in
/// order. A text with `k` newlines has `k + 1` lines, so the empty text is
/// one empty line, and a text that ends in a newline ends in an empty line.
pub open spec fn lines(s: Seq<char>) -> Seq<Seq<char>>
    decreases s.len(),
{
    if s.len() == 0 {
        seq![Seq::<char>::empty()]
    } else if s.last() == '\n' {
        lines(s.drop_last()).push(Seq::<char>::empty())
    } else {
        let before = lines(s.drop_last());
        before.drop_last().push(before.last().push(s.last()))
    }
}

/// The lines `l`, with a newline put back between each two.
pub open spec fn joined(l: Seq<Seq<char>>) -> Seq<char>
    decreases l.len(),
{
    if l.len() == 0 {
        Seq::<char>::empty()
    } else if l.len() == 1 {
        l[0]
    } else {
        joined(l.drop_last()).push('\n') + l.last()
    }
}

/// Lower-case form of an ASCII capital letter; every other character is
/// left as it is.
pub open spec fn lower(c: char) -> char {
    if 'A' <= c <= 'Z' {
        ((c as u8) + 32) as char
    } else {
        c
    }
}

/// `s` with its ASCII capital letters in lower case.
pub open spec fn fold_case(s: Seq<char>) -> Seq<char> {
    s.map_values(|c: char| lower(c))
}

/// Splitting loses nothing and leaves no newline: a text has at least one
/// line, no line holds a newline, and the lines joined by newlines are the
/// text again.
pub proof fn lemma_lines_partition(s: Seq<char>)
    ensures
        lines(s).len() >= 1,
        forall|i: int| 0 <= i < lines(s).len() ==> !(#[trigger] lines(s)[i]).contains('\n'),
        joined(lines(s)) == s,
    decreases s.len(),
{
    if s.len() > 0 {
        let before = lines(s.drop_last());
        lemma_lines_partition(s.drop_last());
        if s.last() == '\n' {
            assert(before.push(Seq::<char>::empty()).drop_last() == before);
        } else {
            let all = before.drop_last().push(before.last().push(s.last()));
            assert(all.drop_last() == before.drop_last());
            assert(s.drop_last().push(s.last()) == s);
        }
    }
}

/// A text in lower case stays as it is when it is folded again.
pub proof fn lemma_fold_case_settles(s: Seq<char>)
    ensures
        fold_case(fold_case(s)) == fold_case(s),
{
    assert forall|i: int| 0 <= i < s.len() implies lower(lower(s[i])) == lower(s[i]) by {}
}

/// The characters of `s`, in order.
pub fn chars_of(s: &str) -> (chars: Vec<char>)
    ensures
        chars@ == s@,
{
    let mut chars: Vec<char> = Vec::new();
    for c in it: s.chars()
        invariant
            it.seq() == s@,
            chars@ == it.seq().take(it.index() as int),
    {
        chars.push(c);
    }
    chars
}

/// Calls `String::from_iter` on the characters of a slice, which makes the
/// string that holds those characters in that order.
#[verifier::external_body]
pub(crate) fn string_of(chars: &[char]) -> (s: String)
    ensures
        s@ == chars@,
{
    String::from_iter(chars.iter())
}

/// The lower-case form of `c`.
pub fn to_lower(c: char) -> (r: char)
    ensures
        r == lower(c),
{
    if 'A' <= c && c <= 'Z' {
        ((c as u8) + 32) as char
    } else {
        c
    }
}

/// `s` with its ASCII capital letters in lower case.
pub fn lowercase(s: &str) -> (r: String)
    ensures
        r@ == fold_case(s@),
{
    let chars = chars_of(s);
    let mut folded: Vec<char> = Vec::new();
    let mut i: usize = 0;
    while i < chars.len()
        invariant
            i <= chars@.len(),
            chars@ == s@,
            folded@ == fold_case(s@.take(i as int)),
        decreases chars@.len() - i,
    {
        folded.push(to_lower(chars[i]));
        i += 1;
    }
    string_of(folded.as_slice())
}

/// Splits `s` into its lines.
pub fn split_lines(s: &str) -> (out: Vec<String>)
    ensures
        texts(out@) == lines(s@),
{
    let chars = chars_of(s);
    let n = chars.len();
    let mut out: Vec<String> = Vec::new();
    let mut start: usize = 0;
    let mut i: usize = 0;
    assert(texts(out@).push(s@.subrange(0, 0)) == lines(s@.take(0))) by {
        assert(s@.subrange(0, 0) == Seq::<char>::empty());
    }
    while i < n
        invariant
            start <= i <= n,
            n == chars@.len(),
            chars@ == s@,
            lines(s@.take(i as int)) == texts(out@).push(s@.subrange(start as int, i as int)),
        decreases n - i,
    {
        let ghost current = s@.subrange(start as int, i as int);
        assert(s@.take(i + 1).drop_last() == s@.take(i as int));
        if chars[i] == '\n' {
            let line = string_of(slice_subrange(chars.as_slice(), start, i));
            out.push(line);
            start = i + 1;
            assert(s@.subrange(start as int, i + 1) == Seq::<char>::empty());
        } else {
            assert(s@.subrange(start as int, i + 1) == current.push(s@[i as int]));
        }
        i += 1;
    }
    assert(s@.take(n as int) == s@);
    let last = string_of(slice_subrange(chars.as_slice(), start, n));
    out.push(last);
    out
}

} // verus!
