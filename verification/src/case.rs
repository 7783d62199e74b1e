//! The first stage of conversion: which notation for capitals a text uses,
//! and the text with that notation resolved.
//!
//! Betacode marks a capital either by `*` before the letter or, in a text of
//! small letters, by writing the ASCII capital. In a text without a small
//! letter the case of the letters says nothing, and only `*` marks a capital.
//! A text that holds `*`, a small letter and a capital mixes the two
//! notations.

use crate::alphabet::{is_letter, is_lower, is_upper, lower, upper};
use crate::text::holds;
use vstd::prelude::*;

verus! {

/// The text with each ASCII capital replaced by its small letter.
pub open spec fn folded(s: Seq<char>) -> Seq<char> {
    Seq::new(s.len(), |i: int| lower(s[i]))
}

/// The text with each marker resolved: a `*` that stands directly before a
/// letter is dropped and that letter is made a capital. Any other `*` stays,
/// so the three-character tokens of the archaic letters are left whole.
pub open spec fn markers_resolved(s: Seq<char>) -> Seq<char>
    decreases s.len(),
{
    if s.len() == 0 {
        s
    } else if s.len() >= 2 && s[0] == '*' && is_letter(s[1]) {
        seq![upper(s[1])] + markers_resolved(s.skip(2))
    } else {
        seq![s[0]] + markers_resolved(s.skip(1))
    }
}

/// Some character of the text is an ASCII small letter.
pub open spec fn has_small_letter(s: Seq<char>) -> bool {
    exists|i: int| 0 <= i < s.len() && is_lower(#[trigger] s[i])
}

/// Some character of the text is an ASCII capital.
pub open spec fn has_capital(s: Seq<char>) -> bool {
    exists|i: int| 0 <= i < s.len() && is_upper(#[trigger] s[i])
}

/// The text mixes the two notations: among small letters it writes both `*`
/// and a capital.
pub open spec fn mixes_notations(s: Seq<char>) -> bool {
    s.contains('*') && has_small_letter(s) && has_capital(s)
}

/// The text with its capital notation resolved.
///
/// - Mixed notations: the capitals stay as written and the markers are
///   resolved.
/// - Otherwise, with `*`: the text is folded to small letters, then the
///   markers are resolved.
/// - Without `*`, with a small letter: the text is kept, so a capital among
///   small letters gives a capital Greek letter.
/// - Without `*` and without a small letter: the text is folded, so a text
///   written all in capitals gives small Greek letters.
pub open spec fn case_resolved(s: Seq<char>) -> Seq<char> {
    if mixes_notations(s) {
        markers_resolved(s)
    } else if s.contains('*') {
        markers_resolved(folded(s))
    } else if has_small_letter(s) {
        s
    } else {
        folded(s)
    }
}

/// Folds every ASCII capital of `text` to its small letter.
pub fn fold(text: &Vec<char>) -> (out: Vec<char>)
    ensures
        out@ == folded(text@),
{
    let mut out: Vec<char> = Vec::new();
    let mut i: usize = 0;
    while i < text.len()
        invariant
            i <= text.len(),
            out@ == folded(text@).take(i as int),
        decreases text.len() - i,
    {
        out.push(lower(text[i]));
        i += 1;
    }
    out
}

/// Resolves the capital markers of `text`.
pub fn resolve_markers(text: &Vec<char>) -> (out: Vec<char>)
    ensures
        out@ == markers_resolved(text@),
{
    let n = text.len();
    let mut out: Vec<char> = Vec::new();
    let mut i: usize = 0;
    assert(text@.skip(0) == text@);
    while i < n
        invariant
            i <= n,
            n == text.len(),
            out@ + markers_resolved(text@.skip(i as int)) == markers_resolved(text@),
        decreases n - i,
    {
        let ghost rest = text@.skip(i as int);
        let ghost done = out@;
        if text[i] == '*' && i + 1 < n && is_letter(text[i + 1]) {
            out.push(upper(text[i + 1]));
            i += 2;
            proof {
                assert(rest.skip(2) == text@.skip(i as int));
            }
        } else {
            out.push(text[i]);
            i += 1;
            proof {
                assert(rest.skip(1) == text@.skip(i as int));
            }
        }
    }
    out
}

/// Whether `text` holds an ASCII small letter.
pub fn holds_small_letter(text: &Vec<char>) -> (b: bool)
    ensures
        b == has_small_letter(text@),
{
    let mut i: usize = 0;
    while i < text.len()
        invariant
            i <= text.len(),
            forall|j: int| 0 <= j < i ==> !is_lower(#[trigger] text@[j]),
        decreases text.len() - i,
    {
        if is_lower(text[i]) {
            return true;
        }
        i += 1;
    }
    false
}

/// Whether `text` holds an ASCII capital.
pub fn holds_capital(text: &Vec<char>) -> (b: bool)
    ensures
        b == has_capital(text@),
{
    let mut i: usize = 0;
    while i < text.len()
        invariant
            i <= text.len(),
            forall|j: int| 0 <= j < i ==> !is_upper(#[trigger] text@[j]),
        decreases text.len() - i,
    {
        if is_upper(text[i]) {
            return true;
        }
        i += 1;
    }
    false
}

/// Whether `text` mixes the two notations of capitals.
pub fn holds_mixed_notations(text: &Vec<char>) -> (b: bool)
    ensures
        b == mixes_notations(text@),
{
    holds(text, '*') && holds_small_letter(text) && holds_capital(text)
}

/// Resolves the capital notation of `text`.
pub fn resolve_case(text: &Vec<char>) -> (out: Vec<char>)
    ensures
        out@ == case_resolved(text@),
{
    if holds_mixed_notations(text) {
        resolve_markers(text)
    } else if holds(text, '*') {
        let small = fold(text);
        resolve_markers(&small)
    } else if holds_small_letter(text) {
        text.clone()
    } else {
        fold(text)
    }
}

/// The markers of a text can be resolved part by part, where the first part
/// does not end in `*`.
pub proof fn lemma_markers_resolved_in_parts(a: Seq<char>, b: Seq<char>)
    requires
        a.len() > 0 ==> a.last() != '*',
    ensures
        markers_resolved(a + b) == markers_resolved(a) + markers_resolved(b),
    decreases a.len(),
{
    let whole = a + b;
    if a.len() == 0 {
        assert(whole == b);
    } else if a.len() >= 2 && a[0] == '*' && is_letter(a[1]) {
        let rest = a.skip(2);
        assert(whole.skip(2) == rest + b);
        lemma_markers_resolved_in_parts(rest, b);
        assert(seq![upper(a[1])] + (markers_resolved(rest) + markers_resolved(b)) == (seq![
            upper(a[1]),
        ] + markers_resolved(rest)) + markers_resolved(b));
    } else {
        let rest = a.skip(1);
        assert(whole.skip(1) == rest + b);
        lemma_markers_resolved_in_parts(rest, b);
        assert(seq![a[0]] + (markers_resolved(rest) + markers_resolved(b)) == (seq![a[0]]
            + markers_resolved(rest)) + markers_resolved(b));
    }
}

/// A text without `*` has no marker to resolve.
pub proof fn lemma_no_markers(s: Seq<char>)
    requires
        !s.contains('*'),
    ensures
        markers_resolved(s) == s,
    decreases s.len(),
{
    if s.len() > 0 {
        let rest = s.skip(1);
        assert forall|i: int| 0 <= i < rest.len() implies rest[i] != '*' by {
            assert(rest[i] == s[i + 1]);
        }
        lemma_no_markers(rest);
    }
}

/// A text without a capital is its own folding, and its notation is resolved
/// by resolving its markers.
pub proof fn lemma_small_text(s: Seq<char>)
    requires
        !has_capital(s),
    ensures
        folded(s) == s,
        case_resolved(s) == markers_resolved(s),
{
    if !s.contains('*') {
        lemma_no_markers(s);
    }
}

} // verus!
