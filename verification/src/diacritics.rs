//! The order of the diacritics that follow a letter: breathing or diaeresis
//! first, then the accent, then the iota subscript.
//!
//! `reordered` puts a misplaced cluster into that order; `breaches` lists
//! the places where a text breaks it.

use crate::alphabet::{is_accent, is_breathing};
use vstd::prelude::*;

verus! {

/// How many iota subscripts `|` stand at the front of the text.
pub open spec fn iotas(s: Seq<char>) -> nat
    decreases s.len(),
{
    if s.len() > 0 && s[0] == '|' {
        1 + iotas(s.skip(1))
    } else {
        0
    }
}

/// The length of the misplaced cluster at the front of the text, or 0 where
/// none stands there. A misplaced cluster is an accent and, after it, a
/// breathing or diaeresis, with any number of iota subscripts before the
/// accent and between the two.
pub open spec fn misplaced(s: Seq<char>) -> nat {
    let accent = iotas(s) as int;
    let breathing = accent + 1 + iotas(s.skip(accent + 1));
    if accent < s.len() && is_accent(s[accent]) && breathing < s.len() && is_breathing(
        s[breathing],
    ) {
        (breathing + 1) as nat
    } else {
        0
    }
}

/// The text with each misplaced cluster put in order: its breathing, its
/// accent, then its iota subscripts. The text is read once from the left, a
/// cluster is taken where it starts, and reading goes on behind it.
pub open spec fn reordered(s: Seq<char>) -> Seq<char>
    decreases s.len(),
{
    let n = misplaced(s);
    if s.len() == 0 {
        s
    } else if n > 0 {
        seq![s[n - 1], s[iotas(s) as int]] + Seq::new((n - 2) as nat, |i: int| '|') + reordered(
            s.skip(n as int),
        )
    } else {
        seq![s[0]] + reordered(s.skip(1))
    }
}

/// What `iotas` says of the text from `from` on: the run of `|` ends at the
/// end of the text or before another character.
pub proof fn lemma_iotas(s: Seq<char>, from: int)
    requires
        0 <= from <= s.len(),
    ensures
        from + iotas(s.skip(from)) <= s.len(),
        forall|j: int| from <= j < from + iotas(s.skip(from)) ==> s[j] == '|',
        from + iotas(s.skip(from)) < s.len() ==> s[from + iotas(s.skip(from))] != '|',
    decreases s.len() - from,
{
    let rest = s.skip(from);
    if rest.len() > 0 && rest[0] == '|' {
        lemma_iotas(s, from + 1);
        assert(rest.skip(1) == s.skip(from + 1));
    }
}

/// Counts the iota subscripts of `text` from `from` on.
pub fn count_iotas(text: &Vec<char>, from: usize) -> (n: usize)
    requires
        from <= text.len(),
    ensures
        n == iotas(text@.skip(from as int)),
        from + n <= text.len(),
{
    let mut j: usize = from;
    proof {
        lemma_iotas(text@, from as int);
    }
    while j < text.len() && text[j] == '|'
        invariant
            from <= j <= text.len(),
            j <= from + iotas(text@.skip(from as int)) <= text.len(),
            from + iotas(text@.skip(from as int)) < text.len() ==> text@[from + iotas(
                text@.skip(from as int),
            )] != '|',
        decreases text.len() - j,
    {
        j += 1;
    }
    j - from
}

/// Measures the misplaced cluster of `text` at `from`: 0 where none starts
/// there.
pub fn measure_misplaced(text: &Vec<char>, from: usize) -> (n: usize)
    requires
        from <= text.len(),
    ensures
        n == misplaced(text@.skip(from as int)),
        from + n <= text.len(),
        n > 0 ==> n >= 2 && from + iotas(text@.skip(from as int)) + 1 < from + n,
{
    let ghost rest = text@.skip(from as int);
    let accent = from + count_iotas(text, from);
    if accent < text.len() && is_accent(text[accent]) {
        let breathing = accent + 1 + count_iotas(text, accent + 1);
        proof {
            assert(rest.skip(accent + 1 - from) == text@.skip(accent + 1));
        }
        if breathing < text.len() && is_breathing(text[breathing]) {
            return breathing + 1 - from;
        }
    }
    0
}

/// Where no misplaced cluster starts at the front of a text, none starts
/// within the iota subscripts at its front or directly behind them.
pub proof fn lemma_no_cluster_among_iotas(s: Seq<char>, j: int)
    requires
        misplaced(s) == 0,
        0 <= j <= iotas(s),
    ensures
        misplaced(s.skip(j)) == 0,
    decreases j,
{
    if j > 0 {
        let rest = s.skip(1);
        let accent = iotas(rest) as int;
        lemma_iotas(s, 1);
        if accent < rest.len() {
            assert(rest.skip(accent + 1) == s.skip(accent + 2));
        }
        lemma_no_cluster_among_iotas(rest, j - 1);
        assert(rest.skip(j - 1) == s.skip(j));
    } else {
        assert(s.skip(0) == s);
    }
}

/// Where no misplaced cluster starts at any of the first `count` places of
/// a text, the text is kept up to there.
pub proof fn lemma_reordered_keeps_the_front(s: Seq<char>, count: int)
    requires
        0 <= count <= s.len(),
        forall|j: int| 0 <= j < count ==> misplaced(#[trigger] s.skip(j)) == 0,
    ensures
        reordered(s) == s.take(count) + reordered(s.skip(count)),
    decreases count,
{
    if count == 0 {
        assert(s.skip(0) == s);
    } else {
        let rest = s.skip(1);
        assert(s.skip(0) == s);
        assert forall|j: int| 0 <= j < count - 1 implies misplaced(#[trigger] rest.skip(j))
            == 0 by {
            assert(rest.skip(j) == s.skip(j + 1));
        }
        lemma_reordered_keeps_the_front(rest, count - 1);
        assert(rest.skip(count - 1) == s.skip(count));
        assert(seq![s[0]] + (rest.take(count - 1) + reordered(s.skip(count))) == s.take(count)
            + reordered(s.skip(count)));
    }
}

/// Puts the misplaced clusters of `text` in order.
pub fn reorder(text: &Vec<char>) -> (out: Vec<char>)
    ensures
        out@ == reordered(text@),
{
    let n = text.len();
    let mut out: Vec<char> = Vec::new();
    let mut i: usize = 0;
    assert(text@.skip(0) == text@);
    while i < n
        invariant
            i <= n,
            n == text.len(),
            out@ + reordered(text@.skip(i as int)) == reordered(text@),
        decreases n - i,
    {
        let ghost rest = text@.skip(i as int);
        let ghost done = out@;
        let len = measure_misplaced(text, i);
        let run = count_iotas(text, i);
        if len > 0 {
            out.push(text[i + len - 1]);
            out.push(text[i + run]);
            let mut k: usize = 0;
            while k < len - 2
                invariant
                    k <= len - 2,
                    out@ == done + seq![rest[len - 1], rest[iotas(rest) as int]] + Seq::new(
                        k as nat,
                        |i: int| '|',
                    ),
                decreases len - 2 - k,
            {
                out.push('|');
                k += 1;
            }
            i += len;
            proof {
                assert(rest.skip(len as int) == text@.skip(i as int));
            }
        } else {
            let kept = if run < n - i {
                run + 1
            } else {
                run
            };
            let mut k: usize = 0;
            while k < kept
                invariant
                    k <= kept,
                    i + kept <= n,
                    n == text.len(),
                    out@ == done + text@.subrange(i as int, i + k),
                decreases kept - k,
            {
                out.push(text[i + k]);
                k += 1;
            }
            i += kept;
            proof {
                assert forall|j: int| 0 <= j < kept implies misplaced(#[trigger] rest.skip(j))
                    == 0 by {
                    lemma_no_cluster_among_iotas(rest, j);
                }
                lemma_reordered_keeps_the_front(rest, kept as int);
                assert(rest.skip(kept as int) == text@.skip(i as int));
            }
        }
    }
    out
}

/// A character that takes no diacritic: a small consonant or the space.
pub open spec fn spec_is_bare(c: char) -> bool {
    ||| c == 'q' || c == 'r' || c == 't' || c == 'y' || c == 'p' || c == 's' || c == 'd'
    ||| c == 'f' || c == 'g' || c == 'k' || c == 'l' || c == 'm' || c == 'n' || c == 'b'
    ||| c == 'c' || c == 'x' || c == 'z' || c == ' '
}

/// Computes [`spec_is_bare`].
#[verifier::when_used_as_spec(spec_is_bare)]
pub fn is_bare(c: char) -> (b: bool)
    ensures
        b == spec_is_bare(c),
{
    c == 'q' || c == 'r' || c == 't' || c == 'y' || c == 'p' || c == 's' || c == 'd' || c == 'f'
        || c == 'g' || c == 'k' || c == 'l' || c == 'm' || c == 'n' || c == 'b' || c == 'c' || c
        == 'x' || c == 'z' || c == ' '
}

/// A breathing, a diaeresis, an acute or a grave; with `with_iota`, the
/// iota subscript too.
pub open spec fn spec_is_mark(c: char, with_iota: bool) -> bool {
    c == '(' || c == ')' || c == '/' || c == '\\' || c == '+' || (with_iota && c == '|')
}

/// Computes [`spec_is_mark`].
#[verifier::when_used_as_spec(spec_is_mark)]
pub fn is_mark(c: char, with_iota: bool) -> (b: bool)
    ensures
        b == spec_is_mark(c, with_iota),
{
    c == '(' || c == ')' || c == '/' || c == '\\' || c == '+' || (with_iota && c == '|')
}

/// How many marks stand at the front of the text.
pub open spec fn marks(s: Seq<char>, with_iota: bool) -> nat
    decreases s.len(),
{
    if s.len() > 0 && is_mark(s[0], with_iota) {
        1 + marks(s.skip(1), with_iota)
    } else {
        0
    }
}

/// The length of the breach of the order at the front of the text, or 0
/// where none starts there. A breach is one of:
/// - an iota subscript and every mark behind it, at least one;
/// - an acute or a grave and one breathing or diaeresis behind it;
/// - a character that takes no diacritic and every mark or iota subscript
///   behind it, at least one.
pub open spec fn breach(s: Seq<char>) -> nat {
    if s.len() < 2 {
        0
    } else if s[0] == '|' {
        if marks(s.skip(1), false) > 0 {
            1 + marks(s.skip(1), false)
        } else {
            0
        }
    } else if s[0] == '/' || s[0] == '\\' {
        if is_breathing(s[1]) {
            2
        } else {
            0
        }
    } else if is_bare(s[0]) {
        if marks(s.skip(1), true) > 0 {
            1 + marks(s.skip(1), true)
        } else {
            0
        }
    } else {
        0
    }
}

/// The breaches of the order in the text, each as the piece of text it
/// covers, from the left. Behind a breach, reading goes on with the next
/// character, so no two of them overlap.
pub open spec fn breaches(s: Seq<char>) -> Seq<Seq<char>>
    decreases s.len(),
{
    if s.len() == 0 {
        Seq::empty()
    } else if breach(s) > 0 {
        proof {
            lemma_breach_fits(s);
        }
        seq![s.take(breach(s) as int)] + breaches(s.skip(breach(s) as int))
    } else {
        breaches(s.skip(1))
    }
}

/// A breach lies within the text.
pub proof fn lemma_breach_fits(s: Seq<char>)
    ensures
        breach(s) <= s.len(),
{
    if s.len() >= 2 {
        lemma_marks(s, 1, false);
        lemma_marks(s, 1, true);
    }
}

/// What `marks` says of the text from `from` on: the run of marks ends at
/// the end of the text or before a character that is none.
pub proof fn lemma_marks(s: Seq<char>, from: int, with_iota: bool)
    requires
        0 <= from <= s.len(),
    ensures
        from + marks(s.skip(from), with_iota) <= s.len(),
        forall|j: int|
            from <= j < from + marks(s.skip(from), with_iota) ==> is_mark(#[trigger] s[j], with_iota),
        from + marks(s.skip(from), with_iota) < s.len() ==> !is_mark(
            s[from + marks(s.skip(from), with_iota)],
            with_iota,
        ),
    decreases s.len() - from,
{
    let rest = s.skip(from);
    if rest.len() > 0 && is_mark(rest[0], with_iota) {
        lemma_marks(s, from + 1, with_iota);
        assert(rest.skip(1) == s.skip(from + 1));
    }
}

/// Counts the marks of `text` from `from` on.
pub fn count_marks(text: &Vec<char>, from: usize, with_iota: bool) -> (n: usize)
    requires
        from <= text.len(),
    ensures
        n == marks(text@.skip(from as int), with_iota),
        from + n <= text.len(),
{
    let mut j: usize = from;
    proof {
        lemma_marks(text@, from as int, with_iota);
    }
    while j < text.len() && is_mark(text[j], with_iota)
        invariant
            from <= j <= text.len(),
            j <= from + marks(text@.skip(from as int), with_iota) <= text.len(),
            from + marks(text@.skip(from as int), with_iota) < text.len() ==> !is_mark(
                text@[from + marks(text@.skip(from as int), with_iota)],
                with_iota,
            ),
        decreases text.len() - j,
    {
        j += 1;
    }
    j - from
}

/// Measures the breach of the order in `text` at `from`: 0 where none starts
/// there.
pub fn measure_breach(text: &Vec<char>, from: usize) -> (n: usize)
    requires
        from <= text.len(),
    ensures
        n == breach(text@.skip(from as int)),
        from + n <= text.len(),
{
    let ghost rest = text@.skip(from as int);
    if text.len() - from < 2 {
        return 0;
    }
    assert(rest.skip(1) == text@.skip(from + 1));
    let first = text[from];
    if first == '|' {
        let run = count_marks(text, from + 1, false);
        if run > 0 {
            run + 1
        } else {
            0
        }
    } else if first == '/' || first == '\\' {
        if is_breathing(text[from + 1]) {
            2
        } else {
            0
        }
    } else if is_bare(first) {
        let run = count_marks(text, from + 1, true);
        if run > 0 {
            run + 1
        } else {
            0
        }
    } else {
        0
    }
}

/// No misplaced cluster starts anywhere in the text.
pub open spec fn is_settled(s: Seq<char>) -> bool {
    forall|i: int| 0 <= i < s.len() ==> misplaced(#[trigger] s.skip(i)) == 0
}

/// No breach of the order starts anywhere in the text.
pub open spec fn keeps_order(s: Seq<char>) -> bool {
    forall|i: int| 0 <= i < s.len() ==> breach(#[trigger] s.skip(i)) == 0
}

/// A text without a misplaced cluster is left as it is.
pub proof fn lemma_settled_text_stays(s: Seq<char>)
    requires
        is_settled(s),
    ensures
        reordered(s) == s,
    decreases s.len(),
{
    if s.len() > 0 {
        let rest = s.skip(1);
        assert(s.skip(0) == s);
        assert forall|i: int| 0 <= i < rest.len() implies misplaced(#[trigger] rest.skip(i))
            == 0 by {
            assert(rest.skip(i) == s.skip(i + 1));
        }
        lemma_settled_text_stays(rest);
    }
}

/// An accent and a breathing give the same whichever of them is written
/// first, where no further breathing follows them.
pub proof fn lemma_swapped_pair(accent: char, breathing: char, rest: Seq<char>)
    requires
        is_accent(accent),
        is_breathing(breathing),
        misplaced(seq![accent] + rest) == 0,
    ensures
        reordered(seq![accent, breathing] + rest) == seq![breathing, accent] + reordered(rest),
        reordered(seq![breathing, accent] + rest) == seq![breathing, accent] + reordered(rest),
{
    let swapped = seq![accent, breathing] + rest;
    assert(swapped.skip(2) == rest);

    let written = seq![breathing, accent] + rest;
    let tail = seq![accent] + rest;
    assert(written.skip(1) == tail);
    assert(tail.skip(1) == rest);
    assert(reordered(tail) == seq![accent] + reordered(rest));
    assert(seq![breathing] + (seq![accent] + reordered(rest)) == seq![breathing, accent]
        + reordered(rest));
}

/// The text has no breach to report exactly where it keeps the order
/// everywhere.
pub proof fn lemma_no_breaches(s: Seq<char>)
    ensures
        breaches(s).len() == 0 <==> keeps_order(s),
    decreases s.len(),
{
    if s.len() > 0 {
        let rest = s.skip(1);
        assert(s.skip(0) == s);
        lemma_no_breaches(rest);
        if breach(s) == 0 {
            if keeps_order(rest) {
                assert forall|i: int| 0 <= i < s.len() implies breach(#[trigger] s.skip(i))
                    == 0 by {
                    if i > 0 {
                        assert(rest.skip(i - 1) == s.skip(i));
                    }
                }
            }
            if keeps_order(s) {
                assert forall|i: int| 0 <= i < rest.len() implies breach(
                    #[trigger] rest.skip(i),
                ) == 0 by {
                    assert(rest.skip(i) == s.skip(i + 1));
                }
            }
        }
    }
}

} // verus!
