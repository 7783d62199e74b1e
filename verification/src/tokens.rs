//! The substitution stage: every Betacode token gives its Greek character.
//!
//! A token is one character, or `#` and a digit for an archaic letter, or
//! `*`, `#` and a digit for its capital. The longer token is taken wherever
//! it stands, so its characters are never read as tokens of their own.

use crate::alphabet::{archaic, glyph};
use vstd::prelude::*;

verus! {

/// The Greek text that the Betacode text stands for, token by token from the
/// left; a character that belongs to no token is kept.
pub open spec fn substituted(s: Seq<char>) -> Seq<char>
    decreases s.len(),
{
    if s.len() == 0 {
        s
    } else if s.len() >= 3 && s[0] == '*' && s[1] == '#' && archaic(s[2], true) is Some {
        seq![archaic(s[2], true)->0] + substituted(s.skip(3))
    } else if s.len() >= 2 && s[0] == '#' && archaic(s[1], false) is Some {
        seq![archaic(s[1], false)->0] + substituted(s.skip(2))
    } else {
        seq![glyph(s[0])] + substituted(s.skip(1))
    }
}

/// Replaces the Betacode tokens of `text` by their Greek characters.
pub fn substitute(text: &Vec<char>) -> (out: Vec<char>)
    ensures
        out@ == substituted(text@),
{
    let n = text.len();
    let mut out: Vec<char> = Vec::new();
    let mut i: usize = 0;
    assert(text@.skip(0) == text@);
    while i < n
        invariant
            i <= n,
            n == text.len(),
            out@ + substituted(text@.skip(i as int)) == substituted(text@),
        decreases n - i,
    {
        let ghost rest = text@.skip(i as int);
        let ghost done = out@;
        let capital = if n - i > 2 && text[i] == '*' && text[i + 1] == '#' {
            archaic(text[i + 2], true)
        } else {
            None
        };
        let small = if n - i > 1 && text[i] == '#' {
            archaic(text[i + 1], false)
        } else {
            None
        };
        let step: usize;
        if let Some(letter) = capital {
            out.push(letter);
            step = 3;
        } else if let Some(letter) = small {
            out.push(letter);
            step = 2;
        } else {
            out.push(glyph(text[i]));
            step = 1;
        }
        i += step;
        proof {
            assert(rest.skip(step as int) == text@.skip(i as int));
        }
    }
    out
}

/// The text with each character replaced by its Greek character, one for
/// one.
pub open spec fn glyphs(s: Seq<char>) -> Seq<char> {
    Seq::new(s.len(), |i: int| glyph(s[i]))
}

/// In a text without `#` every token is one character, so the substitution
/// goes character by character.
pub proof fn lemma_single_characters(s: Seq<char>)
    requires
        !s.contains('#'),
    ensures
        substituted(s) == glyphs(s),
    decreases s.len(),
{
    if s.len() > 0 {
        let rest = s.skip(1);
        if s.len() >= 2 {
            assert(s[1] != '#');
        }
        assert forall|i: int| 0 <= i < rest.len() implies rest[i] != '#' by {
            assert(rest[i] == s[i + 1]);
        }
        lemma_single_characters(rest);
    }
}

/// The tokens of a text can be substituted part by part, where the first
/// part does not end in `*` or `#`.
pub proof fn lemma_substituted_in_parts(a: Seq<char>, b: Seq<char>)
    requires
        a.len() > 0 ==> a.last() != '*' && a.last() != '#',
    ensures
        substituted(a + b) == substituted(a) + substituted(b),
    decreases a.len(),
{
    let whole = a + b;
    if a.len() == 0 {
        assert(whole == b);
    } else if a.len() >= 3 && a[0] == '*' && a[1] == '#' && archaic(a[2], true) is Some {
        let rest = a.skip(3);
        assert(whole.skip(3) == rest + b);
        lemma_substituted_in_parts(rest, b);
        assert(seq![archaic(a[2], true)->0] + (substituted(rest) + substituted(b)) == (seq![
            archaic(a[2], true)->0,
        ] + substituted(rest)) + substituted(b));
    } else if a.len() >= 2 && a[0] == '#' && archaic(a[1], false) is Some {
        let rest = a.skip(2);
        assert(whole.skip(2) == rest + b);
        lemma_substituted_in_parts(rest, b);
        assert(seq![archaic(a[1], false)->0] + (substituted(rest) + substituted(b)) == (seq![
            archaic(a[1], false)->0,
        ] + substituted(rest)) + substituted(b));
    } else {
        let rest = a.skip(1);
        assert(whole.skip(1) == rest + b);
        lemma_substituted_in_parts(rest, b);
        assert(seq![glyph(a[0])] + (substituted(rest) + substituted(b)) == (seq![glyph(a[0])]
            + substituted(rest)) + substituted(b));
    }
}

} // verus!
