//! The forms of sigma: the final form at the end of a word, and the forms
//! that a digit behind the letter asks for.

use crate::alphabet::{
    ends_word, CAPITAL_LUNATE_SIGMA, CAPITAL_SIGMA, FINAL_SIGMA, LUNATE_SIGMA, SIGMA,
};
use vstd::prelude::*;

verus! {

/// The sigma at `i` is the last letter of its word: it ends the text or
/// stands before a character that ends a word.
pub open spec fn closes_word(s: Seq<char>, i: int) -> bool {
    &&& 0 <= i < s.len()
    &&& s[i] == SIGMA
    &&& (i + 1 == s.len() || ends_word(s[i + 1]))
}

/// The text with the final form for every sigma that is the last letter of
/// its word. Nothing else changes, and the length stays.
pub open spec fn final_sigmas(s: Seq<char>) -> Seq<char> {
    Seq::new(
        s.len(),
        |i: int|
            if closes_word(s, i) {
                FINAL_SIGMA
            } else {
                s[i]
            },
    )
}

/// The form that a sigma `letter` takes before the digit `digit`, where the
/// two make a variant: final before 1, lunate before 3, capital lunate for
/// the capital before 3.
pub open spec fn spec_sigma_variant(letter: char, digit: char) -> Option<char> {
    if letter == SIGMA && digit == '1' {
        Some(FINAL_SIGMA)
    } else if letter == SIGMA && digit == '3' {
        Some(LUNATE_SIGMA)
    } else if letter == CAPITAL_SIGMA && digit == '3' {
        Some(CAPITAL_LUNATE_SIGMA)
    } else {
        None
    }
}

/// Computes [`spec_sigma_variant`].
#[verifier::when_used_as_spec(spec_sigma_variant)]
pub fn sigma_variant(letter: char, digit: char) -> (form: Option<char>)
    ensures
        form == spec_sigma_variant(letter, digit),
{
    if letter == SIGMA && digit == '1' {
        Some(FINAL_SIGMA)
    } else if letter == SIGMA && digit == '3' {
        Some(LUNATE_SIGMA)
    } else if letter == CAPITAL_SIGMA && digit == '3' {
        Some(CAPITAL_LUNATE_SIGMA)
    } else {
        None
    }
}

/// The text with every sigma and digit that make a variant replaced by the
/// one character of that variant, read from the left.
pub open spec fn variants_resolved(s: Seq<char>) -> Seq<char>
    decreases s.len(),
{
    if s.len() == 0 {
        s
    } else if s.len() >= 2 && sigma_variant(s[0], s[1]) is Some {
        seq![sigma_variant(s[0], s[1])->0] + variants_resolved(s.skip(2))
    } else {
        seq![s[0]] + variants_resolved(s.skip(1))
    }
}

/// Gives every sigma that is the last letter of its word the final form.
pub fn finalize_sigmas(text: &Vec<char>) -> (out: Vec<char>)
    ensures
        out@ == final_sigmas(text@),
{
    let n = text.len();
    let mut out: Vec<char> = Vec::new();
    let mut i: usize = 0;
    while i < n
        invariant
            i <= n,
            n == text.len(),
            out@ == final_sigmas(text@).take(i as int),
        decreases n - i,
    {
        if text[i] == SIGMA && (i + 1 == n || ends_word(text[i + 1])) {
            out.push(FINAL_SIGMA);
        } else {
            out.push(text[i]);
        }
        i += 1;
    }
    out
}

/// Replaces every sigma and digit that make a variant by that variant.
pub fn resolve_variants(text: &Vec<char>) -> (out: Vec<char>)
    ensures
        out@ == variants_resolved(text@),
{
    let n = text.len();
    let mut out: Vec<char> = Vec::new();
    let mut i: usize = 0;
    assert(text@.skip(0) == text@);
    while i < n
        invariant
            i <= n,
            n == text.len(),
            out@ + variants_resolved(text@.skip(i as int)) == variants_resolved(text@),
        decreases n - i,
    {
        let ghost rest = text@.skip(i as int);
        let ghost done = out@;
        let form = if n - i > 1 {
            sigma_variant(text[i], text[i + 1])
        } else {
            None
        };
        let step: usize;
        if let Some(letter) = form {
            out.push(letter);
            step = 2;
        } else {
            out.push(text[i]);
            step = 1;
        }
        i += step;
        proof {
            assert(rest.skip(step as int) == text@.skip(i as int));
            assert(out@ + variants_resolved(rest.skip(step as int)) == done + variants_resolved(
                rest,
            ));
        }
    }
    out
}

/// The first character of a text, as a text; empty where the text is.
pub open spec fn head(s: Seq<char>) -> Seq<char> {
    if s.len() > 0 {
        seq![s[0]]
    } else {
        s
    }
}

/// The final sigmas of a text can be set part by part: the first part looks
/// no further than the first character of the second.
pub proof fn lemma_final_sigmas_in_parts(a: Seq<char>, b: Seq<char>)
    ensures
        final_sigmas(a + b) == final_sigmas(a + head(b)).take(a.len() as int) + final_sigmas(b),
{
    let whole = a + b;
    let near = a + head(b);
    let parts = final_sigmas(near).take(a.len() as int) + final_sigmas(b);
    assert forall|i: int| 0 <= i < whole.len() implies final_sigmas(whole)[i] == parts[i] by {
        if i < a.len() {
            if i + 1 < whole.len() {
                assert(whole[i + 1] == near[i + 1]);
            }
        } else {
            let j = i - a.len();
            if j + 1 < b.len() {
                assert(whole[i + 1] == b[j + 1]);
            }
        }
    }
}

/// The sigma variants of a text can be resolved part by part, where the
/// first part does not end in a sigma that the second part gives a digit.
pub proof fn lemma_variants_resolved_in_parts(a: Seq<char>, b: Seq<char>)
    requires
        a.len() > 0 && b.len() > 0 ==> sigma_variant(a.last(), b[0]) is None,
    ensures
        variants_resolved(a + b) == variants_resolved(a) + variants_resolved(b),
    decreases a.len(),
{
    let whole = a + b;
    if a.len() == 0 {
        assert(whole == b);
    } else if a.len() >= 2 && sigma_variant(a[0], a[1]) is Some {
        let rest = a.skip(2);
        assert(whole.skip(2) == rest + b);
        lemma_variants_resolved_in_parts(rest, b);
        assert(seq![sigma_variant(a[0], a[1])->0] + (variants_resolved(rest) + variants_resolved(
            b,
        )) == (seq![sigma_variant(a[0], a[1])->0] + variants_resolved(rest)) + variants_resolved(
            b,
        ));
    } else {
        let rest = a.skip(1);
        assert(whole.skip(1) == rest + b);
        lemma_variants_resolved_in_parts(rest, b);
        assert(seq![a[0]] + (variants_resolved(rest) + variants_resolved(b)) == (seq![a[0]]
            + variants_resolved(rest)) + variants_resolved(b));
    }
}

} // verus!
