//! From Greek text back to Betacode: each Greek character gives the token
//! that spells it.
//!
//! Capitals are always spelled with the marker `*` and the small letter. A
//! final sigma is spelled `s` where the conversion would find it to be the
//! last letter of its word, and `s1` elsewhere.

use crate::alphabet::{
    archaic_name, ends_word, is_upper, latin, lower, CAPITAL_LUNATE_SIGMA, FINAL_SIGMA,
    LUNATE_SIGMA,
};
use vstd::prelude::*;

verus! {

/// The Betacode token of one Greek character, whatever stands around it:
/// the character of the table, with `*` and the small letter for a capital;
/// `#` and the digit for an archaic letter, with `*` before them for its
/// capital; `s3` for the lunate sigma. Any other character spells itself.
pub open spec fn spelling(g: char) -> Seq<char> {
    if latin(g) is Some {
        if is_upper(latin(g)->0) {
            seq!['*', lower(latin(g)->0)]
        } else {
            seq![latin(g)->0]
        }
    } else if archaic_name(g) is Some {
        if (archaic_name(g)->0).1 {
            seq!['*', '#', (archaic_name(g)->0).0]
        } else {
            seq!['#', (archaic_name(g)->0).0]
        }
    } else if g == LUNATE_SIGMA {
        seq!['s', '3']
    } else if g == CAPITAL_LUNATE_SIGMA {
        seq!['*', 's', '3']
    } else {
        seq![g]
    }
}

/// The Betacode token of the first character of a text: its spelling, but
/// for a final sigma `s` where the text ends behind it or goes on with a
/// character that ends a word, and `s1` elsewhere.
pub open spec fn first_token(s: Seq<char>) -> Seq<char>
    recommends
        s.len() > 0,
{
    if s[0] == FINAL_SIGMA {
        if s.len() == 1 || ends_word(s[1]) {
            seq!['s']
        } else {
            seq!['s', '1']
        }
    } else {
        spelling(s[0])
    }
}

/// The Betacode text that spells a Greek text, character by character.
pub open spec fn encoded(s: Seq<char>) -> Seq<char>
    decreases s.len(),
{
    if s.len() == 0 {
        s
    } else {
        first_token(s) + encoded(s.skip(1))
    }
}

/// Appends the spelling of the Greek character `g` to `out`.
pub fn spell(g: char, out: &mut Vec<char>)
    ensures
        final(out)@ == old(out)@ + spelling(g),
{
    let ghost before = out@;
    if let Some(c) = latin(g) {
        if is_upper(c) {
            out.push('*');
            out.push(lower(c));
        } else {
            out.push(c);
        }
    } else if let Some((digit, capital)) = archaic_name(g) {
        if capital {
            out.push('*');
        }
        out.push('#');
        out.push(digit);
    } else if g == LUNATE_SIGMA {
        out.push('s');
        out.push('3');
    } else if g == CAPITAL_LUNATE_SIGMA {
        out.push('*');
        out.push('s');
        out.push('3');
    } else {
        out.push(g);
    }
}

/// Spells the Greek text `text` in Betacode.
pub fn encode(text: &Vec<char>) -> (out: Vec<char>)
    ensures
        out@ == encoded(text@),
{
    let n = text.len();
    let mut out: Vec<char> = Vec::new();
    let mut i: usize = 0;
    assert(text@.skip(0) == text@);
    while i < n
        invariant
            i <= n,
            n == text.len(),
            out@ + encoded(text@.skip(i as int)) == encoded(text@),
        decreases n - i,
    {
        let ghost rest = text@.skip(i as int);
        let ghost done = out@;
        if text[i] == FINAL_SIGMA {
            out.push('s');
            if !(n - i == 1 || ends_word(text[i + 1])) {
                out.push('1');
            }
        } else {
            spell(text[i], &mut out);
        }
        i += 1;
        proof {
            assert(rest.skip(1) == text@.skip(i as int));
        }
    }
    out
}

} // verus!
