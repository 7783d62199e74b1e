//! What holds of the conversion as a whole.

use crate::alphabet::{
    archaic_name, ends_word, glyph, is_accent, is_letter, is_upper, latin, lemma_archaic_names,
    lemma_glyph_of_latin, lower, upper, CAPITAL_LUNATE_SIGMA, CAPITAL_SIGMA, FINAL_SIGMA,
    LUNATE_SIGMA, SIGMA,
};
use crate::case::{
    case_resolved, folded, has_capital, has_small_letter, lemma_markers_resolved_in_parts,
    lemma_no_markers, lemma_small_text, markers_resolved,
};
use crate::converter::{assembled, converted, nfkc};
use crate::diacritics::{
    iotas, is_settled, lemma_iotas, lemma_settled_text_stays, misplaced,
};
use crate::inverse::{encoded, first_token};
use crate::sigma::{
    closes_word, final_sigmas, head, lemma_final_sigmas_in_parts,
    lemma_variants_resolved_in_parts, sigma_variant, variants_resolved,
};
use crate::tokens::{glyphs, lemma_single_characters, lemma_substituted_in_parts, substituted};
use vstd::prelude::*;

verus! {

/// A text of letters alone has no cluster of diacritics to put in order.
pub proof fn lemma_letters_are_settled(s: Seq<char>)
    requires
        forall|i: int| 0 <= i < s.len() ==> is_letter(#[trigger] s[i]),
    ensures
        is_settled(s),
{
    assert forall|i: int| 0 <= i < s.len() implies misplaced(#[trigger] s.skip(i)) == 0 by {
        let rest = s.skip(i);
        lemma_iotas(s, i);
        let accent = iotas(rest) as int;
        if accent < rest.len() {
            assert(is_letter(s[i + accent]));
        }
    }
}

/// A text of letters alone is converted letter by letter: each letter gives
/// the Greek letter of the table, and nothing else happens to the text but
/// that a sigma at its end takes the final form and that the result is
/// normalized. The case of the letters is kept where the text holds a small
/// letter; a text all in capitals is folded first.
pub proof fn lemma_letters_go_by_the_table(s: Seq<char>)
    requires
        forall|i: int| 0 <= i < s.len() ==> is_letter(#[trigger] s[i]),
    ensures
        has_small_letter(s) ==> assembled(s) == final_sigmas(glyphs(s)),
        !has_small_letter(s) ==> assembled(s) == final_sigmas(glyphs(folded(s))),
        has_small_letter(s) && s.last() != 's' ==> assembled(s) == glyphs(s) && converted(s)
            == variants_resolved(nfkc(glyphs(s))),
{
    let plain = case_resolved(s);
    assert(!s.contains('*')) by {
        if s.contains('*') {
            let i = choose|i: int| 0 <= i < s.len() && s[i] == '*';
            assert(is_letter(s[i]));
        }
    }
    assert forall|i: int| 0 <= i < plain.len() implies is_letter(#[trigger] plain[i]) by {
        assert(is_letter(s[i]));
    }
    lemma_letters_are_settled(plain);
    lemma_settled_text_stays(plain);
    assert(!plain.contains('#')) by {
        if plain.contains('#') {
            let i = choose|i: int| 0 <= i < plain.len() && plain[i] == '#';
            assert(is_letter(plain[i]));
        }
    }
    lemma_single_characters(plain);
    if has_small_letter(s) && s.last() != 's' {
        let greek = glyphs(s);
        assert forall|i: int| 0 <= i < greek.len() implies !closes_word(greek, i) by {
            assert(is_letter(s[i]));
            if i + 1 < s.len() {
                assert(is_letter(s[i + 1]));
            }
        }
    }
}

/// A character that Betacode gives a meaning to: an ASCII letter, a
/// character that the table replaces, a marker, or a digit that chooses a
/// form of sigma.
pub open spec fn is_reserved(c: char) -> bool {
    is_letter(c) || glyph(c) != c || c == '*' || c == '#' || c == '1' || c == '3'
}

/// A text that holds no character that Betacode gives a meaning to, as a
/// Greek text does.
pub open spec fn is_plain(t: Seq<char>) -> bool {
    forall|i: int| 0 <= i < t.len() ==> !is_reserved(#[trigger] t[i])
}

/// What the spelling of the first character of a Greek text gives when its
/// marker is resolved and its token substituted: the character itself, but
/// a sigma with its digit for a final sigma inside a word and for a lunate
/// sigma, and the medial sigma for a final sigma at the end of a word.
spec fn first_read(t: Seq<char>) -> Seq<char>
    recommends
        t.len() > 0,
{
    if t[0] == FINAL_SIGMA {
        if t.len() == 1 || ends_word(t[1]) {
            seq![SIGMA]
        } else {
            seq![SIGMA, '1']
        }
    } else if t[0] == LUNATE_SIGMA {
        seq![SIGMA, '3']
    } else if t[0] == CAPITAL_LUNATE_SIGMA {
        seq![CAPITAL_SIGMA, '3']
    } else {
        seq![t[0]]
    }
}

/// The spelling of a Greek text with its markers resolved and its tokens
/// substituted.
spec fn tokens_read(t: Seq<char>) -> Seq<char> {
    substituted(markers_resolved(encoded(t)))
}

/// The token of the first character of a Greek text is read as that
/// character, but for the forms of sigma, and it ends where the reading of a
/// token can end.
proof fn lemma_first_token_read(t: Seq<char>)
    requires
        t.len() > 0,
        !is_reserved(t[0]),
    ensures
        first_token(t).len() > 0,
        first_token(t).last() != '*',
        !has_capital(first_token(t)),
        markers_resolved(first_token(t)).len() > 0,
        markers_resolved(first_token(t)).last() != '*',
        markers_resolved(first_token(t)).last() != '#',
        substituted(markers_resolved(first_token(t))) == first_read(t),
{
    let g = t[0];
    let token = first_token(t);
    let empty = Seq::<char>::empty();
    assert(markers_resolved(empty) == empty);
    assert(substituted(empty) == empty);
    if g != FINAL_SIGMA && latin(g) is Some && is_upper(latin(g)->0) {
        let c = latin(g)->0;
        lemma_glyph_of_latin(g);
        assert(token.skip(2) == empty);
        lemma_single_characters(seq![c]);
    } else if g != FINAL_SIGMA && latin(g) is None && archaic_name(g) is Some {
        let digit = (archaic_name(g)->0).0;
        let capital = (archaic_name(g)->0).1;
        lemma_archaic_names(g, digit, capital);
        let name = seq!['#', digit];
        lemma_no_markers(name);
        if capital {
            assert(token.skip(1) == name);
            assert(markers_resolved(token) == token);
            assert(token.skip(3) == empty);
        } else {
            assert(name.skip(2) == empty);
        }
    } else if g != FINAL_SIGMA && latin(g) is None && archaic_name(g) is None && g
        == CAPITAL_LUNATE_SIGMA {
        assert(token.skip(2) == seq!['3']);
        lemma_no_markers(seq!['3']);
        let resolved = seq!['S', '3'];
        assert(markers_resolved(token) == resolved);
        lemma_single_characters(resolved);
    } else {
        if latin(g) is Some {
            lemma_glyph_of_latin(g);
        }
        lemma_no_markers(token);
        lemma_single_characters(token);
    }
}

/// The spelling of a Greek text is read token by token.
proof fn lemma_tokens_read_in_steps(t: Seq<char>)
    requires
        t.len() > 0,
        !is_reserved(t[0]),
    ensures
        tokens_read(t) == first_read(t) + tokens_read(t.skip(1)),
{
    let token = first_token(t);
    let rest = encoded(t.skip(1));
    lemma_first_token_read(t);
    lemma_markers_resolved_in_parts(token, rest);
    lemma_substituted_in_parts(markers_resolved(token), markers_resolved(rest));
}

/// The spelling of a Greek text holds no ASCII capital.
proof fn lemma_spelling_has_no_capital(t: Seq<char>)
    requires
        is_plain(t),
    ensures
        !has_capital(encoded(t)),
    decreases t.len(),
{
    if t.len() > 0 {
        let token = first_token(t);
        let rest = encoded(t.skip(1));
        lemma_first_token_read(t);
        assert(is_plain(t.skip(1)));
        lemma_spelling_has_no_capital(t.skip(1));
        let whole = token + rest;
        if has_capital(whole) {
            let i = choose|i: int| 0 <= i < whole.len() && is_upper(#[trigger] whole[i]);
            assert(i < token.len() || whole[i] == rest[i - token.len()]);
        }
    }
}

/// With its tokens read, the spelling of a Greek text differs from the text
/// in the forms of sigma alone, and the two sigma stages put those back.
proof fn lemma_sigmas_read_back(t: Seq<char>)
    requires
        is_plain(t),
        final_sigmas(t) == t,
    ensures
        variants_resolved(final_sigmas(tokens_read(t))) == t,
    decreases t.len(),
{
    let empty = Seq::<char>::empty();
    if t.len() > 0 {
        let rest = t.skip(1);
        assert(is_plain(rest));
        assert(final_sigmas(rest) == rest) by {
            assert(forall|i: int|
                0 <= i < rest.len() ==> closes_word(rest, i) == closes_word(t, i + 1));
        }
        lemma_sigmas_read_back(rest);
        lemma_tokens_read_in_steps(t);
        let first = first_read(t);
        let after = tokens_read(rest);
        if rest.len() > 0 {
            lemma_tokens_read_in_steps(rest);
        }
        lemma_final_sigmas_in_parts(first, after);
        let near = first + head(after);
        let set = final_sigmas(near).take(first.len() as int);
        let later = final_sigmas(after);
        assert(variants_resolved(empty) == empty);
        assert(variants_resolved(set) == seq![t[0]]) by {
            if t[0] == FINAL_SIGMA && (t.len() == 1 || ends_word(t[1])) {
                assert(set.skip(1) == empty);
            } else if first.len() == 2 {
                assert(set.skip(2) == empty);
                assert(variants_resolved(set) == seq![sigma_variant(first[0], first[1])->0]
                    + empty);
            } else {
                assert(!closes_word(near, 0));
                assert(set.skip(1) == empty);
            }
        }
        lemma_variants_resolved_in_parts(set, later);
    }
}

/// Behind the iota subscripts at its front a text goes on alike before and
/// after its markers are resolved: with the same character, or where that
/// is `*`, with `*` or a capital.
proof fn lemma_front_outlasts_markers(w: Seq<char>)
    ensures
        iotas(markers_resolved(w)) == iotas(w),
        iotas(w) < w.len() <==> iotas(w) < markers_resolved(w).len(),
        iotas(w) < w.len() && w[iotas(w) as int] != '*' ==> markers_resolved(w)[iotas(w) as int]
            == w[iotas(w) as int],
        iotas(w) < w.len() && w[iotas(w) as int] == '*' ==> markers_resolved(w)[iotas(w) as int]
            == '*' || is_upper(markers_resolved(w)[iotas(w) as int]),
    decreases w.len(),
{
    if w.len() > 0 && w[0] == '|' {
        let rest = w.skip(1);
        lemma_front_outlasts_markers(rest);
        let resolved = markers_resolved(w);
        assert(resolved.skip(1) == markers_resolved(rest));
    }
}

/// Resolving the markers of a text neither makes nor breaks a misplaced
/// cluster at its front.
pub proof fn lemma_markers_keep_clusters(s: Seq<char>)
    ensures
        misplaced(markers_resolved(s)) == misplaced(s),
{
    let resolved = markers_resolved(s);
    let accent = iotas(s) as int;
    lemma_front_outlasts_markers(s);
    lemma_iotas(s, 0);
    assert(s.skip(0) == s);
    if accent < s.len() && is_accent(s[accent]) {
        let front = s.take(accent + 1);
        let rest = s.skip(accent + 1);
        assert(front + rest == s);
        assert(!front.contains('*')) by {
            if front.contains('*') {
                let i = choose|i: int| 0 <= i < front.len() && front[i] == '*';
                assert(front[i] == s[i]);
            }
        }
        lemma_no_markers(front);
        lemma_markers_resolved_in_parts(front, rest);
        assert(resolved.skip(accent + 1) == markers_resolved(rest));
        lemma_front_outlasts_markers(rest);
        let breathing = iotas(rest) as int;
        lemma_iotas(rest, 0);
        if breathing < rest.len() {
            assert(resolved[accent + 1 + breathing] == markers_resolved(rest)[breathing]);
        }
    }
}

/// Resolving the markers of a text without a misplaced cluster leaves it
/// without one.
pub proof fn lemma_markers_keep_settled(s: Seq<char>)
    requires
        is_settled(s),
    ensures
        is_settled(markers_resolved(s)),
    decreases s.len(),
{
    let resolved = markers_resolved(s);
    if s.len() > 0 {
        let step: int = if s.len() >= 2 && s[0] == '*' && is_letter(s[1]) {
            2
        } else {
            1
        };
        let rest = s.skip(step);
        assert forall|i: int| 0 <= i < rest.len() implies misplaced(#[trigger] rest.skip(i))
            == 0 by {
            assert(rest.skip(i) == s.skip(i + step));
        }
        lemma_markers_keep_settled(rest);
        lemma_markers_keep_clusters(s);
        assert(s.skip(0) == s);
        assert forall|i: int| 0 <= i < resolved.len() implies misplaced(
            #[trigger] resolved.skip(i),
        ) == 0 by {
            if i == 0 {
                assert(resolved.skip(0) == resolved);
            } else {
                assert(resolved.skip(i) == markers_resolved(rest).skip(i - 1));
            }
        }
    }
}

/// A Greek text is read back from its spelling. Where a text holds no
/// character that Betacode gives a meaning to and no medial sigma at the
/// end of a word, and its spelling holds no cluster of diacritics out of
/// order, the stages of the conversion other than the normalization take
/// the spelling back to the text itself.
pub proof fn lemma_spelling_reads_back(t: Seq<char>)
    requires
        is_plain(t),
        final_sigmas(t) == t,
        is_settled(encoded(t)),
    ensures
        variants_resolved(assembled(encoded(t))) == t,
{
    let spelled = encoded(t);
    lemma_spelling_has_no_capital(t);
    lemma_small_text(spelled);
    lemma_markers_keep_settled(spelled);
    lemma_settled_text_stays(markers_resolved(spelled));
    lemma_sigmas_read_back(t);
}

} // verus!
