//! Conversion between ASCII Betacode and Greek Unicode text.
//!
//! `convert` runs the stages in a fixed order: the capital notation is
//! resolved, misplaced diacritics are put in order, every token gives its
//! Greek character, a sigma that is the last letter of its word takes the
//! final form, the text is brought to Normalization Form KC, and the sigma
//! variants that a digit asks for are put in. `revert` decomposes a Greek
//! text and spells it in Betacode.
//!
//! Each stage is also a function of its own, from text to text.

use crate::case::{case_resolved, markers_resolved, resolve_case, resolve_markers};
use crate::diacritics::{reorder, reordered};
use crate::inverse::{encode, encoded};
use crate::sigma::{
    final_sigmas, finalize_sigmas, resolve_variants, variants_resolved,
};
use crate::text::{chars_of, string_of};
use crate::tokens::{substitute, substituted};
use unicode_normalization::UnicodeNormalization;
use vstd::prelude::*;

verus! {

/// The Normalization Form KC of a text: its compatibility decomposition
/// followed by canonical composition.
pub uninterp spec fn nfkc(s: Seq<char>) -> Seq<char>;

/// The Normalization Form D of a text: its canonical decomposition.
pub uninterp spec fn nfd(s: Seq<char>) -> Seq<char>;

/// `UnicodeNormalization::nfkc` on a string slice, collected into a string:
/// the result is the Normalization Form KC of the input.
#[verifier::external_body]
fn normalize_unicode(input: &str) -> (out: String)
    ensures
        out@ == nfkc(input@),
{
    input.nfkc().collect::<String>()
}

/// `UnicodeNormalization::nfd` on a string slice, collected into a string:
/// the result is the Normalization Form D of the input.
#[verifier::external_body]
fn decompose_unicode(input: &str) -> (out: String)
    ensures
        out@ == nfd(input@),
{
    input.nfd().collect::<String>()
}

/// The Greek text of a Betacode text before it is normalized: the capital
/// notation resolved, the diacritics in order, the tokens substituted, the
/// final sigmas in place.
pub open spec fn assembled(s: Seq<char>) -> Seq<char> {
    final_sigmas(substituted(reordered(case_resolved(s))))
}

/// The Greek text that a Betacode text converts to.
pub open spec fn converted(s: Seq<char>) -> Seq<char> {
    variants_resolved(nfkc(assembled(s)))
}

/// The Betacode text that a Greek text reverts to.
pub open spec fn reverted(s: Seq<char>) -> Seq<char> {
    encoded(nfd(s))
}

/// Resolves the capital markers: a `*` directly before a letter is dropped
/// and the letter is made a capital. Every other character is kept, a `*`
/// before anything but a letter too.
pub fn find_upper(input: &str) -> (out: String)
    ensures
        out@ == markers_resolved(input@),
{
    let text = chars_of(input);
    let text = resolve_markers(&text);
    string_of(&text)
}

/// Puts misplaced diacritics in the order breathing or diaeresis, accent,
/// iota subscript.
pub fn reorder_diacritics(input: &str) -> (out: String)
    ensures
        out@ == reordered(input@),
{
    let text = chars_of(input);
    let text = reorder(&text);
    string_of(&text)
}

/// Replaces every Betacode token by its Greek character.
pub fn ascii_to_unicode(input: &str) -> (out: String)
    ensures
        out@ == substituted(input@),
{
    let text = chars_of(input);
    let text = substitute(&text);
    string_of(&text)
}

/// Gives the final form to every sigma that is the last letter of its word.
pub fn sigma_handler(input: &str) -> (out: String)
    ensures
        out@ == final_sigmas(input@),
{
    let text = chars_of(input);
    let text = finalize_sigmas(&text);
    string_of(&text)
}

/// Puts in the sigma variants that a digit asks for: the final sigma for a
/// sigma before 1, the lunate sigma for a sigma before 3.
pub fn special_sigma(input: &str) -> (out: String)
    ensures
        out@ == variants_resolved(input@),
{
    let text = chars_of(input);
    let text = resolve_variants(&text);
    string_of(&text)
}

/// Spells a decomposed Greek text in Betacode.
pub fn unicode_to_ascii(input: &str) -> (out: String)
    ensures
        out@ == encoded(input@),
{
    let text = chars_of(input);
    let text = encode(&text);
    string_of(&text)
}

/// Converts a Betacode text to Greek Unicode text.
///
/// Every input has a result: a character that is no Betacode is kept as it
/// is, a diacritic with no letter before it becomes a combining mark of its
/// own, and a text that mixes the two notations for capitals keeps its
/// capitals as written.
pub fn convert(input: &str) -> (out: String)
    ensures
        out@ == converted(input@),
{
    let text = chars_of(input);
    let text = resolve_case(&text);
    let text = reorder(&text);
    let text = substitute(&text);
    let text = finalize_sigmas(&text);
    let normal = normalize_unicode(string_of(&text).as_str());
    special_sigma(normal.as_str())
}

/// Reverts a Greek Unicode text to Betacode.
pub fn revert(input: &str) -> (out: String)
    ensures
        out@ == reverted(input@),
{
    let parts = decompose_unicode(input);
    unicode_to_ascii(parts.as_str())
}

} // verus!
