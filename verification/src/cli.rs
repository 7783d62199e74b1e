//! What the command line asks of the library: one text through validation
//! and conversion, with the policy on which findings stop the conversion.

use crate::case::mixes_notations;
use crate::converter::{convert, converted, revert, reverted};
use crate::validator::{
    message_of, mixed_case, notation_verdict, validate, verdict, Finding, ValidationError,
};
use vstd::prelude::*;

verus! {

/// The arguments of the command line.
#[derive(Debug, PartialEq, Eq)]
pub struct Args {
    /// `text` names a file that holds the text.
    pub file: bool,
    /// Every finding of the validation stops the conversion.
    pub strict: bool,
    /// The text, or the name of the file that holds it.
    pub text: Option<String>,
    /// The name of the file to write to; standard output where there is none.
    pub output: Option<String>,
    /// Greek text is reverted to Betacode.
    pub inverse: bool,
}

/// The result of a conversion, with the text and the error as mathematical
/// values.
pub open spec fn shown(r: Result<String, ValidationError>) -> Result<Seq<char>, Finding> {
    match r {
        Ok(text) => Ok(text@),
        Err(e) => Err(e@),
    }
}

/// A finding after which no conversion makes sense: a character outside
/// ASCII or outside the alphabet.
pub open spec fn is_fatal(finding: Finding) -> bool {
    finding is NotASCII || finding is InvalidChars
}

/// The lenient conversion of a text: the text converted, unless validation
/// has a fatal finding. Diacritics out of order do not stop it, as the
/// conversion puts them in order.
pub open spec fn line_converted(s: Seq<char>) -> Result<Seq<char>, Finding> {
    match verdict(s) {
        Err(finding) => if is_fatal(finding) {
            Err(finding)
        } else {
            Ok(converted(s))
        },
        Ok(_) => Ok(converted(s)),
    }
}

/// The strict conversion of a text: the text converted, unless validation
/// has any finding or the text mixes the notations of capitals.
pub open spec fn line_converted_strict(s: Seq<char>) -> Result<Seq<char>, Finding> {
    match verdict(s) {
        Err(finding) => Err(finding),
        Ok(_) => match notation_verdict(s) {
            Err(finding) => Err(finding),
            Ok(_) => Ok(converted(s)),
        },
    }
}

/// What the command line gives for a text: the text reverted where the
/// inverse is asked for, else converted, strictly where that is asked for.
pub open spec fn transliterated(args: Args, s: Seq<char>) -> Result<Seq<char>, Finding> {
    if args.inverse {
        Ok(reverted(s))
    } else if args.strict {
        line_converted_strict(s)
    } else {
        line_converted(s)
    }
}

/// Converts a text and lets pass what the conversion can mend.
pub fn convert_line(input: &str) -> (r: Result<String, ValidationError>)
    ensures
        shown(r) == line_converted(input@),
{
    match validate(input) {
        Ok(_) => Ok(convert(input)),
        Err(e) => match e {
            ValidationError::NotASCII(_) => Err(e),
            ValidationError::InvalidChars(_) => Err(e),
            _ => Ok(convert(input)),
        },
    }
}

/// Converts a text that validation accepts and that marks its capitals in
/// one notation.
pub fn convert_line_strict(input: &str) -> (r: Result<String, ValidationError>)
    ensures
        shown(r) == line_converted_strict(input@),
{
    match validate(input) {
        Err(e) => Err(e),
        Ok(_) => match mixed_case(input) {
            Err(e) => Err(e),
            Ok(_) => Ok(convert(input)),
        },
    }
}

/// Reverts a Greek text to Betacode.
pub fn revert_line(input: &str) -> (out: String)
    ensures
        out@ == reverted(input@),
{
    revert(input)
}

/// Does to `input` what the arguments ask for.
pub fn transliterate(args: &Args, input: &str) -> (r: Result<String, ValidationError>)
    ensures
        shown(r) == transliterated(*args, input@),
{
    if args.inverse {
        Ok(revert_line(input))
    } else if args.strict {
        convert_line_strict(input)
    } else {
        convert_line(input)
    }
}

/// Whether the command line warns of mixed notations: where it converts
/// leniently a text that mixes them.
pub open spec fn warned(args: Args, s: Seq<char>) -> bool {
    !args.inverse && !args.strict && mixes_notations(s)
}

/// Whether the user is to be warned that the text mixes the notations of
/// capitals and may come out with errors.
pub fn warns(args: &Args, input: &str) -> (b: bool)
    ensures
        b == warned(*args, input@),
{
    !args.inverse && !args.strict && mixed_case(input).is_err()
}

/// What went wrong, in a sentence that says which rule the text breaks.
pub open spec fn reason_of(finding: Finding) -> Seq<char> {
    match finding {
        Finding::NotASCII(_) => "Text passed is not in ASCII."@,
        Finding::InvalidChars(_) =>
            "Text passed violates ASCII Betacode standards as applied here."@,
        Finding::InvalidDiacriticOrder(_) =>
            "Text passed violates ASCII Betacode standards as applied here."@,
        Finding::MixedCaseNotation =>
            "Text passed contains both * and upper case ASCII for Greek Upper notation."@,
    }
}

/// The sentence that says which rule the text breaks.
pub fn reason(error: &ValidationError) -> (out: &'static str)
    ensures
        out@ == reason_of(error@),
{
    match error {
        ValidationError::NotASCII(_) => "Text passed is not in ASCII.",
        ValidationError::InvalidChars(_) =>
            "Text passed violates ASCII Betacode standards as applied here.",
        ValidationError::InvalidDiacriticOrder(_) =>
            "Text passed violates ASCII Betacode standards as applied here.",
        ValidationError::MixedCaseNotation =>
            "Text passed contains both * and upper case ASCII for Greek Upper notation.",
    }
}

/// What the user is told when a conversion is refused: the reason, and on
/// the next line the message of the error.
pub fn explain(error: &ValidationError) -> (out: String)
    ensures
        out@ == reason_of(error@) + "\n"@ + message_of(error@),
{
    let text = String::from_str(reason(error)).concat("\n");
    text.concat(error.message().as_str())
}

} // verus!
