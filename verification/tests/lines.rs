use betacode::cli::{
    convert_line, convert_line_strict, explain, reason, revert_line, transliterate, warns, Args,
};
use betacode::validator::ValidationError;

fn args(strict: bool, inverse: bool) -> Args {
    Args { file: false, strict, text: None, output: None, inverse }
}

#[test]
fn a_valid_line_is_converted() {
    assert_eq!(convert_line("mh=nin a)/eide"), Ok("\u{03bc}\u{1fc6}\u{03bd}\u{03b9}\u{03bd} \u{1f04}\u{03b5}\u{03b9}\u{03b4}\u{03b5}".to_string()));
    assert_eq!(convert_line_strict("mh=nin a)/eide"), Ok("\u{03bc}\u{1fc6}\u{03bd}\u{03b9}\u{03bd} \u{1f04}\u{03b5}\u{03b9}\u{03b4}\u{03b5}".to_string()));
    assert_eq!(convert_line(""), Ok(String::new()));
    assert_eq!(convert_line_strict(""), Ok(String::new()));
}

#[test]
fn misplaced_diacritics_stop_only_the_strict_conversion() {
    assert_eq!(convert_line("a/)"), Ok("\u{1f04}".to_string()));
    assert_eq!(
        convert_line_strict("a/)"),
        Err(ValidationError::InvalidDiacriticOrder(vec!["/)".to_string()]))
    );
}

#[test]
fn mixed_notations_stop_only_the_strict_conversion() {
    assert_eq!(convert_line("*a A"), Ok("\u{0391} \u{0391}".to_string()));
    assert_eq!(convert_line_strict("*a A"), Err(ValidationError::MixedCaseNotation));
}

#[test]
fn foreign_characters_stop_every_conversion() {
    assert_eq!(convert_line("a9"), Err(ValidationError::InvalidChars(vec!['9'])));
    assert_eq!(convert_line_strict("a9"), Err(ValidationError::InvalidChars(vec!['9'])));
    assert_eq!(convert_line("a\u{03b1}"), Err(ValidationError::NotASCII(vec!['\u{03b1}'])));
    assert_eq!(convert_line_strict("a\u{03b1}"), Err(ValidationError::NotASCII(vec!['\u{03b1}'])));
}

#[test]
fn a_line_is_reverted() {
    assert_eq!(revert_line("\u{03bc}\u{1fc6}\u{03bd}\u{03b9}\u{03bd} \u{1f04}\u{03b5}\u{03b9}\u{03b4}\u{03b5}"), "mh=nin a)/eide");
    assert_eq!(revert_line(""), "");
}

#[test]
fn the_arguments_choose_what_is_done() {
    assert_eq!(transliterate(&args(false, false), "a/)"), Ok("\u{1f04}".to_string()));
    assert_eq!(
        transliterate(&args(true, false), "a/)"),
        Err(ValidationError::InvalidDiacriticOrder(vec!["/)".to_string()]))
    );
    assert_eq!(transliterate(&args(false, true), "\u{1f04}"), Ok("a)/".to_string()));
    assert_eq!(transliterate(&args(true, true), "\u{1f04}9"), Ok("a)/9".to_string()));
}

#[test]
fn only_the_lenient_conversion_warns_of_mixed_notations() {
    assert!(warns(&args(false, false), "*a A"));
    assert!(!warns(&args(true, false), "*a A"));
    assert!(!warns(&args(false, true), "*a A"));
    assert!(!warns(&args(false, false), "*a a"));
    assert!(!warns(&args(false, false), "*A A"));
    assert!(!warns(&args(false, false), ""));
}

#[test]
fn a_refusal_is_explained() {
    assert_eq!(
        explain(&ValidationError::NotASCII(vec!['\u{03b1}'])),
        "Text passed is not in ASCII.\nNon ASCII chars ['\u{03b1}']"
    );
    assert_eq!(
        explain(&ValidationError::InvalidChars(vec!['9'])),
        "Text passed violates ASCII Betacode standards as applied here.\nInvalid characteres ['9']"
    );
    assert_eq!(
        reason(&ValidationError::InvalidDiacriticOrder(vec!["/)".to_string()])),
        "Text passed violates ASCII Betacode standards as applied here."
    );
    assert_eq!(
        explain(&ValidationError::MixedCaseNotation),
        "Text passed contains both * and upper case ASCII for Greek Upper notation.\nMixed case notation"
    );
}
