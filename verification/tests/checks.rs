use betacode::validator::{
    check_ascii, diacritics_ordered, mixed_case, standard_characteres, ValidationError,
};

#[test]
fn the_ascii_check_looks_at_nothing_else() {
    assert_eq!(check_ascii("9 a/) j"), Ok(()));
    assert_eq!(check_ascii(""), Ok(()));
    assert_eq!(check_ascii("\u{7f}"), Ok(()));
    assert_eq!(check_ascii("\u{80}"), Err(ValidationError::NotASCII(vec!['\u{80}'])));
    assert_eq!(
        check_ascii("a\u{03c3}b\u{03c2}\u{03c3}"),
        Err(ValidationError::NotASCII(vec!['\u{03c3}', '\u{03c2}']))
    );
}

#[test]
fn the_order_check_looks_at_nothing_else() {
    assert_eq!(diacritics_ordered("9 \u{03b1} a)/| j"), Ok(()));
    assert_eq!(diacritics_ordered(""), Ok(()));
    assert_eq!(diacritics_ordered("a=)"), Ok(()));
    assert_eq!(diacritics_ordered("a|="), Ok(()));
    assert_eq!(
        diacritics_ordered("a|)/ b/"),
        Err(ValidationError::InvalidDiacriticOrder(vec!["|)/".to_string(), "b/".to_string()]))
    );
    assert_eq!(
        diacritics_ordered("s|(/\\+)|a"),
        Err(ValidationError::InvalidDiacriticOrder(vec!["s|(/\\+)|".to_string()]))
    );
}

#[test]
fn the_order_check_reads_the_text_as_written() {
    assert_eq!(
        diacritics_ordered("t) a"),
        Err(ValidationError::InvalidDiacriticOrder(vec!["t)".to_string()]))
    );
    assert_eq!(diacritics_ordered("T) A"), Ok(()));
    assert_eq!(diacritics_ordered("*t) a"), Err(ValidationError::InvalidDiacriticOrder(vec![
        "t)".to_string()
    ])));
}

#[test]
fn the_alphabet_check_looks_at_nothing_else() {
    assert_eq!(standard_characteres("a/) t) |)"), Ok(()));
    assert_eq!(standard_characteres(""), Ok(()));
    assert_eq!(
        standard_characteres("ABCDEFGHIKLMNOPQRSTUVWXYZabcdefghiklmnopqrstuvwxyz*#|)(/\\.;:123,'+= \n"),
        Ok(())
    );
    assert_eq!(
        standard_characteres("\u{03b1}4\u{03b1}5"),
        Err(ValidationError::InvalidChars(vec!['\u{03b1}', '4', '5']))
    );
}

#[test]
fn one_notation_of_capitals_is_accepted() {
    assert_eq!(mixed_case(""), Ok(()));
    assert_eq!(mixed_case("mh=nin a)/eide"), Ok(()));
    assert_eq!(mixed_case("*mh=nin *a)/eide"), Ok(()));
    assert_eq!(mixed_case("*A*B*C"), Ok(()));
    assert_eq!(mixed_case("MH=NIN Aeide"), Ok(()));
    assert_eq!(mixed_case("*MH=NIN *A)/EIDE"), Ok(()));
    assert_eq!(mixed_case("*AB"), Ok(()));
    assert_eq!(mixed_case("*#3 A"), Ok(()));
    assert_eq!(mixed_case("*#3 *"), Ok(()));
}

#[test]
fn two_notations_of_capitals_are_reported() {
    assert_eq!(mixed_case("*a A"), Err(ValidationError::MixedCaseNotation));
    assert_eq!(mixed_case("A *a"), Err(ValidationError::MixedCaseNotation));
    assert_eq!(mixed_case("*Ab"), Err(ValidationError::MixedCaseNotation));
    assert_eq!(mixed_case("*#3 Ab"), Err(ValidationError::MixedCaseNotation));
}

#[test]
fn messages_name_what_was_found() {
    assert_eq!(
        ValidationError::NotASCII(vec!['\u{1f04}', '\u{03bb}']).message(),
        "Non ASCII chars ['\u{1f04}', '\u{03bb}']"
    );
    assert_eq!(
        ValidationError::InvalidChars(vec!['9', '\t']).message(),
        "Invalid characteres ['9', '\\t']"
    );
    assert_eq!(
        ValidationError::InvalidDiacriticOrder(vec!["\\(".to_string(), "/)".to_string()]).message(),
        "Invalid diacritic order: [\"\\\\(\", \"/)\"]"
    );
    assert_eq!(ValidationError::MixedCaseNotation.message(), "Mixed case notation");
    assert_eq!(ValidationError::InvalidChars(vec![]).headline(), "Invalid characteres ");
}
