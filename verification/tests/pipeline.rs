use betacode::converter::{convert, revert};
use unicode_normalization::UnicodeNormalization;

#[test]
fn empty_text_converts_to_empty_text() {
    assert_eq!(convert(""), "");
    assert_eq!(revert(""), "");
}

#[test]
fn letters_alone_convert_by_the_table() {
    let latin = "abcdefghiklmnopqrtuvwxyzABCDEFGHIKLMNOPQRSTUVWXYZ";
    let greek = "\u{03b1}\u{03b2}\u{03be}\u{03b4}\u{03b5}\u{03c6}\u{03b3}\u{03b7}\u{03b9}\u{03ba}\u{03bb}\u{03bc}\u{03bd}\u{03bf}\u{03c0}\u{03b8}\u{03c1}\u{03c4}\u{03c5}\u{03dd}\u{03c9}\u{03c7}\u{03c8}\u{03b6}\u{0391}\u{0392}\u{039e}\u{0394}\u{0395}\u{03a6}\u{0393}\u{0397}\u{0399}\u{039a}\u{039b}\u{039c}\u{039d}\u{039f}\u{03a0}\u{0398}\u{03a1}\u{03a3}\u{03a4}\u{03a5}\u{03dc}\u{03a9}\u{03a7}\u{03a8}\u{0396}";
    assert_eq!(convert(latin), greek);
    for (l, g) in latin.chars().zip(greek.chars()) {
        let text = format!("{}a", l);
        let expected = format!("{}{}", g, '\u{03b1}');
        assert_eq!(convert(&text), expected);
    }
    assert_eq!(convert("sas"), "\u{03c3}\u{03b1}\u{03c2}");
    assert_eq!(convert("SAS"), "\u{03c3}\u{03b1}\u{03c2}");
    assert_eq!(convert("SaS"), "\u{03a3}\u{03b1}\u{03a3}");
}

#[test]
fn diacritics_come_out_the_same_in_either_order() {
    assert_eq!(convert("a/)"), convert("a)/"));
    assert_eq!(convert("a/)"), "\u{1f04}");
    assert_eq!(convert("a|/)"), convert("a)/|"));
    assert_eq!(convert("a/|)"), "\u{1f84}");
    assert_eq!(convert("a=)|"), "\u{1f86}");
    assert_eq!(convert("i/+"), convert("i+/"));
    assert_eq!(convert("i+/"), "\u{0390}");
}

#[test]
fn marks_without_a_letter_become_combining_marks() {
    assert_eq!(convert(")"), "\u{0313}");
    assert_eq!(convert("(/"), "\u{0314}\u{0301}");
    assert_eq!(convert("/("), "\u{0314}\u{0301}");
    assert_eq!(convert("|"), "\u{0345}");
}

#[test]
fn sigma_takes_the_final_form_at_the_end_of_a_word() {
    assert_eq!(convert("s"), "\u{03c2}");
    assert_eq!(convert("sos sos"), "\u{03c3}\u{03bf}\u{03c2} \u{03c3}\u{03bf}\u{03c2}");
    assert_eq!(convert("os, os. os\nos"), "\u{03bf}\u{03c2}, \u{03bf}\u{03c2}. \u{03bf}\u{03c2}\n\u{03bf}\u{03c2}");
    assert_eq!(convert("os:"), "\u{03bf}\u{03c2}\u{00b7}");
    assert_eq!(convert("s2"), "\u{03c2}2");
    assert_eq!(convert("os'"), "\u{03bf}\u{03c3}'");
    assert_eq!(convert("*s"), "\u{03a3}");
}

#[test]
fn a_digit_behind_sigma_overrides_its_place() {
    assert_eq!(convert("s1a"), "\u{03c2}\u{03b1}");
    assert_eq!(convert("s3"), "\u{03f2}");
    assert_eq!(convert("s3 "), "\u{03f2} ");
    assert_eq!(convert("*s3a"), "\u{03f9}\u{03b1}");
    assert_eq!(convert("as3as"), "\u{03b1}\u{03f2}\u{03b1}\u{03c2}");
}

#[test]
fn capitals_follow_the_notation_of_the_text() {
    assert_eq!(convert("*a"), "\u{0391}");
    assert_eq!(convert("*A"), "\u{0391}");
    assert_eq!(convert("*ab"), "\u{0391}\u{03b2}");
    assert_eq!(convert("*AB"), "\u{0391}\u{03b2}");
    assert_eq!(convert("AB"), "\u{03b1}\u{03b2}");
    assert_eq!(convert("Ab"), "\u{0391}\u{03b2}");
    assert_eq!(convert("A B."), "\u{03b1} \u{03b2}.");
    assert_eq!(convert("*a B"), "\u{0391} \u{0392}");
    assert_eq!(convert("*MH=NIN *A)/EIDE"), "\u{039c}\u{1fc6}\u{03bd}\u{03b9}\u{03bd} \u{1f0c}\u{03b5}\u{03b9}\u{03b4}\u{03b5}");
    assert_eq!(convert("*a)xilh=os"), "\u{1f08}\u{03c7}\u{03b9}\u{03bb}\u{1fc6}\u{03bf}\u{03c2}");
}

#[test]
fn archaic_letters_convert_with_and_without_marker() {
    assert_eq!(convert("#1#2#3#5"), "\u{03df}\u{03db}\u{03d9}\u{03e1}");
    assert_eq!(convert("*#1*#2*#3*#5"), "\u{03de}\u{03da}\u{03d8}\u{03e0}");
    assert_eq!(convert("*a*#3"), "\u{0391}\u{03d8}");
}

#[test]
fn punctuation_converts_as_the_table_and_the_normal_form_say() {
    assert_eq!(convert(":"), "\u{00b7}");
    assert_eq!(convert(";"), "3");
    assert_eq!(convert("a, b. c'"), "\u{03b1}, \u{03b2}. \u{03be}'");
}

#[test]
fn the_result_is_composed() {
    assert_eq!(convert("a)"), "\u{1f00}");
    assert_eq!(convert("a)").chars().count(), 1);
    assert_eq!(convert("h=|"), "\u{1fc7}");
    assert_eq!(convert("w(=|"), "\u{1fa7}");
    assert_eq!(convert("r("), "\u{1fe5}");
    assert_eq!(convert("u+\\"), "\u{1fe2}");
}

#[test]
fn normalizing_the_normalized_text_changes_nothing() {
    for text in [
        "mh=nin a/)eide qea\\ *phlhi+a/dew *a)xilh=os",
        "a)/| h=| w(=| i+/ u+\\ r(",
        "; : #1 *#5",
        "",
    ] {
        let once = convert(text).nfkc().collect::<String>();
        let twice = once.nfkc().collect::<String>();
        assert_eq!(once, twice);
        assert_eq!(convert(text), once);
    }
}

#[test]
fn greek_text_reverts_to_betacode() {
    assert_eq!(revert("\u{1f04}"), "a)/");
    assert_eq!(revert("\u{1f84}"), "a)/|");
    assert_eq!(revert("\u{0390}"), "i+/");
    assert_eq!(revert("\u{0391}\u{03b2}"), "*ab");
    assert_eq!(revert("\u{1f08}"), "*a)");
    assert_eq!(revert("\u{03c3}\u{03bf}\u{03c2} \u{03c3}\u{03bf}\u{03c2}"), "sos sos");
    assert_eq!(revert("\u{03c2}\u{03b1}"), "s1a");
    assert_eq!(revert("\u{03f2} \u{03f9}"), "s3 *s3");
    assert_eq!(revert("\u{03d8}\u{03d9}"), "*#3#3");
    assert_eq!(revert("\u{03bf}\u{03c2}\u{00b7}"), "os:");
}

#[test]
fn converting_the_reverted_text_gives_the_same_again() {
    for text in [
        "mh=nin a)/eide qea\\ *phlhi+a/dew *a)xilh=os",
        "mh=nin a/)eide qea\\ *phlhi+a/dew *a)xilh=os3",
        "s3 *s3 s1a",
        "a)/| h=| w(=| i+/ u+\\ r(",
        "*a*b*c ABC abc aBC",
        "#1#2#3#5 *#1*#2*#3*#5",
        "sos, sos. sos: sos\nsos2 sos'",
        "a|) a|/) a/|)",
        "; : ' 1 2 3",
        ")",
        "",
    ] {
        let greek = convert(text);
        assert_eq!(convert(&revert(&greek)), greek);
    }
}
