//! Each scanning pass of the library can also be said as a regular
//! expression or as a chain of plain replacements. These tests hold the
//! passes against them on every short text over the characters that matter.

use betacode::converter;
use betacode::validator::{diacritics_ordered, mixed_case, ValidationError};
use regex::Regex;
use unicode_normalization::UnicodeNormalization;

fn texts(alphabet: &[char], longest: usize) -> Vec<String> {
    let mut all = vec![String::new()];
    let mut last = vec![String::new()];
    for _ in 0..longest {
        let mut next = Vec::new();
        for text in &last {
            for c in alphabet {
                let mut longer = text.clone();
                longer.push(*c);
                next.push(longer);
            }
        }
        all.extend(next.iter().cloned());
        last = next;
    }
    all
}

#[test]
fn reordering_agrees_with_its_pattern() {
    let pattern = Regex::new(r"(\|*)([\\/=])(\|*)([()\+])").unwrap();
    for text in texts(&['a', '|', '/', '\\', '=', '(', ')', '+'], 5) {
        let expected = pattern.replace_all(&text, "$4$2$1$3").to_string();
        assert_eq!(converter::reorder_diacritics(&text), expected, "on {:?}", text);
    }
}

#[test]
fn resolving_markers_agrees_with_its_pattern() {
    let pattern = Regex::new(r"\*([A-Za-z])").unwrap();
    for text in texts(&['*', 'a', 'z', 'B', '#', '3', ' ', '\u{03b1}'], 5) {
        let mut chars: Vec<char> = text.chars().collect();
        for i in 0..chars.len() {
            if chars[i] == '*' && i + 1 < chars.len() && chars[i + 1].is_alphabetic() {
                chars[i + 1] = chars[i + 1].to_ascii_uppercase();
            }
        }
        let raised: String = chars.into_iter().collect();
        let expected = pattern.replace_all(&raised, "$1").to_string();
        assert_eq!(converter::find_upper(&text), expected, "on {:?}", text);
    }
}

#[test]
fn final_sigmas_agree_with_their_patterns() {
    let before = Regex::new("\u{03c3}([2 .,\u{00b7};\u{2019}\u{2010}\u{2014}\n])").unwrap();
    let at_end = Regex::new("\u{03c3}$").unwrap();
    let alphabet = [
        '\u{03c3}', '\u{03b1}', '2', ' ', '.', ',', '\u{00b7}', ';', '\u{2019}', '\u{2010}',
        '\u{2014}', '\n', '1',
    ];
    for text in texts(&alphabet, 4) {
        let first = before.replace_all(&text, "\u{03c2}$1").to_string();
        let expected = at_end.replace_all(&first, "\u{03c2}").to_string();
        assert_eq!(converter::sigma_handler(&text), expected, "on {:?}", text);
    }
}

#[test]
fn sigma_variants_agree_with_three_replacements() {
    let alphabet = ['\u{03c3}', '\u{03a3}', '\u{03c2}', '1', '3', '2', 'a'];
    for text in texts(&alphabet, 5) {
        let expected = text
            .replace("\u{03c3}1", "\u{03c2}")
            .replace("\u{03c3}3", "\u{03f2}")
            .replace("\u{03a3}3", "\u{03f9}");
        assert_eq!(converter::special_sigma(&text), expected, "on {:?}", text);
    }
}

fn replaced_token_by_token(text: &str) -> String {
    let betacode = [
        ")", "(", "/", "=", "\\", "+", "|", "A", "a", "B", "b", "C", "c", "D", "d", "E", "e", "F",
        "f", "G", "g", "H", "h", "I", "i", "K", "k", "L", "l", "M", "m", "N", "n", "O", "o", "P",
        "p", "Q", "q", "R", "r", "S", "s", "T", "t", "U", "u", "V", "v", "W", "w", "X", "x", "Y",
        "y", "Z", "z", ";", ":", "*#1", "#1", "*#2", "#2", "*#3", "#3", "*#5", "#5",
    ];
    let greek = [
        "\u{0313}", "\u{0314}", "\u{0301}", "\u{0342}", "\u{0300}", "\u{0308}", "\u{0345}",
        "\u{0391}", "\u{03b1}", "\u{0392}", "\u{03b2}", "\u{039e}", "\u{03be}", "\u{0394}",
        "\u{03b4}", "\u{0395}", "\u{03b5}", "\u{03a6}", "\u{03c6}", "\u{0393}", "\u{03b3}",
        "\u{0397}", "\u{03b7}", "\u{0399}", "\u{03b9}", "\u{039a}", "\u{03ba}", "\u{039b}",
        "\u{03bb}", "\u{039c}", "\u{03bc}", "\u{039d}", "\u{03bd}", "\u{039f}", "\u{03bf}",
        "\u{03a0}", "\u{03c0}", "\u{0398}", "\u{03b8}", "\u{03a1}", "\u{03c1}", "\u{03a3}",
        "\u{03c3}", "\u{03a4}", "\u{03c4}", "\u{03a5}", "\u{03c5}", "\u{03dc}", "\u{03dd}",
        "\u{03a9}", "\u{03c9}", "\u{03a7}", "\u{03c7}", "\u{03a8}", "\u{03c8}", "\u{0396}",
        "\u{03b6}", "\u{00b3}", "\u{00b7}", "\u{03de}", "\u{03df}", "\u{03da}", "\u{03db}",
        "\u{03d8}", "\u{03d9}", "\u{03e0}", "\u{03e1}",
    ];
    let mut replaced = text.to_string();
    for (token, letter) in betacode.iter().zip(greek.iter()) {
        replaced = replaced.replace(token, letter);
    }
    replaced
}

#[test]
fn substitution_agrees_with_replacing_token_by_token() {
    let alphabet = ['*', '#', '1', '2', '3', '5', '4', 'a', 'S', ')', ';'];
    for text in texts(&alphabet, 4) {
        assert_eq!(converter::ascii_to_unicode(&text), replaced_token_by_token(&text), "on {:?}", text);
    }
}

#[test]
fn conversion_agrees_with_the_patterns_in_a_row() {
    let marker = Regex::new(r"\*([A-Za-z])").unwrap();
    let cluster = Regex::new(r"(\|*)([\\/=])(\|*)([()\+])").unwrap();
    let before = Regex::new("\u{03c3}([2 .,\u{00b7};\u{2019}\u{2010}\u{2014}\n])").unwrap();
    let at_end = Regex::new("\u{03c3}$").unwrap();
    let alphabet = ['a', 's', 'A', 'S', '*', '#', '1', '3', ')', '/', '|', ' ', ';'];
    for text in texts(&alphabet, 4) {
        if mixed_case(&text).is_err() {
            continue;
        }
        let mut expected = text.clone();
        if expected.contains('*') {
            let mut chars: Vec<char> = expected.to_lowercase().chars().collect();
            for i in 0..chars.len() {
                if chars[i] == '*' && i + 1 < chars.len() && chars[i + 1].is_alphabetic() {
                    chars[i + 1] = chars[i + 1].to_ascii_uppercase();
                }
            }
            let raised: String = chars.into_iter().collect();
            expected = marker.replace_all(&raised, "$1").to_string();
        } else if expected.find(char::is_lowercase).is_none() {
            expected = expected.to_lowercase();
        }
        expected = cluster.replace_all(&expected, "$4$2$1$3").to_string();
        expected = replaced_token_by_token(&expected);
        expected = before.replace_all(&expected, "\u{03c2}$1").to_string();
        expected = at_end.replace_all(&expected, "\u{03c2}").to_string();
        expected = expected.nfkc().collect::<String>();
        expected = expected
            .replace("\u{03c3}1", "\u{03c2}")
            .replace("\u{03c3}3", "\u{03f2}")
            .replace("\u{03a3}3", "\u{03f9}");
        assert_eq!(converter::convert(&text), expected, "on {:?}", text);
    }
}

#[test]
fn breaches_agree_with_their_pattern() {
    let pattern =
        Regex::new(r"\|[()/\\+]+|[\\/][()+]|[qrtypsdfgklmnbcxz ][()\\/+|]+").unwrap();
    let alphabet = ['a', 't', ' ', '|', '/', '\\', '=', '(', ')', '+'];
    for text in texts(&alphabet, 4) {
        let found: Vec<String> = pattern.find_iter(&text).map(|m| m.as_str().to_string()).collect();
        let expected = if found.is_empty() {
            Ok(())
        } else {
            Err(ValidationError::InvalidDiacriticOrder(found))
        };
        assert_eq!(diacritics_ordered(&text), expected, "on {:?}", text);
    }
}

#[test]
fn longer_breaches_agree_with_their_pattern() {
    let pattern =
        Regex::new(r"\|[()/\\+]+|[\\/][()+]|[qrtypsdfgklmnbcxz ][()\\/+|]+").unwrap();
    for text in texts(&['a', 's', '|', '/', ')', '+'], 6) {
        let found: Vec<String> = pattern.find_iter(&text).map(|m| m.as_str().to_string()).collect();
        let expected = if found.is_empty() {
            Ok(())
        } else {
            Err(ValidationError::InvalidDiacriticOrder(found))
        };
        assert_eq!(diacritics_ordered(&text), expected, "on {:?}", text);
    }
}
