//! The characters of ASCII Betacode and of the Greek text it stands for:
//! the classes that the passes test, and the table that pairs each Betacode
//! character with its Greek character.
//!
//! Every class and table is a `spec` function; the executable function beside
//! it computes the same value and stands for it in contracts.

use vstd::prelude::*;

verus! {

/// Medial small sigma.
pub const SIGMA: char = '\u{03c3}';

/// Final small sigma.
pub const FINAL_SIGMA: char = '\u{03c2}';

/// Capital sigma.
pub const CAPITAL_SIGMA: char = '\u{03a3}';

/// Small lunate sigma.
pub const LUNATE_SIGMA: char = '\u{03f2}';

/// Capital lunate sigma.
pub const CAPITAL_LUNATE_SIGMA: char = '\u{03f9}';

/// The middle dot, which Betacode writes `:`.
pub const MIDDLE_DOT: char = '\u{00b7}';

/// An ASCII capital letter.
pub open spec fn spec_is_upper(c: char) -> bool {
    'A' <= c <= 'Z'
}

/// Computes [`spec_is_upper`].
#[verifier::when_used_as_spec(spec_is_upper)]
pub fn is_upper(c: char) -> (b: bool)
    ensures
        b == spec_is_upper(c),
{
    'A' <= c && c <= 'Z'
}

/// An ASCII small letter.
pub open spec fn spec_is_lower(c: char) -> bool {
    'a' <= c <= 'z'
}

/// Computes [`spec_is_lower`].
#[verifier::when_used_as_spec(spec_is_lower)]
pub fn is_lower(c: char) -> (b: bool)
    ensures
        b == spec_is_lower(c),
{
    'a' <= c && c <= 'z'
}

/// An ASCII letter of either case.
pub open spec fn spec_is_letter(c: char) -> bool {
    is_upper(c) || is_lower(c)
}

/// Computes [`spec_is_letter`].
#[verifier::when_used_as_spec(spec_is_letter)]
pub fn is_letter(c: char) -> (b: bool)
    ensures
        b == spec_is_letter(c),
{
    is_upper(c) || is_lower(c)
}

/// The small letter of an ASCII capital; any other character is kept.
pub open spec fn spec_lower(c: char) -> char {
    if is_upper(c) {
        ((c as u8) + 32) as char
    } else {
        c
    }
}

/// Computes [`spec_lower`].
#[verifier::when_used_as_spec(spec_lower)]
pub fn lower(c: char) -> (r: char)
    ensures
        r == spec_lower(c),
{
    if is_upper(c) {
        ((c as u8) + 32) as char
    } else {
        c
    }
}

/// The capital of an ASCII small letter; any other character is kept.
pub open spec fn spec_upper(c: char) -> char {
    if is_lower(c) {
        ((c as u8) - 32) as char
    } else {
        c
    }
}

/// Computes [`spec_upper`].
#[verifier::when_used_as_spec(spec_upper)]
pub fn upper(c: char) -> (r: char)
    ensures
        r == spec_upper(c),
{
    if is_lower(c) {
        ((c as u8) - 32) as char
    } else {
        c
    }
}

/// A character of the 7-bit ASCII range.
pub open spec fn spec_is_ascii(c: char) -> bool {
    c <= '\u{7f}'
}

/// Computes [`spec_is_ascii`].
#[verifier::when_used_as_spec(spec_is_ascii)]
pub fn is_ascii(c: char) -> (b: bool)
    ensures
        b == spec_is_ascii(c),
{
    c <= '\u{7f}'
}

/// An accent mark: acute `/`, grave `\` or circumflex `=`.
pub open spec fn spec_is_accent(c: char) -> bool {
    c == '/' || c == '\\' || c == '='
}

/// Computes [`spec_is_accent`].
#[verifier::when_used_as_spec(spec_is_accent)]
pub fn is_accent(c: char) -> (b: bool)
    ensures
        b == spec_is_accent(c),
{
    c == '/' || c == '\\' || c == '='
}

/// A breathing mark, rough `(` or smooth `)`, or the diaeresis `+`.
pub open spec fn spec_is_breathing(c: char) -> bool {
    c == '(' || c == ')' || c == '+'
}

/// Computes [`spec_is_breathing`].
#[verifier::when_used_as_spec(spec_is_breathing)]
pub fn is_breathing(c: char) -> (b: bool)
    ensures
        b == spec_is_breathing(c),
{
    c == '(' || c == ')' || c == '+'
}

/// A character of the accepted Betacode alphabet: the letters but `j`, the
/// markers `*` and `#`, the seven diacritics, the digits 1 to 3, the
/// punctuation `.` `,` `;` `:` `'`, the space and the line feed.
pub open spec fn spec_in_alphabet(c: char) -> bool {
    ||| is_letter(c) && c != 'j' && c != 'J'
    ||| c == '*' || c == '#'
    ||| c == '|' || c == ')' || c == '(' || c == '/' || c == '\\' || c == '+' || c == '='
    ||| c == '1' || c == '2' || c == '3'
    ||| c == '.' || c == ',' || c == ';' || c == ':' || c == '\'' || c == ' ' || c == '\n'
}

/// Computes [`spec_in_alphabet`].
#[verifier::when_used_as_spec(spec_in_alphabet)]
pub fn in_alphabet(c: char) -> (b: bool)
    ensures
        b == spec_in_alphabet(c),
{
    (is_letter(c) && c != 'j' && c != 'J') || c == '*' || c == '#' || c == '|' || c == ')' || c
        == '(' || c == '/' || c == '\\' || c == '+' || c == '=' || c == '1' || c == '2' || c == '3'
        || c == '.' || c == ',' || c == ';' || c == ':' || c == '\'' || c == ' ' || c == '\n'
}

/// A character before which a sigma is the last letter of its word: the
/// digit 2, the space, the line feed, `.` `,` `;`, the middle dot, the right
/// single quotation mark, the hyphen and the em dash.
pub open spec fn spec_ends_word(c: char) -> bool {
    ||| c == '2' || c == ' ' || c == '.' || c == ',' || c == ';' || c == '\n'
    ||| c == MIDDLE_DOT
    ||| c == '\u{2019}' || c == '\u{2010}' || c == '\u{2014}'
}

/// Computes [`spec_ends_word`].
#[verifier::when_used_as_spec(spec_ends_word)]
pub fn ends_word(c: char) -> (b: bool)
    ensures
        b == spec_ends_word(c),
{
    c == '2' || c == ' ' || c == '.' || c == ',' || c == ';' || c == '\n' || c == MIDDLE_DOT || c
        == '\u{2019}' || c == '\u{2010}' || c == '\u{2014}'
}

/// The Greek character that one Betacode character stands for: a combining
/// mark for a diacritic, a Greek letter for a letter, a sign for `;` and
/// `:`. A character that stands for none is kept.
pub open spec fn spec_glyph(c: char) -> char {
    match c {
        ')' => '\u{0313}',
        '(' => '\u{0314}',
        '/' => '\u{0301}',
        '=' => '\u{0342}',
        '\\' => '\u{0300}',
        '+' => '\u{0308}',
        '|' => '\u{0345}',
        'A' => '\u{0391}',
        'a' => '\u{03b1}',
        'B' => '\u{0392}',
        'b' => '\u{03b2}',
        'C' => '\u{039e}',
        'c' => '\u{03be}',
        'D' => '\u{0394}',
        'd' => '\u{03b4}',
        'E' => '\u{0395}',
        'e' => '\u{03b5}',
        'F' => '\u{03a6}',
        'f' => '\u{03c6}',
        'G' => '\u{0393}',
        'g' => '\u{03b3}',
        'H' => '\u{0397}',
        'h' => '\u{03b7}',
        'I' => '\u{0399}',
        'i' => '\u{03b9}',
        'K' => '\u{039a}',
        'k' => '\u{03ba}',
        'L' => '\u{039b}',
        'l' => '\u{03bb}',
        'M' => '\u{039c}',
        'm' => '\u{03bc}',
        'N' => '\u{039d}',
        'n' => '\u{03bd}',
        'O' => '\u{039f}',
        'o' => '\u{03bf}',
        'P' => '\u{03a0}',
        'p' => '\u{03c0}',
        'Q' => '\u{0398}',
        'q' => '\u{03b8}',
        'R' => '\u{03a1}',
        'r' => '\u{03c1}',
        'S' => '\u{03a3}',
        's' => '\u{03c3}',
        'T' => '\u{03a4}',
        't' => '\u{03c4}',
        'U' => '\u{03a5}',
        'u' => '\u{03c5}',
        'V' => '\u{03dc}',
        'v' => '\u{03dd}',
        'W' => '\u{03a9}',
        'w' => '\u{03c9}',
        'X' => '\u{03a7}',
        'x' => '\u{03c7}',
        'Y' => '\u{03a8}',
        'y' => '\u{03c8}',
        'Z' => '\u{0396}',
        'z' => '\u{03b6}',
        ';' => '\u{00b3}',
        ':' => '\u{00b7}',
        _ => c,
    }
}

/// Computes [`spec_glyph`].
#[verifier::when_used_as_spec(spec_glyph)]
pub fn glyph(c: char) -> (g: char)
    ensures
        g == spec_glyph(c),
{
    match c {
        ')' => '\u{0313}',
        '(' => '\u{0314}',
        '/' => '\u{0301}',
        '=' => '\u{0342}',
        '\\' => '\u{0300}',
        '+' => '\u{0308}',
        '|' => '\u{0345}',
        'A' => '\u{0391}',
        'a' => '\u{03b1}',
        'B' => '\u{0392}',
        'b' => '\u{03b2}',
        'C' => '\u{039e}',
        'c' => '\u{03be}',
        'D' => '\u{0394}',
        'd' => '\u{03b4}',
        'E' => '\u{0395}',
        'e' => '\u{03b5}',
        'F' => '\u{03a6}',
        'f' => '\u{03c6}',
        'G' => '\u{0393}',
        'g' => '\u{03b3}',
        'H' => '\u{0397}',
        'h' => '\u{03b7}',
        'I' => '\u{0399}',
        'i' => '\u{03b9}',
        'K' => '\u{039a}',
        'k' => '\u{03ba}',
        'L' => '\u{039b}',
        'l' => '\u{03bb}',
        'M' => '\u{039c}',
        'm' => '\u{03bc}',
        'N' => '\u{039d}',
        'n' => '\u{03bd}',
        'O' => '\u{039f}',
        'o' => '\u{03bf}',
        'P' => '\u{03a0}',
        'p' => '\u{03c0}',
        'Q' => '\u{0398}',
        'q' => '\u{03b8}',
        'R' => '\u{03a1}',
        'r' => '\u{03c1}',
        'S' => '\u{03a3}',
        's' => '\u{03c3}',
        'T' => '\u{03a4}',
        't' => '\u{03c4}',
        'U' => '\u{03a5}',
        'u' => '\u{03c5}',
        'V' => '\u{03dc}',
        'v' => '\u{03dd}',
        'W' => '\u{03a9}',
        'w' => '\u{03c9}',
        'X' => '\u{03a7}',
        'x' => '\u{03c7}',
        'Y' => '\u{03a8}',
        'y' => '\u{03c8}',
        'Z' => '\u{0396}',
        'z' => '\u{03b6}',
        ';' => '\u{00b3}',
        ':' => '\u{00b7}',
        _ => c,
    }
}

/// The archaic letter that `#` and a digit stand for, capital after `*`:
/// koppa for 1, stigma for 2, archaic koppa for 3, sampi for 5.
pub open spec fn spec_archaic(digit: char, capital: bool) -> Option<char> {
    match digit {
        '1' => Some(if capital { '\u{03de}' } else { '\u{03df}' }),
        '2' => Some(if capital { '\u{03da}' } else { '\u{03db}' }),
        '3' => Some(if capital { '\u{03d8}' } else { '\u{03d9}' }),
        '5' => Some(if capital { '\u{03e0}' } else { '\u{03e1}' }),
        _ => None,
    }
}

/// Computes [`spec_archaic`].
#[verifier::when_used_as_spec(spec_archaic)]
pub fn archaic(digit: char, capital: bool) -> (g: Option<char>)
    ensures
        g == spec_archaic(digit, capital),
{
    match digit {
        '1' => Some(if capital { '\u{03de}' } else { '\u{03df}' }),
        '2' => Some(if capital { '\u{03da}' } else { '\u{03db}' }),
        '3' => Some(if capital { '\u{03d8}' } else { '\u{03d9}' }),
        '5' => Some(if capital { '\u{03e0}' } else { '\u{03e1}' }),
        _ => None,
    }
}

/// The Betacode character that stands for a Greek character of the table:
/// `glyph` read backwards. A character that the table does not hold has
/// none.
pub open spec fn spec_latin(g: char) -> Option<char> {
    match g {
        '\u{0313}' => Some(')'),
        '\u{0314}' => Some('('),
        '\u{0301}' => Some('/'),
        '\u{0342}' => Some('='),
        '\u{0300}' => Some('\\'),
        '\u{0308}' => Some('+'),
        '\u{0345}' => Some('|'),
        '\u{0391}' => Some('A'),
        '\u{03b1}' => Some('a'),
        '\u{0392}' => Some('B'),
        '\u{03b2}' => Some('b'),
        '\u{039e}' => Some('C'),
        '\u{03be}' => Some('c'),
        '\u{0394}' => Some('D'),
        '\u{03b4}' => Some('d'),
        '\u{0395}' => Some('E'),
        '\u{03b5}' => Some('e'),
        '\u{03a6}' => Some('F'),
        '\u{03c6}' => Some('f'),
        '\u{0393}' => Some('G'),
        '\u{03b3}' => Some('g'),
        '\u{0397}' => Some('H'),
        '\u{03b7}' => Some('h'),
        '\u{0399}' => Some('I'),
        '\u{03b9}' => Some('i'),
        '\u{039a}' => Some('K'),
        '\u{03ba}' => Some('k'),
        '\u{039b}' => Some('L'),
        '\u{03bb}' => Some('l'),
        '\u{039c}' => Some('M'),
        '\u{03bc}' => Some('m'),
        '\u{039d}' => Some('N'),
        '\u{03bd}' => Some('n'),
        '\u{039f}' => Some('O'),
        '\u{03bf}' => Some('o'),
        '\u{03a0}' => Some('P'),
        '\u{03c0}' => Some('p'),
        '\u{0398}' => Some('Q'),
        '\u{03b8}' => Some('q'),
        '\u{03a1}' => Some('R'),
        '\u{03c1}' => Some('r'),
        '\u{03a3}' => Some('S'),
        '\u{03c3}' => Some('s'),
        '\u{03a4}' => Some('T'),
        '\u{03c4}' => Some('t'),
        '\u{03a5}' => Some('U'),
        '\u{03c5}' => Some('u'),
        '\u{03dc}' => Some('V'),
        '\u{03dd}' => Some('v'),
        '\u{03a9}' => Some('W'),
        '\u{03c9}' => Some('w'),
        '\u{03a7}' => Some('X'),
        '\u{03c7}' => Some('x'),
        '\u{03a8}' => Some('Y'),
        '\u{03c8}' => Some('y'),
        '\u{0396}' => Some('Z'),
        '\u{03b6}' => Some('z'),
        '\u{00b3}' => Some(';'),
        '\u{00b7}' => Some(':'),
        _ => None,
    }
}

/// Computes [`spec_latin`].
#[verifier::when_used_as_spec(spec_latin)]
pub fn latin(g: char) -> (c: Option<char>)
    ensures
        c == spec_latin(g),
{
    match g {
        '\u{0313}' => Some(')'),
        '\u{0314}' => Some('('),
        '\u{0301}' => Some('/'),
        '\u{0342}' => Some('='),
        '\u{0300}' => Some('\\'),
        '\u{0308}' => Some('+'),
        '\u{0345}' => Some('|'),
        '\u{0391}' => Some('A'),
        '\u{03b1}' => Some('a'),
        '\u{0392}' => Some('B'),
        '\u{03b2}' => Some('b'),
        '\u{039e}' => Some('C'),
        '\u{03be}' => Some('c'),
        '\u{0394}' => Some('D'),
        '\u{03b4}' => Some('d'),
        '\u{0395}' => Some('E'),
        '\u{03b5}' => Some('e'),
        '\u{03a6}' => Some('F'),
        '\u{03c6}' => Some('f'),
        '\u{0393}' => Some('G'),
        '\u{03b3}' => Some('g'),
        '\u{0397}' => Some('H'),
        '\u{03b7}' => Some('h'),
        '\u{0399}' => Some('I'),
        '\u{03b9}' => Some('i'),
        '\u{039a}' => Some('K'),
        '\u{03ba}' => Some('k'),
        '\u{039b}' => Some('L'),
        '\u{03bb}' => Some('l'),
        '\u{039c}' => Some('M'),
        '\u{03bc}' => Some('m'),
        '\u{039d}' => Some('N'),
        '\u{03bd}' => Some('n'),
        '\u{039f}' => Some('O'),
        '\u{03bf}' => Some('o'),
        '\u{03a0}' => Some('P'),
        '\u{03c0}' => Some('p'),
        '\u{0398}' => Some('Q'),
        '\u{03b8}' => Some('q'),
        '\u{03a1}' => Some('R'),
        '\u{03c1}' => Some('r'),
        '\u{03a3}' => Some('S'),
        '\u{03c3}' => Some('s'),
        '\u{03a4}' => Some('T'),
        '\u{03c4}' => Some('t'),
        '\u{03a5}' => Some('U'),
        '\u{03c5}' => Some('u'),
        '\u{03dc}' => Some('V'),
        '\u{03dd}' => Some('v'),
        '\u{03a9}' => Some('W'),
        '\u{03c9}' => Some('w'),
        '\u{03a7}' => Some('X'),
        '\u{03c7}' => Some('x'),
        '\u{03a8}' => Some('Y'),
        '\u{03c8}' => Some('y'),
        '\u{0396}' => Some('Z'),
        '\u{03b6}' => Some('z'),
        '\u{00b3}' => Some(';'),
        '\u{00b7}' => Some(':'),
        _ => None,
    }
}

/// The digit that names an archaic letter, and whether the letter is the
/// capital: `archaic` read backwards.
pub open spec fn spec_archaic_name(g: char) -> Option<(char, bool)> {
    match g {
        '\u{03de}' => Some(('1', true)),
        '\u{03df}' => Some(('1', false)),
        '\u{03da}' => Some(('2', true)),
        '\u{03db}' => Some(('2', false)),
        '\u{03d8}' => Some(('3', true)),
        '\u{03d9}' => Some(('3', false)),
        '\u{03e0}' => Some(('5', true)),
        '\u{03e1}' => Some(('5', false)),
        _ => None,
    }
}

/// Computes [`spec_archaic_name`].
#[verifier::when_used_as_spec(spec_archaic_name)]
pub fn archaic_name(g: char) -> (name: Option<(char, bool)>)
    ensures
        name == spec_archaic_name(g),
{
    match g {
        '\u{03de}' => Some(('1', true)),
        '\u{03df}' => Some(('1', false)),
        '\u{03da}' => Some(('2', true)),
        '\u{03db}' => Some(('2', false)),
        '\u{03d8}' => Some(('3', true)),
        '\u{03d9}' => Some(('3', false)),
        '\u{03e0}' => Some(('5', true)),
        '\u{03e1}' => Some(('5', false)),
        _ => None,
    }
}

/// No two Betacode characters stand for the same Greek character: from the
/// Greek character of a table entry, `latin` gives the entry back.
pub proof fn lemma_latin_of_glyph(c: char)
    requires
        glyph(c) != c,
    ensures
        latin(glyph(c)) == Some(c),
{
}

/// Every Greek character that `latin` knows is the glyph of the character
/// that `latin` gives for it, and no ASCII character is among them.
pub proof fn lemma_glyph_of_latin(g: char)
    requires
        latin(g) is Some,
    ensures
        glyph(latin(g)->0) == g,
        !is_ascii(g),
        is_ascii(latin(g)->0),
{
}

/// The archaic letters and their names determine each other.
pub proof fn lemma_archaic_names(g: char, digit: char, capital: bool)
    ensures
        archaic(digit, capital) == Some(g) <==> archaic_name(g) == Some((digit, capital)),
{
}

} // verus!
