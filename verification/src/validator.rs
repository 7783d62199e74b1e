//! Validation of Betacode text before it is converted.
//!
//! Three checks run in a fixed order and the first that fails gives the
//! result: every character is ASCII, the diacritics stand in order, every
//! character belongs to the Betacode alphabet. A fourth check, on the
//! notation of capitals, is offered beside them and is no part of `validate`.
//!
//! The checks read the text as it is written: no capital is folded and no
//! marker resolved before them. A diacritic needs no letter before it, so
//! marks that stand alone are valid where they stand in order.

use crate::alphabet::{in_alphabet, is_ascii};
use crate::case::{holds_mixed_notations, mixes_notations};
use crate::diacritics::{breaches, keeps_order, lemma_no_breaches, measure_breach};
use crate::text::chars_of;
use std::collections::HashSet;
use vstd::prelude::*;

verus! {

broadcast use vstd::std_specs::hash::group_hash_axioms;

/// Why a text is no proper Betacode.
#[derive(Debug, PartialEq, Eq)]
pub enum ValidationError {
    /// The text holds these characters outside ASCII: each once, in the
    /// order in which they first occur.
    NotASCII(Vec<char>),
    /// The text holds these characters outside the Betacode alphabet: each
    /// once, in the order in which they first occur.
    InvalidChars(Vec<char>),
    /// The text breaks the order of the diacritics in these pieces, in the
    /// order in which they occur.
    InvalidDiacriticOrder(Vec<String>),
    /// The text marks capitals both with `*` and by ASCII capitals.
    MixedCaseNotation,
}

/// What a `ValidationError` says, as a mathematical value.
pub enum Finding {
    NotASCII(Seq<char>),
    InvalidChars(Seq<char>),
    InvalidDiacriticOrder(Seq<Seq<char>>),
    MixedCaseNotation,
}

impl View for ValidationError {
    type V = Finding;

    open spec fn view(&self) -> Finding {
        match self {
            ValidationError::NotASCII(list) => Finding::NotASCII(list@),
            ValidationError::InvalidChars(list) => Finding::InvalidChars(list@),
            ValidationError::InvalidDiacriticOrder(list) => Finding::InvalidDiacriticOrder(
                list.deep_view(),
            ),
            ValidationError::MixedCaseNotation => Finding::MixedCaseNotation,
        }
    }
}

/// The result of a check, with the error as a mathematical value.
pub open spec fn seen(r: Result<(), ValidationError>) -> Result<(), Finding> {
    match r {
        Ok(_) => Ok(()),
        Err(e) => Err(e@),
    }
}

/// A rule that holds of single characters.
#[derive(Debug, Clone, Copy, PartialEq, Eq)]
pub enum Rule {
    /// The character is ASCII.
    Ascii,
    /// The character belongs to the Betacode alphabet.
    Alphabet,
}

/// Whether the character breaks the rule.
pub open spec fn spec_breaks(c: char, rule: Rule) -> bool {
    match rule {
        Rule::Ascii => !is_ascii(c),
        Rule::Alphabet => !in_alphabet(c),
    }
}

/// Computes [`spec_breaks`].
#[verifier::when_used_as_spec(spec_breaks)]
pub fn breaks(c: char, rule: Rule) -> (b: bool)
    ensures
        b == spec_breaks(c, rule),
{
    match rule {
        Rule::Ascii => !is_ascii(c),
        Rule::Alphabet => !in_alphabet(c),
    }
}

/// The characters of the text that break the rule: each once, in the order
/// in which they first occur.
pub open spec fn offenders(s: Seq<char>, rule: Rule) -> Seq<char>
    decreases s.len(),
{
    if s.len() == 0 {
        Seq::empty()
    } else {
        let before = offenders(s.drop_last(), rule);
        if breaks(s.last(), rule) && !before.contains(s.last()) {
            before.push(s.last())
        } else {
            before
        }
    }
}

/// What the check for ASCII finds.
pub open spec fn ascii_verdict(s: Seq<char>) -> Result<(), Finding> {
    if offenders(s, Rule::Ascii).len() == 0 {
        Ok(())
    } else {
        Err(Finding::NotASCII(offenders(s, Rule::Ascii)))
    }
}

/// What the check of the order of the diacritics finds.
pub open spec fn order_verdict(s: Seq<char>) -> Result<(), Finding> {
    if breaches(s).len() == 0 {
        Ok(())
    } else {
        Err(Finding::InvalidDiacriticOrder(breaches(s)))
    }
}

/// What the check of the alphabet finds.
pub open spec fn alphabet_verdict(s: Seq<char>) -> Result<(), Finding> {
    if offenders(s, Rule::Alphabet).len() == 0 {
        Ok(())
    } else {
        Err(Finding::InvalidChars(offenders(s, Rule::Alphabet)))
    }
}

/// What the check of the notation of capitals finds.
pub open spec fn notation_verdict(s: Seq<char>) -> Result<(), Finding> {
    if mixes_notations(s) {
        Err(Finding::MixedCaseNotation)
    } else {
        Ok(())
    }
}

/// What validation finds: the finding of the first check that fails, in the
/// order ASCII, order of the diacritics, alphabet.
pub open spec fn verdict(s: Seq<char>) -> Result<(), Finding> {
    if ascii_verdict(s) is Err {
        ascii_verdict(s)
    } else if order_verdict(s) is Err {
        order_verdict(s)
    } else {
        alphabet_verdict(s)
    }
}

/// Collects the characters of `text` that break `rule`.
pub fn collect_offenders(text: &Vec<char>, rule: Rule) -> (out: Vec<char>)
    ensures
        out@ == offenders(text@, rule),
{
    let mut out: Vec<char> = Vec::new();
    let mut seen: HashSet<u32> = HashSet::new();
    let mut i: usize = 0;
    while i < text.len()
        invariant
            i <= text.len(),
            out@ == offenders(text@.take(i as int), rule),
            forall|c: char| seen@.contains(c as u32) <==> out@.contains(c),
        decreases text.len() - i,
    {
        let c = text[i];
        let ghost found = out@;
        let ghost before = seen@;
        if breaks(c, rule) && seen.insert(c as u32) {
            out.push(c);
            proof {
                assert forall|d: char| seen@.contains(d as u32) <==> out@.contains(d) by {
                    if d == c {
                        assert(out@[found.len() as int] == c);
                    } else {
                        assert(d as u32 != c as u32) by {
                            vstd::utf8::char_u32_cast(c, c as u32);
                            vstd::utf8::char_u32_cast(d, d as u32);
                        }
                        if found.contains(d) {
                            let j = choose|j: int| 0 <= j < found.len() && found[j] == d;
                            assert(out@[j] == d);
                        }
                        if out@.contains(d) {
                            let j = choose|j: int| 0 <= j < out@.len() && out@[j] == d;
                            assert(found[j] == d);
                        }
                    }
                }
            }
        }
        i += 1;
        proof {
            assert(text@.take(i as int).drop_last() == text@.take(i - 1));
        }
    }
    proof {
        assert(text@.take(i as int) == text@);
    }
    out
}

/// Collects the breaches of the order of the diacritics in `text`.
pub fn collect_breaches(text: &Vec<char>) -> (out: Vec<String>)
    ensures
        out.deep_view() == breaches(text@),
{
    let n = text.len();
    let mut out: Vec<String> = Vec::new();
    let mut i: usize = 0;
    assert(text@.skip(0) == text@);
    while i < n
        invariant
            i <= n,
            n == text.len(),
            out.deep_view() + breaches(text@.skip(i as int)) == breaches(text@),
        decreases n - i,
    {
        let ghost rest = text@.skip(i as int);
        let ghost done = out.deep_view();
        let len = measure_breach(text, i);
        if len > 0 {
            let mut piece = String::new();
            let mut k: usize = 0;
            while k < len
                invariant
                    k <= len,
                    i + len <= n,
                    n == text.len(),
                    piece@ == text@.subrange(i as int, i + k),
                decreases len - k,
            {
                piece.push(text[i + k]);
                k += 1;
            }
            out.push(piece);
            i += len;
            proof {
                assert(piece@ == rest.take(len as int));
                assert(rest.skip(len as int) == text@.skip(i as int));
            }
        } else {
            i += 1;
            proof {
                assert(rest.skip(1) == text@.skip(i as int));
            }
        }
    }
    out
}

/// Checks that every character of the text is ASCII.
pub fn check_ascii(input: &str) -> (r: Result<(), ValidationError>)
    ensures
        seen(r) == ascii_verdict(input@),
{
    let list = collect_offenders(&chars_of(input), Rule::Ascii);
    if list.len() == 0 {
        Ok(())
    } else {
        Err(ValidationError::NotASCII(list))
    }
}

/// Checks that the diacritics of the text stand in the order breathing or
/// diaeresis, accent, iota subscript, and behind a character that takes one.
pub fn diacritics_ordered(input: &str) -> (r: Result<(), ValidationError>)
    ensures
        seen(r) == order_verdict(input@),
{
    let list = collect_breaches(&chars_of(input));
    if list.len() == 0 {
        Ok(())
    } else {
        Err(ValidationError::InvalidDiacriticOrder(list))
    }
}

/// Checks that every character of the text belongs to the Betacode
/// alphabet.
pub fn standard_characteres(input: &str) -> (r: Result<(), ValidationError>)
    ensures
        seen(r) == alphabet_verdict(input@),
{
    let list = collect_offenders(&chars_of(input), Rule::Alphabet);
    if list.len() == 0 {
        Ok(())
    } else {
        Err(ValidationError::InvalidChars(list))
    }
}

/// Checks that the text marks its capitals in one notation only.
pub fn mixed_case(input: &str) -> (r: Result<(), ValidationError>)
    ensures
        seen(r) == notation_verdict(input@),
{
    if holds_mixed_notations(&chars_of(input)) {
        Err(ValidationError::MixedCaseNotation)
    } else {
        Ok(())
    }
}

/// Validates a text as Betacode: the checks for ASCII, for the order of the
/// diacritics and for the alphabet, in that order. The first that fails
/// gives the error; the text is accepted where none does.
pub fn validate(input: &str) -> (r: Result<(), ValidationError>)
    ensures
        seen(r) == verdict(input@),
{
    match check_ascii(input) {
        Err(e) => Err(e),
        Ok(_) => match diacritics_ordered(input) {
            Err(e) => Err(e),
            Ok(_) => standard_characteres(input),
        },
    }
}

/// The text that `Debug` formatting gives for a list of characters.
pub uninterp spec fn debug_chars(list: Seq<char>) -> Seq<char>;

/// The text that `Debug` formatting gives for a list of strings.
pub uninterp spec fn debug_strings(list: Seq<Seq<char>>) -> Seq<char>;

/// `format!` with `{:?}` on a vector of characters: the result is what
/// `Debug` gives for the list.
#[verifier::external_body]
fn print_chars(list: &Vec<char>) -> (out: String)
    ensures
        out@ == debug_chars(list@),
{
    format!("{:?}", list)
}

/// `format!` with `{:?}` on a vector of strings: the result is what `Debug`
/// gives for the list.
#[verifier::external_body]
fn print_strings(list: &Vec<String>) -> (out: String)
    ensures
        out@ == debug_strings(list.deep_view()),
{
    format!("{:?}", list)
}

/// The words that introduce a finding in a message.
pub open spec fn headline_of(finding: Finding) -> Seq<char> {
    match finding {
        Finding::NotASCII(_) => "Non ASCII chars "@,
        Finding::InvalidChars(_) => "Invalid characteres "@,
        Finding::InvalidDiacriticOrder(_) => "Invalid diacritic order: "@,
        Finding::MixedCaseNotation => "Mixed case notation"@,
    }
}

/// The message for a finding: its headline, then the list it carries as
/// `Debug` prints it.
pub open spec fn message_of(finding: Finding) -> Seq<char> {
    match finding {
        Finding::NotASCII(list) => headline_of(finding) + debug_chars(list),
        Finding::InvalidChars(list) => headline_of(finding) + debug_chars(list),
        Finding::InvalidDiacriticOrder(list) => headline_of(finding) + debug_strings(list),
        Finding::MixedCaseNotation => headline_of(finding),
    }
}

impl ValidationError {
    /// The words that introduce this error in a message.
    pub fn headline(&self) -> (out: &'static str)
        ensures
            out@ == headline_of(self@),
    {
        match self {
            ValidationError::NotASCII(_) => "Non ASCII chars ",
            ValidationError::InvalidChars(_) => "Invalid characteres ",
            ValidationError::InvalidDiacriticOrder(_) => "Invalid diacritic order: ",
            ValidationError::MixedCaseNotation => "Mixed case notation",
        }
    }

    /// The message that tells a user of this error, with the characters or
    /// pieces of text that it carries.
    pub fn message(&self) -> (out: String)
        ensures
            out@ == message_of(self@),
    {
        let start = String::from_str(self.headline());
        match self {
            ValidationError::NotASCII(list) => start.concat(print_chars(list).as_str()),
            ValidationError::InvalidChars(list) => start.concat(print_chars(list).as_str()),
            ValidationError::InvalidDiacriticOrder(list) => start.concat(
                print_strings(list).as_str(),
            ),
            ValidationError::MixedCaseNotation => start,
        }
    }
}

/// The character `a` occurs in the text at a place up to which `b` has not
/// occurred: where both occur, `a` comes first.
pub open spec fn occurs_before(s: Seq<char>, a: char, b: char) -> bool {
    exists|p: int| 0 <= p < s.len() && s[p] == a && !s.take(p + 1).contains(b)
}

/// The offenders are the characters of the text that break the rule, and no
/// others.
pub proof fn lemma_offenders_are_the_breakers(s: Seq<char>, rule: Rule)
    ensures
        forall|c: char|
            #![trigger offenders(s, rule).contains(c)]
            #![trigger s.contains(c)]
            offenders(s, rule).contains(c) <==> s.contains(c) && breaks(c, rule),
    decreases s.len(),
{
    let found = offenders(s, rule);
    if s.len() > 0 {
        let front = s.drop_last();
        let before = offenders(front, rule);
        lemma_offenders_are_the_breakers(front, rule);
        assert forall|c: char|
            #![trigger found.contains(c)]
            #![trigger s.contains(c)]
            found.contains(c) <==> s.contains(c) && breaks(c, rule) by {
            if found.contains(c) {
                let i = choose|i: int| 0 <= i < found.len() && found[i] == c;
                if i < before.len() {
                    assert(before.contains(c));
                    let j = choose|j: int| 0 <= j < front.len() && front[j] == c;
                    assert(s[j] == c);
                } else {
                    assert(c == s.last());
                }
            }
            if s.contains(c) && breaks(c, rule) {
                let j = choose|j: int| 0 <= j < s.len() && s[j] == c;
                if j < front.len() {
                    assert(front[j] == c);
                    assert(front.contains(c));
                    let i = choose|i: int| 0 <= i < before.len() && before[i] == c;
                    assert(found[i] == c);
                } else if before.contains(c) {
                    let i = choose|i: int| 0 <= i < before.len() && before[i] == c;
                    assert(found[i] == c);
                } else {
                    assert(found[found.len() - 1] == c);
                }
            }
        }
    }
}

/// No character is reported twice.
pub proof fn lemma_offenders_are_distinct(s: Seq<char>, rule: Rule)
    ensures
        offenders(s, rule).no_duplicates(),
    decreases s.len(),
{
    if s.len() > 0 {
        lemma_offenders_are_distinct(s.drop_last(), rule);
    }
}

/// The offenders stand in the order in which they first occur in the text.
pub proof fn lemma_offenders_keep_the_order(s: Seq<char>, rule: Rule)
    ensures
        forall|i: int, j: int|
            0 <= i < j < offenders(s, rule).len() ==> occurs_before(
                s,
                #[trigger] offenders(s, rule)[i],
                #[trigger] offenders(s, rule)[j],
            ),
    decreases s.len(),
{
    let found = offenders(s, rule);
    if s.len() > 0 {
        let front = s.drop_last();
        let before = offenders(front, rule);
        lemma_offenders_keep_the_order(front, rule);
        lemma_offenders_are_the_breakers(front, rule);
        assert forall|i: int, j: int| 0 <= i < j < found.len() implies occurs_before(
            s,
            #[trigger] found[i],
            #[trigger] found[j],
        ) by {
            let a = found[i];
            let b = found[j];
            if j < before.len() {
                let p = choose|p: int|
                    0 <= p < front.len() && front[p] == a && !front.take(p + 1).contains(b);
                assert(s.take(p + 1) == front.take(p + 1));
            } else {
                assert(before.contains(a));
                let p = choose|p: int| 0 <= p < front.len() && front[p] == a;
                let head = s.take(p + 1);
                if head.contains(b) {
                    let q = choose|q: int| 0 <= q < head.len() && head[q] == b;
                    assert(front[q] == b);
                }
            }
        }
    }
}

/// Validation is a function of the text: whatever two runs of it give for
/// one text, they report the same.
pub proof fn lemma_validation_is_determined(
    s: Seq<char>,
    first: Result<(), ValidationError>,
    second: Result<(), ValidationError>,
)
    requires
        seen(first) == verdict(s),
        seen(second) == verdict(s),
    ensures
        seen(first) == seen(second),
{
}

/// Validation accepts exactly the texts whose characters all belong to the
/// Betacode alphabet and that keep the order of the diacritics everywhere.
pub proof fn lemma_accepted_texts(s: Seq<char>)
    ensures
        verdict(s) is Ok <==> (forall|i: int| 0 <= i < s.len() ==> in_alphabet(#[trigger] s[i]))
            && keeps_order(s),
{
    lemma_offenders_are_the_breakers(s, Rule::Ascii);
    lemma_offenders_are_the_breakers(s, Rule::Alphabet);
    lemma_no_breaches(s);
    let foreign = offenders(s, Rule::Alphabet);
    let beyond = offenders(s, Rule::Ascii);
    if forall|i: int| 0 <= i < s.len() ==> in_alphabet(#[trigger] s[i]) {
        if foreign.len() > 0 {
            assert(foreign.contains(foreign[0]));
            let i = choose|i: int| 0 <= i < s.len() && s[i] == foreign[0];
            assert(in_alphabet(s[i]));
        }
        if beyond.len() > 0 {
            assert(beyond.contains(beyond[0]));
            let i = choose|i: int| 0 <= i < s.len() && s[i] == beyond[0];
            assert(in_alphabet(s[i]));
        }
    }
    if foreign.len() == 0 {
        assert forall|i: int| 0 <= i < s.len() implies in_alphabet(#[trigger] s[i]) by {
            if !in_alphabet(s[i]) {
                assert(s.contains(s[i]));
            }
        }
    }
}

} // verus!
