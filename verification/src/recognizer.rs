//! The recognizer of written dates: a regular expression with one named
//! group for the day, one for the month and one for the year.

use regex::Regex;
use vstd::prelude::*;

verus! {

/// `regex::Regex`, carried through without a look inside.
#[verifier::external_type_specification]
#[verifier::external_body]
pub struct ExRegex(regex::Regex);

/// `regex::Error`, carried through without a look inside.
#[verifier::external_type_specification]
#[verifier::external_body]
pub struct ExRegexError(regex::Error);

/// The pattern that takes a whole text for one date: a month, a day with
/// an optional ordinal suffix, an optional comma and a year.
pub const SINGLE_DATE_PATTERN: &'static str =
    r"^(?P<m>[[:alpha:]]+)\.?\s*(?P<d>\d{1,2})(?:st|nd|rd|th)?\s*,?\s*(?P<y>[+-]?\d+)$";

/// The pattern that finds dates anywhere in a text: a month, a day with an
/// optional ordinal suffix, an optional comma and a year.
pub const DATE_PATTERN: &'static str =
    r"(?P<m>[[:alpha:]]+)\.?\s*(?P<d>\d{1,2})(?:st|nd|rd|th)?\s*,?\s*(?P<y>[+-]?\d+)";

/// The name of the group that captures the day.
pub const DAY_GROUP: &'static str = "d";

/// The name of the group that captures the month.
pub const MONTH_GROUP: &'static str = "m";

/// The name of the group that captures the year.
pub const YEAR_GROUP: &'static str = "y";

/// What one match captured for the day, the month and the year; nothing
/// for a group that the pattern does not have or that took no part in the
/// match.
pub struct DateCapture {
    pub day: Option<String>,
    pub month: Option<String>,
    pub year: Option<String>,
}

/// The texts of a `DateCapture`.
pub struct CapturedText {
    pub day: Option<Seq<char>>,
    pub month: Option<Seq<char>>,
    pub year: Option<Seq<char>>,
}

/// The text of an optional string.
pub open spec fn option_text(text: Option<String>) -> Option<Seq<char>> {
    match text {
        Some(text) => Some(text@),
        None => None,
    }
}

impl View for DateCapture {
    type V = CapturedText;

    open spec fn view(&self) -> CapturedText {
        CapturedText {
            day: option_text(self.day),
            month: option_text(self.month),
            year: option_text(self.year),
        }
    }
}

/// The texts of an optional capture.
pub open spec fn option_captured(capture: Option<DateCapture>) -> Option<CapturedText> {
    match capture {
        Some(capture) => Some(capture@),
        None => None,
    }
}

/// The texts of captures, one for one.
pub open spec fn all_captured(captures: Seq<DateCapture>) -> Seq<CapturedText> {
    Seq::new(captures.len(), |i: int| captures[i]@)
}

/// What the groups named `day`, `month` and `year` capture in the leftmost
/// match of `pattern` in `text`; nothing where `pattern` matches nowhere.
pub uninterp spec fn first_match(
    pattern: Seq<char>,
    text: Seq<char>,
    day: Seq<char>,
    month: Seq<char>,
    year: Seq<char>,
) -> Option<CapturedText>;

/// What the groups named `day`, `month` and `year` capture in each of the
/// successive matches of `pattern` in `text` that do not overlap, from left
/// to right.
pub uninterp spec fn successive_matches(
    pattern: Seq<char>,
    text: Seq<char>,
    day: Seq<char>,
    month: Seq<char>,
    year: Seq<char>,
) -> Seq<CapturedText>;

/// Whether `regex::Regex::new` takes `pattern`: whether it is a regular
/// expression whose compiled form stays within the size limit that the
/// crate sets by default.
pub uninterp spec fn compiles(pattern: Seq<char>) -> bool;

/// Why a pattern is no recognizer.
#[derive(Copy, Clone, Debug, PartialEq, Eq, Structural)]
pub enum RecognizerError {
    /// The pattern is no regular expression, or one that is too large.
    InvalidPattern,
}

/// A compiled pattern that recognizes written dates. Its view is the
/// pattern it was compiled from: `new` is the one place that makes a
/// recognizer, and it compiles the pattern that it keeps.
pub struct Recognizer {
    pattern: String,
    regex: Regex,
}

impl View for Recognizer {
    type V = Seq<char>;

    closed spec fn view(&self) -> Seq<char> {
        self.pattern@
    }
}

/// `regex::Regex::new`: compiles `pattern`, or says why it cannot. The
/// contract claims that whether it can is a function of the pattern, and
/// gives that function the name `compiles`; it claims nothing of which
/// patterns compile.
#[verifier::external_body]
fn compile(pattern: &str) -> (compiled: Result<Regex, regex::Error>)
    ensures
        compiled is Ok <==> compiles(pattern@),
{
    Regex::new(pattern)
}

/// `regex::Regex::captures`, with `regex::Captures::name` and
/// `regex::Match::as_str` for each of the three groups: the texts that the
/// groups captured in the leftmost match, as owned strings. The contract
/// claims that they are a function of the pattern, the text and the three
/// names, and gives that function the name `first_match`.
#[verifier::external_body]
fn capture_first(recognizer: &Recognizer, text: &str, day: &str, month: &str, year: &str) -> (found:
    Option<DateCapture>)
    ensures
        option_captured(found) == first_match(recognizer@, text@, day@, month@, year@),
{
    recognizer.regex.captures(text).map(
        |c| DateCapture {
            day: c.name(day).map(|m| m.as_str().to_owned()),
            month: c.name(month).map(|m| m.as_str().to_owned()),
            year: c.name(year).map(|m| m.as_str().to_owned()),
        },
    )
}

/// `regex::Regex::captures_iter`, with `regex::Captures::name` and
/// `regex::Match::as_str` for each of the three groups: the texts that the
/// groups captured in each successive match, as owned strings. The contract
/// claims that they are a function of the pattern, the text and the three
/// names, and gives that function the name `successive_matches`.
#[verifier::external_body]
fn capture_all(recognizer: &Recognizer, text: &str, day: &str, month: &str, year: &str) -> (found:
    Vec<DateCapture>)
    ensures
        all_captured(found@) == successive_matches(recognizer@, text@, day@, month@, year@),
{
    recognizer.regex.captures_iter(text).map(
        |c| DateCapture {
            day: c.name(day).map(|m| m.as_str().to_owned()),
            month: c.name(month).map(|m| m.as_str().to_owned()),
            year: c.name(year).map(|m| m.as_str().to_owned()),
        },
    ).collect()
}

impl Recognizer {
    /// Compiles `pattern` into a recognizer. A pattern that is no regular
    /// expression is an error.
    pub fn new(pattern: &str) -> (made: Result<Recognizer, RecognizerError>)
        ensures
            made is Ok <==> compiles(pattern@),
            made matches Ok(recognizer) ==> recognizer@ == pattern@,
            made matches Err(error) ==> error == RecognizerError::InvalidPattern,
    {
        match compile(pattern) {
            Ok(regex) => Ok(Recognizer { pattern: pattern.to_owned(), regex }),
            Err(_) => Err(RecognizerError::InvalidPattern),
        }
    }

    /// The recognizer of `SINGLE_DATE_PATTERN`.
    pub fn single_date() -> (made: Result<Recognizer, RecognizerError>)
        ensures
            made is Ok <==> compiles(SINGLE_DATE_PATTERN@),
            made matches Ok(recognizer) ==> recognizer@ == SINGLE_DATE_PATTERN@,
            made matches Err(error) ==> error == RecognizerError::InvalidPattern,
    {
        Recognizer::new(SINGLE_DATE_PATTERN)
    }

    /// The recognizer of `DATE_PATTERN`.
    pub fn dates() -> (made: Result<Recognizer, RecognizerError>)
        ensures
            made is Ok <==> compiles(DATE_PATTERN@),
            made matches Ok(recognizer) ==> recognizer@ == DATE_PATTERN@,
            made matches Err(error) ==> error == RecognizerError::InvalidPattern,
    {
        Recognizer::new(DATE_PATTERN)
    }

    /// The pattern that the recognizer was compiled from.
    pub fn pattern(&self) -> (pattern: &str)
        ensures
            pattern@ == self@,
    {
        self.pattern.as_str()
    }

    /// What the day, month and year groups capture in the leftmost match
    /// of the pattern in `text`.
    pub fn first(&self, text: &str) -> (found: Option<DateCapture>)
        ensures
            option_captured(found) == first_match(
                self@,
                text@,
                DAY_GROUP@,
                MONTH_GROUP@,
                YEAR_GROUP@,
            ),
    {
        capture_first(self, text, DAY_GROUP, MONTH_GROUP, YEAR_GROUP)
    }

    /// What the day, month and year groups capture in each successive
    /// match of the pattern in `text`, from left to right.
    pub fn all(&self, text: &str) -> (found: Vec<DateCapture>)
        ensures
            all_captured(found@) == successive_matches(
                self@,
                text@,
                DAY_GROUP@,
                MONTH_GROUP@,
                YEAR_GROUP@,
            ),
    {
        capture_all(self, text, DAY_GROUP, MONTH_GROUP, YEAR_GROUP)
    }
}

} // verus!
