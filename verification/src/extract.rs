//! Dates out of free text: what a recognizer captures is read as dates,
//! and what cannot be read is dropped or reported.

use crate::date::Date;
use crate::date::ParseDateError;
use crate::list::in_order;
use crate::notation::year_magnitude;
use crate::text::decimal_text;
use crate::list::DateList;
use crate::recognizer::all_captured;
use crate::recognizer::compiles;
use crate::recognizer::first_match;
use crate::recognizer::option_captured;
use crate::recognizer::successive_matches;
use crate::recognizer::CapturedText;
use crate::recognizer::DateCapture;
use crate::recognizer::Recognizer;
use crate::recognizer::DATE_PATTERN;
use crate::recognizer::DAY_GROUP;
use crate::recognizer::MONTH_GROUP;
use crate::recognizer::SINGLE_DATE_PATTERN;
use crate::recognizer::YEAR_GROUP;
use vstd::prelude::*;

verus! {

/// Whether the match captured a day, a month and a year.
pub open spec fn is_complete(captured: CapturedText) -> bool {
    captured.day is Some && captured.month is Some && captured.year is Some
}

/// The date that a match writes: an error where a group captured nothing,
/// else what the three captured texts write.
pub open spec fn date_written(captured: CapturedText) -> Result<Date, ParseDateError> {
    if is_complete(captured) {
        Date::spec_from_fields(captured.day->0, captured.month->0, captured.year->0)
    } else {
        Err(ParseDateError::InvalidRegexCaptures)
    }
}

/// The dates that the matches write, in the order of the matches; a match
/// that writes no date is passed over.
pub open spec fn dates_written(captured: Seq<CapturedText>) -> Seq<Date>
    decreases captured.len(),
{
    if captured.len() == 0 {
        Seq::empty()
    } else {
        match date_written(captured.last()) {
            Ok(date) => dates_written(captured.drop_last()).push(date),
            Err(_) => dates_written(captured.drop_last()),
        }
    }
}

/// The three parts of the written form of a date: the digits of its day,
/// the name of its month and the digits of its year.
pub open spec fn written_parts(date: Date) -> CapturedText {
    CapturedText {
        day: Some(decimal_text(date.day_of_month() as nat)),
        month: Some(date.month().spec_name()),
        year: Some(decimal_text(year_magnitude(date.year() as int))),
    }
}

impl Date {
    /// A date of the common era whose day exists is read back from its
    /// written form, where the match captures the three parts of that
    /// form.
    pub proof fn lemma_written_date_reads_back(self)
        requires
            self.is_valid(),
            self.year() >= 0,
        ensures
            Date::spec_from_capture(Some(written_parts(self))) == Ok::<Date, ParseDateError>(self),
    {
        self.lemma_parts_read_back();
    }

    /// The date that a text holds according to the leftmost match in it:
    /// an error where nothing matched, where a group captured nothing, or
    /// where the captured texts write no date.
    pub open spec fn spec_from_capture(captured: Option<CapturedText>) -> Result<
        Date,
        ParseDateError,
    > {
        match captured {
            None => Err(ParseDateError::InvalidFormatting),
            Some(captured) => date_written(captured),
        }
    }

    /// The dates that a text holds according to the successive matches in
    /// it, in their order: an error where a group of some match captured
    /// nothing, else the dates that the matches write.
    pub open spec fn spec_from_captures(captured: Seq<CapturedText>) -> Result<
        Seq<Date>,
        ParseDateError,
    > {
        if forall|i: int| 0 <= i < captured.len() ==> is_complete(#[trigger] captured[i]) {
            Ok(dates_written(captured))
        } else {
            Err(ParseDateError::InvalidRegexCaptures)
        }
    }

    /// The date that a text holds where the whole text is one date: what
    /// the leftmost match of `SINGLE_DATE_PATTERN` writes, and the error
    /// `InvalidRegexCaptures` where that pattern does not compile.
    pub open spec fn spec_from_text_single(text: Seq<char>) -> Result<Date, ParseDateError> {
        if compiles(SINGLE_DATE_PATTERN@) {
            Date::spec_from_capture(
                first_match(SINGLE_DATE_PATTERN@, text, DAY_GROUP@, MONTH_GROUP@, YEAR_GROUP@),
            )
        } else {
            Err(ParseDateError::InvalidRegexCaptures)
        }
    }

    /// The dates that a text holds, in the order in which they stand in
    /// it: what the successive matches of `DATE_PATTERN` write, and the
    /// error `InvalidRegexCaptures` where that pattern does not compile.
    pub open spec fn spec_from_string(text: Seq<char>) -> Result<Seq<Date>, ParseDateError> {
        if compiles(DATE_PATTERN@) {
            Date::spec_from_captures(
                successive_matches(DATE_PATTERN@, text, DAY_GROUP@, MONTH_GROUP@, YEAR_GROUP@),
            )
        } else {
            Err(ParseDateError::InvalidRegexCaptures)
        }
    }

    /// Reads the date that one match captured.
    pub fn from_match(capture: &DateCapture) -> (r: Result<Date, ParseDateError>)
        ensures
            r == date_written(capture@),
            r matches Ok(date) ==> date.is_valid(),
    {
        let day = match &capture.day {
            Some(day) => day.as_str(),
            None => return Err(ParseDateError::InvalidRegexCaptures),
        };
        let month = match &capture.month {
            Some(month) => month.as_str(),
            None => return Err(ParseDateError::InvalidRegexCaptures),
        };
        let year = match &capture.year {
            Some(year) => year.as_str(),
            None => return Err(ParseDateError::InvalidRegexCaptures),
        };
        Date::from_fields(day, month, year)
    }

    /// Reads the date of a text from what the leftmost match in it
    /// captured, if anything matched.
    pub fn from_capture(capture: Option<DateCapture>) -> (r: Result<Date, ParseDateError>)
        ensures
            r == Date::spec_from_capture(option_captured(capture)),
            r matches Ok(date) ==> date.is_valid(),
    {
        match capture {
            None => Err(ParseDateError::InvalidFormatting),
            Some(capture) => Date::from_match(&capture),
        }
    }

    /// Reads the dates of a text from what the successive matches in it
    /// captured, in the order of the matches. A match whose texts write no
    /// date is passed over; a match in which a group captured nothing is
    /// an error.
    pub fn from_captures(captures: &Vec<DateCapture>) -> (r: Result<Vec<Date>, ParseDateError>)
        ensures
            match Date::spec_from_captures(all_captured(captures@)) {
                Ok(dates) => r matches Ok(found) && found@ == dates,
                Err(error) => r matches Err(e) && e == error,
            },
            r matches Ok(found) ==> forall|i: int|
                0 <= i < found@.len() ==> (#[trigger] found@[i]).is_valid(),
    {
        let ghost captured = all_captured(captures@);
        let mut dates: Vec<Date> = Vec::new();
        let mut i: usize = 0;
        while i < captures.len()
            invariant
                0 <= i <= captures.len(),
                captured == all_captured(captures@),
                forall|k: int| 0 <= k < i ==> is_complete(#[trigger] captured[k]),
                dates@ == dates_written(captured.take(i as int)),
                forall|k: int| 0 <= k < dates@.len() ==> (#[trigger] dates@[k]).is_valid(),
            decreases captures.len() - i,
        {
            let ghost seen = captured.take(i + 1);
            proof {
                assert(seen.drop_last() =~= captured.take(i as int));
                assert(seen.last() == captures@[i as int]@);
            }
            match Date::from_match(&captures[i]) {
                Ok(date) => {
                    dates.push(date);
                },
                Err(ParseDateError::InvalidRegexCaptures) => {
                    proof {
                        assert(!is_complete(captured[i as int])) by {
                            if is_complete(captured[i as int]) {
                                Date::lemma_fields_errors(
                                    captured[i as int].day->0,
                                    captured[i as int].month->0,
                                    captured[i as int].year->0,
                                );
                            }
                        }
                    }
                    return Err(ParseDateError::InvalidRegexCaptures);
                },
                Err(_) => {},
            }
            i = i + 1;
        }
        proof {
            assert(captured.take(i as int) =~= captured);
        }
        Ok(dates)
    }

    /// Three texts never fail for want of a group.
    pub proof fn lemma_fields_errors(day: Seq<char>, month: Seq<char>, year: Seq<char>)
        ensures
            Date::spec_from_fields(day, month, year) != Err::<Date, ParseDateError>(
                ParseDateError::InvalidRegexCaptures,
            ),
    {
    }

    /// Searches for a single date within a text with a given recognizer:
    /// the date that the leftmost match writes. It is an error that
    /// nothing matches, that a group captures nothing, that a captured
    /// text is no day, no month or no year, or that the month has no such
    /// day.
    pub fn from_text_single_with(text: &str, regex: &Recognizer) -> (r: Result<
        Date,
        ParseDateError,
    >)
        ensures
            r == Date::spec_from_capture(
                first_match(regex@, text@, DAY_GROUP@, MONTH_GROUP@, YEAR_GROUP@),
            ),
            r matches Ok(date) ==> date.is_valid(),
    {
        Date::from_capture(regex.first(text))
    }

    /// Reads a text that is one date, as in "February 1st, 2000", with the
    /// recognizer of `SINGLE_DATE_PATTERN`. Where that recognizer cannot
    /// be made the error is `InvalidRegexCaptures`.
    pub fn from_text_single(text: &str) -> (r: Result<Date, ParseDateError>)
        ensures
            r == Date::spec_from_text_single(text@),
            r matches Ok(date) ==> date.is_valid(),
    {
        match Recognizer::single_date() {
            Ok(regex) => Date::from_text_single_with(text, &regex),
            Err(_) => Err(ParseDateError::InvalidRegexCaptures),
        }
    }

    /// Searches a text for dates with a given recognizer and returns them
    /// in the order in which they stand in the text. A match that writes
    /// no date is passed over; a match in which a group captures nothing
    /// is an error.
    pub fn from_string_with(text: &str, regex: &Recognizer) -> (r: Result<
        Vec<Date>,
        ParseDateError,
    >)
        ensures
            match Date::spec_from_captures(
                successive_matches(regex@, text@, DAY_GROUP@, MONTH_GROUP@, YEAR_GROUP@),
            ) {
                Ok(dates) => r matches Ok(found) && found@ == dates,
                Err(error) => r matches Err(e) && e == error,
            },
            r matches Ok(found) ==> forall|i: int|
                0 <= i < found@.len() ==> (#[trigger] found@[i]).is_valid(),
    {
        let captures = regex.all(text);
        Date::from_captures(&captures)
    }

    /// Searches a text for dates with the recognizer of `DATE_PATTERN` and
    /// returns them in the order in which they stand in the text. Where
    /// that recognizer cannot be made the error is `InvalidRegexCaptures`.
    pub fn from_string(text: &str) -> (r: Result<Vec<Date>, ParseDateError>)
        ensures
            match Date::spec_from_string(text@) {
                Ok(dates) => r matches Ok(found) && found@ == dates,
                Err(error) => r matches Err(e) && e == error,
            },
            r matches Ok(found) ==> forall|i: int|
                0 <= i < found@.len() ==> (#[trigger] found@[i]).is_valid(),
    {
        match Recognizer::dates() {
            Ok(regex) => Date::from_string_with(text, &regex),
            Err(_) => Err(ParseDateError::InvalidRegexCaptures),
        }
    }

    /// Searches a text for dates with a given recognizer and returns them
    /// sorted from oldest to newest, each as often as it was found. A
    /// match that writes no date is passed over; a match in which a group
    /// captures nothing is an error.
    pub fn from_text_multi_sorted_with(text: &str, regex: &Recognizer) -> (r: Result<
        DateList,
        ParseDateError,
    >)
        ensures
            match Date::spec_from_captures(
                successive_matches(regex@, text@, DAY_GROUP@, MONTH_GROUP@, YEAR_GROUP@),
            ) {
                Ok(dates) => r matches Ok(list) && list.wf() && in_order(list@)
                    && list@.to_multiset() == dates.to_multiset(),
                Err(error) => r matches Err(e) && e == error,
            },
    {
        match Date::from_string_with(text, regex) {
            Ok(dates) => Ok(DateList::from(dates)),
            Err(error) => Err(error),
        }
    }

    /// Searches a text for dates with the recognizer of `DATE_PATTERN` and
    /// returns them sorted from oldest to newest, each as often as it was
    /// found. Where that recognizer cannot be made the error is
    /// `InvalidRegexCaptures`.
    pub fn from_text_multi_sorted(text: &str) -> (r: Result<DateList, ParseDateError>)
        ensures
            match Date::spec_from_string(text@) {
                Ok(dates) => r matches Ok(list) && list.wf() && in_order(list@)
                    && list@.to_multiset() == dates.to_multiset(),
                Err(error) => r matches Err(e) && e == error,
            },
    {
        match Recognizer::dates() {
            Ok(regex) => Date::from_text_multi_sorted_with(text, &regex),
            Err(_) => Err(ParseDateError::InvalidRegexCaptures),
        }
    }
}

impl std::str::FromStr for Date {
    type Err = ParseDateError;

    /// Reads a text that is one date as `Date::from_text_single` does.
    fn from_str(text: &str) -> (r: Result<Date, ParseDateError>)
        ensures
            r == Date::spec_from_text_single(text@),
            r matches Ok(date) ==> date.is_valid(),
    {
        Date::from_text_single(text)
    }
}

} // verus!
