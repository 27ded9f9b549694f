//! Dates out of text, through the regular expressions.

use dacom::date::Date;
use dacom::date::Month;
use dacom::date::ParseDateError;
use dacom::recognizer::DateCapture;
use dacom::recognizer::Recognizer;
use dacom::recognizer::RecognizerError;
use dacom::recognizer::DATE_PATTERN;
use dacom::recognizer::SINGLE_DATE_PATTERN;

fn date(day: usize, month: Month, year: isize) -> Date {
    Date::new(day, month, year).unwrap()
}

fn capture(day: Option<&str>, month: Option<&str>, year: Option<&str>) -> DateCapture {
    DateCapture {
        day: day.map(|text| text.to_string()),
        month: month.map(|text| text.to_string()),
        year: year.map(|text| text.to_string()),
    }
}

#[test]
fn a_pattern_that_is_no_regular_expression_is_refused() {
    assert!(matches!(Recognizer::new("foo(bar"), Err(RecognizerError::InvalidPattern)));
    assert!(matches!(Recognizer::new(r"\w{1000}"), Err(RecognizerError::InvalidPattern)));
    assert!(Recognizer::new("foo(bar)").is_ok());
}

#[test]
fn a_recognizer_keeps_its_pattern() {
    assert_eq!(Recognizer::new("a+b").unwrap().pattern(), "a+b");
    assert_eq!(Recognizer::single_date().unwrap().pattern(), SINGLE_DATE_PATTERN);
    assert_eq!(Recognizer::dates().unwrap().pattern(), DATE_PATTERN);
}

#[test]
fn the_leftmost_match_is_captured() {
    let recognizer = Recognizer::dates().unwrap();
    let found = recognizer.first("on March 1, 1999 and May 2nd, 2001").unwrap();
    assert_eq!(found.month.as_deref(), Some("March"));
    assert_eq!(found.day.as_deref(), Some("1"));
    assert_eq!(found.year.as_deref(), Some("1999"));
    assert!(recognizer.first("nothing to see").is_none());
}

#[test]
fn successive_matches_are_captured_from_left_to_right() {
    let recognizer = Recognizer::dates().unwrap();
    let found = recognizer.all("on March 1, 1999 and May 2nd, 2001");
    assert_eq!(found.len(), 2);
    assert_eq!(found[0].month.as_deref(), Some("March"));
    assert_eq!(found[1].month.as_deref(), Some("May"));
    assert_eq!(found[1].day.as_deref(), Some("2"));
    assert_eq!(found[1].year.as_deref(), Some("2001"));
    assert!(recognizer.all("nothing to see").is_empty());
}

#[test]
fn a_group_that_took_no_part_captures_nothing() {
    let recognizer = Recognizer::new(r"(?P<m>[a-z]+)(?: (?P<d>\d+))? (?P<y>\d{4})").unwrap();
    let found = recognizer.first("may 2000").unwrap();
    assert_eq!(found.month.as_deref(), Some("may"));
    assert_eq!(found.day, None);
    assert_eq!(found.year.as_deref(), Some("2000"));
}

#[test]
fn what_one_match_captured_is_read() {
    assert_eq!(
        Date::from_match(&capture(Some("1"), Some("Jan"), Some("2000"))),
        Ok(date(1, Month::January, 2000)),
    );
    assert_eq!(
        Date::from_match(&capture(None, Some("Jan"), Some("2000"))),
        Err(ParseDateError::InvalidRegexCaptures),
    );
    assert_eq!(
        Date::from_match(&capture(Some("1"), None, Some("2000"))),
        Err(ParseDateError::InvalidRegexCaptures),
    );
    assert_eq!(
        Date::from_match(&capture(Some("1"), Some("Jan"), None)),
        Err(ParseDateError::InvalidRegexCaptures),
    );
    assert_eq!(
        Date::from_match(&capture(Some("x"), None, None)),
        Err(ParseDateError::InvalidRegexCaptures),
    );
    assert_eq!(Date::from_capture(None), Err(ParseDateError::InvalidFormatting));
    assert_eq!(
        Date::from_capture(Some(capture(Some("31"), Some("apr."), Some("1")))),
        Err(ParseDateError::InvalidDayOfMonth),
    );
}

#[test]
fn what_successive_matches_captured_is_read() {
    let captures = vec![
        capture(Some("20"), Some("December"), Some("2022")),
        capture(Some("40"), Some("December"), Some("2022")),
        capture(Some("1"), Some("Octember"), Some("2022")),
        capture(Some("7"), Some("jan"), Some("2023")),
    ];
    assert_eq!(
        Date::from_captures(&captures),
        Ok(vec![date(20, Month::December, 2022), date(7, Month::January, 2023)]),
    );
    assert_eq!(Date::from_captures(&Vec::new()), Ok(Vec::new()));

    let mut captures = captures;
    captures.push(capture(Some("7"), None, Some("2023")));
    assert_eq!(Date::from_captures(&captures), Err(ParseDateError::InvalidRegexCaptures));
}

#[test]
fn each_error_of_a_single_date() {
    let words = Recognizer::new(r"^(?P<m>\w+) (?P<d>\w+) (?P<y>\S+)$").unwrap();
    assert_eq!(
        Date::from_text_single_with("too few", &words),
        Err(ParseDateError::InvalidFormatting),
    );
    assert_eq!(
        Date::from_text_single_with("May xx 2000", &words),
        Err(ParseDateError::InvalidDayFormatting),
    );
    assert_eq!(
        Date::from_text_single_with("Mai 1 2000", &words),
        Err(ParseDateError::InvalidMonthFormatting),
    );
    assert_eq!(
        Date::from_text_single_with("May 1 MM", &words),
        Err(ParseDateError::InvalidYearFormatting),
    );
    assert_eq!(
        Date::from_text_single_with("May 32 2000", &words),
        Err(ParseDateError::InvalidDayOfMonth),
    );
    assert_eq!(
        Date::from_text_single_with("May 31 -2000", &words),
        Ok(date(31, Month::May, -2000)),
    );

    let no_year = Recognizer::new(r"^(?P<m>\w+) (?P<d>\w+)$").unwrap();
    assert_eq!(
        Date::from_text_single_with("May 1", &no_year),
        Err(ParseDateError::InvalidRegexCaptures),
    );
}

#[test]
fn a_whole_text_is_one_date() {
    assert_eq!(Date::from_text_single("Feb. 29 2000"), Ok(date(29, Month::February, 2000)));
    assert_eq!(Date::from_text_single("Feb29,2000"), Ok(date(29, Month::February, 2000)));
    assert_eq!(Date::from_text_single("March 3rd, -44"), Ok(date(3, Month::March, -44)));
    assert_eq!(
        Date::from_text_single("on March 3rd, 44"),
        Err(ParseDateError::InvalidFormatting),
    );
    assert_eq!(
        Date::from_text_single("March 3rd, 44 BCE"),
        Err(ParseDateError::InvalidFormatting),
    );
    assert_eq!(
        Date::from_text_single("Feb. 29 1900"),
        Err(ParseDateError::InvalidDayOfMonth),
    );
    assert_eq!(
        Date::from_text_single("Octember 4, 2000"),
        Err(ParseDateError::InvalidMonthFormatting),
    );
    assert_eq!(
        Date::from_text_single("May 4, 99999999999999999999999"),
        Err(ParseDateError::InvalidYearFormatting),
    );
}

#[test]
fn dates_are_found_in_the_order_of_the_text() {
    let text = "x May 2, 2001 y Jan 1 1999 z May 2, 2001, Foo 1, 2000, Feb 30, 2000";
    assert_eq!(
        Date::from_string(text),
        Ok(vec![date(2, Month::May, 2001), date(1, Month::January, 1999), date(2, Month::May, 2001)]),
    );
    assert_eq!(Date::from_string(""), Ok(Vec::new()));
}

#[test]
fn dates_are_found_and_sorted() {
    let text = "x May 2, 2001 y Jan 1 1999 z May 2, 2001, Foo 1, 2000, Feb 30, 2000";
    let list = Date::from_text_multi_sorted(text).unwrap();
    assert_eq!(
        list.as_slice(),
        &[date(1, Month::January, 1999), date(2, Month::May, 2001), date(2, Month::May, 2001)],
    );

    let recognizer = Recognizer::new(r"(?P<d>\d\d)/(?P<m>[a-z]{3})/(?P<y>\d{4})").unwrap();
    let list = Date::from_text_multi_sorted_with("02/feb/2002 01/jan/2001", &recognizer).unwrap();
    assert_eq!(list.as_slice(), &[date(1, Month::January, 2001), date(2, Month::February, 2002)]);

    let recognizer = Recognizer::new(r"(?P<d>\d\d)/(?P<m>[a-z]{3})").unwrap();
    assert!(matches!(
        Date::from_text_multi_sorted_with("02/feb/2002", &recognizer),
        Err(ParseDateError::InvalidRegexCaptures),
    ));
    assert!(matches!(
        Date::from_string_with("02/feb/2002", &recognizer),
        Err(ParseDateError::InvalidRegexCaptures),
    ));
    assert_eq!(Date::from_string_with("nothing", &recognizer), Ok(Vec::new()));
}

#[test]
fn a_written_date_of_the_common_era_is_read_back() {
    let first = date(1, Month::January, 2000);
    assert_eq!(first.to_string(), "January 1st, 2000");
    assert_eq!(Date::from_text_single(&first.to_string()), Ok(first));

    let dates = [
        date(1, Month::January, 0),
        date(11, Month::February, 1),
        date(12, Month::March, 12),
        date(13, Month::April, 123),
        date(21, Month::May, 1234),
        date(22, Month::June, 12345),
        date(23, Month::July, 2000),
        date(24, Month::August, 2001),
        date(30, Month::September, 2002),
        date(31, Month::October, 2003),
        date(3, Month::November, 2004),
        date(2, Month::December, isize::MAX),
        date(29, Month::February, 2000),
    ];
    for date in dates {
        assert_eq!(Date::from_text_single(&date.to_string()), Ok(date));
        assert_eq!(date.to_string().parse::<Date>(), Ok(date));
        assert_eq!(Date::from_string(&date.to_string()), Ok(vec![date]));
    }
}

#[test]
fn a_written_date_before_the_common_era_is_not_read_back() {
    let old = date(30, Month::November, -33);
    assert_eq!(old.to_string(), "November 30th, 33 BCE");
    assert_eq!(Date::from_text_single(&old.to_string()), Err(ParseDateError::InvalidFormatting));
    assert_eq!(Date::from_string(&old.to_string()), Ok(vec![date(30, Month::November, 33)]));
    assert_eq!(date(1, Month::May, isize::MIN).to_string(), format!("May 1st, {} BCE", isize::MIN.unsigned_abs()));
}

#[test]
fn ordinal_suffixes() {
    let suffix = |day: usize| {
        let text = Date::new_unchecked(day, Month::January, 1).to_string();
        text[text.find(|c: char| c.is_ascii_digit()).unwrap()..text.find(',').unwrap()].to_string()
    };
    assert_eq!(suffix(1), "1st");
    assert_eq!(suffix(2), "2nd");
    assert_eq!(suffix(3), "3rd");
    assert_eq!(suffix(4), "4th");
    assert_eq!(suffix(9), "9th");
    assert_eq!(suffix(10), "10th");
    assert_eq!(suffix(11), "11th");
    assert_eq!(suffix(12), "12th");
    assert_eq!(suffix(13), "13th");
    assert_eq!(suffix(19), "19th");
    assert_eq!(suffix(20), "20th");
    assert_eq!(suffix(21), "21st");
    assert_eq!(suffix(22), "22nd");
    assert_eq!(suffix(23), "23rd");
    assert_eq!(suffix(31), "31st");
    assert_eq!(suffix(0), "0th");
    assert_eq!(suffix(111), "111st");
}
