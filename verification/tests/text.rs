//! Numbers and names as text.

use dacom::date::Date;
use dacom::date::Month;
use dacom::date::ParseDateError;
use dacom::date::ParseMonthError;
use dacom::text::append_decimal;
use dacom::text::chars_of;
use dacom::text::lowercase_chars;
use dacom::text::parse_isize;
use dacom::text::parse_usize;
use dacom::text::to_lowercase_char;

#[test]
fn unsigned_numbers_are_read() {
    assert_eq!(parse_usize("0"), Some(0));
    assert_eq!(parse_usize("7"), Some(7));
    assert_eq!(parse_usize("007"), Some(7));
    assert_eq!(parse_usize("+42"), Some(42));
    assert_eq!(parse_usize("2000"), Some(2000));
    assert_eq!(parse_usize(&usize::MAX.to_string()), Some(usize::MAX));
}

#[test]
fn what_is_no_unsigned_number_is_refused() {
    assert_eq!(parse_usize(""), None);
    assert_eq!(parse_usize("+"), None);
    assert_eq!(parse_usize("-"), None);
    assert_eq!(parse_usize("-1"), None);
    assert_eq!(parse_usize("-0"), None);
    assert_eq!(parse_usize("1 "), None);
    assert_eq!(parse_usize(" 1"), None);
    assert_eq!(parse_usize("1_000"), None);
    assert_eq!(parse_usize("12a"), None);
    assert_eq!(parse_usize("++1"), None);
    assert_eq!(parse_usize("\u{0661}"), None);
    assert_eq!(parse_usize("18446744073709551616"), None);
    assert_eq!(parse_usize("99999999999999999999999999999999"), None);
}

#[test]
fn signed_numbers_are_read() {
    assert_eq!(parse_isize("0"), Some(0));
    assert_eq!(parse_isize("-0"), Some(0));
    assert_eq!(parse_isize("+0"), Some(0));
    assert_eq!(parse_isize("-33"), Some(-33));
    assert_eq!(parse_isize("+2000"), Some(2000));
    assert_eq!(parse_isize("2000"), Some(2000));
    assert_eq!(parse_isize(&isize::MAX.to_string()), Some(isize::MAX));
    assert_eq!(parse_isize(&isize::MIN.to_string()), Some(isize::MIN));
}

#[test]
fn what_is_no_signed_number_is_refused() {
    assert_eq!(parse_isize(""), None);
    assert_eq!(parse_isize("+"), None);
    assert_eq!(parse_isize("-"), None);
    assert_eq!(parse_isize("--1"), None);
    assert_eq!(parse_isize("+-1"), None);
    assert_eq!(parse_isize("1-"), None);
    assert_eq!(parse_isize("9223372036854775808"), None);
    assert_eq!(parse_isize("-9223372036854775809"), None);
    assert_eq!(parse_isize("-99999999999999999999999999999999"), None);
}

#[test]
fn numbers_agree_with_the_standard_library() {
    let texts = [
        "", "+", "-", "0", "-0", "+0", "12", "-12", "+12", "0012", "1 2", "12x", "x12",
        "18446744073709551615", "18446744073709551616", "9223372036854775807",
        "9223372036854775808", "-9223372036854775808", "-9223372036854775809",
    ];
    for text in texts {
        assert_eq!(parse_usize(text), text.parse::<usize>().ok(), "{text}");
        assert_eq!(parse_isize(text), text.parse::<isize>().ok(), "{text}");
    }
}

#[test]
fn numbers_are_written_in_digits() {
    let mut out = String::from("n=");
    append_decimal(&mut out, 0);
    assert_eq!(out, "n=0");
    append_decimal(&mut out, 9);
    append_decimal(&mut out, 10);
    append_decimal(&mut out, 2000);
    assert_eq!(out, "n=09102000");

    let mut out = String::new();
    append_decimal(&mut out, usize::MAX);
    assert_eq!(out, usize::MAX.to_string());
}

#[test]
fn written_numbers_are_read_back() {
    for n in [0usize, 1, 9, 10, 11, 99, 100, 101, 1999, 2000, 65535, usize::MAX] {
        let mut out = String::new();
        append_decimal(&mut out, n);
        assert_eq!(parse_usize(&out), Some(n));
    }
}

#[test]
fn letters_are_lowered() {
    assert_eq!(to_lowercase_char('A'), 'a');
    assert_eq!(to_lowercase_char('Z'), 'z');
    assert_eq!(to_lowercase_char('a'), 'a');
    assert_eq!(to_lowercase_char('@'), '@');
    assert_eq!(to_lowercase_char('['), '[');
    assert_eq!(to_lowercase_char('.'), '.');
    assert_eq!(to_lowercase_char('\u{00c4}'), '\u{00c4}');
    assert_eq!(lowercase_chars("JaN."), vec!['j', 'a', 'n', '.']);
    assert_eq!(chars_of("JaN."), vec!['J', 'a', 'N', '.']);
    assert_eq!(chars_of(""), Vec::<char>::new());
}

#[test]
fn names_of_months_are_read_back() {
    let months = [
        Month::January, Month::February, Month::March, Month::April, Month::May, Month::June,
        Month::July, Month::August, Month::September, Month::October, Month::November,
        Month::December,
    ];
    for (index, month) in months.iter().enumerate() {
        assert_eq!(Month::parse(month.name()), Ok(*month));
        assert_eq!(Month::parse(&month.to_string()), Ok(*month));
        assert_eq!(month.number() as usize, index + 1);
        assert_eq!(Month::from_number(month.number()), *month);
    }
}

#[test]
fn spellings_of_months() {
    assert_eq!(Month::parse("sEp"), Ok(Month::September));
    assert_eq!(Month::parse("SEP."), Ok(Month::September));
    assert_eq!(Month::parse("sept"), Err(ParseMonthError::NoMatchingMonth));
    assert_eq!(Month::parse("may."), Err(ParseMonthError::NoMatchingMonth));
    assert_eq!(Month::parse("ma"), Err(ParseMonthError::NoMatchingMonth));
    assert_eq!(Month::parse("jan.."), Err(ParseMonthError::NoMatchingMonth));
    assert_eq!(Month::parse("janu"), Err(ParseMonthError::NoMatchingMonth));
    assert_eq!(Month::parse("january."), Err(ParseMonthError::NoMatchingMonth));
    assert_eq!(Month::parse("m\u{00e4}r"), Err(ParseMonthError::NoMatchingMonth));
    assert_eq!(Month::parse("\u{212a}"), Err(ParseMonthError::NoMatchingMonth));
    assert_eq!(ParseMonthError::NoMatchingMonth.to_string(), "No matching month");
}

#[test]
fn months_agree_with_lowering_by_the_standard_library() {
    let texts = [
        "January", "JANUARY", "jan", "Jan.", "May", "may.", "MAY", "Sept", "sep.", "DEC.",
        "dec", "December.", "", ".", "ju", "jun", "jul", "juL.", "Augus", "o\u{212a}t",
        "\u{0130}an", "m\u{00e4}r", "nov ", " nov",
    ];
    let names = [
        "january", "february", "march", "april", "may", "june", "july", "august", "september",
        "october", "november", "december",
    ];
    for text in texts {
        let lowered = text.to_lowercase();
        let expected = names.iter().position(|name| {
            lowered == *name
                || (*name != "may"
                    && (lowered == name[..3] || lowered == format!("{}.", &name[..3])))
        });
        let found = Month::parse(text).ok().map(|month| month.number() as usize - 1);
        assert_eq!(found, expected, "{text}");
    }
}

#[test]
fn fields_are_read_in_the_order_day_month_year() {
    assert_eq!(Date::from_fields("1", "January", "2000"), Date::new(1, Month::January, 2000));
    assert_eq!(Date::from_fields("x", "Foo", "y"), Err(ParseDateError::InvalidDayFormatting));
    assert_eq!(Date::from_fields("1", "Foo", "y"), Err(ParseDateError::InvalidMonthFormatting));
    assert_eq!(Date::from_fields("1", "Feb", "y"), Err(ParseDateError::InvalidYearFormatting));
    assert_eq!(Date::from_fields("30", "Feb", "2000"), Err(ParseDateError::InvalidDayOfMonth));
    assert_eq!(Date::from_fields("0", "Feb", "2000"), Err(ParseDateError::InvalidDayOfMonth));
    assert_eq!(Date::from_fields("29", "feb.", "-4"), Date::new(29, Month::February, -4));
    assert_eq!(Date::from_fields("+7", "JUN", "+7"), Date::new(7, Month::June, 7));
}

#[test]
fn errors_of_dates_are_described() {
    assert_eq!(ParseDateError::InvalidFormatting.to_string(), "Text is not a date");
    assert_eq!(ParseDateError::InvalidDayFormatting.to_string(), "Day is not valid");
    assert_eq!(ParseDateError::InvalidMonthFormatting.to_string(), "Month is not valid");
    assert_eq!(ParseDateError::InvalidYearFormatting.to_string(), "Year is not valid");
    assert_eq!(ParseDateError::InvalidDayOfMonth.to_string(), "Invalid day of month");
    assert_eq!(
        ParseDateError::InvalidRegexCaptures.to_string(),
        "Regex does not contain $m, $d, or $y capture groups",
    );
}
