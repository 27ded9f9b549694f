//! Dates and months as text: their names, how a date is written, and how
//! the three parts of a written date are read back.

use crate::date::Date;
use crate::date::Month;
use crate::date::ParseDateError;
use crate::date::ParseMonthError;
use crate::text::append_decimal;
use crate::text::decimal_text;
use crate::text::isize_value;
use crate::text::lemma_number_reads_back;
use crate::text::lowercase;
use crate::text::lowercase_chars;
use crate::text::parse_isize;
use crate::text::parse_usize;
use crate::text::usize_value;
use vstd::prelude::*;
use vstd::string::StringExecFns;

verus! {

impl ParseMonthError {
    /// The sentence that describes the error.
    pub open spec fn spec_message(self) -> Seq<char> {
        "No matching month"@
    }

    /// The sentence that describes the error.
    pub fn to_string(&self) -> (s: String)
        ensures
            s@ == self.spec_message(),
    {
        String::from_str("No matching month")
    }
}

impl ParseDateError {
    /// The sentence that describes the error.
    pub open spec fn spec_message(self) -> Seq<char> {
        match self {
            ParseDateError::InvalidFormatting => "Text is not a date"@,
            ParseDateError::InvalidDayFormatting => "Day is not valid"@,
            ParseDateError::InvalidMonthFormatting => "Month is not valid"@,
            ParseDateError::InvalidYearFormatting => "Year is not valid"@,
            ParseDateError::InvalidDayOfMonth => "Invalid day of month"@,
            ParseDateError::InvalidRegexCaptures =>
                "Regex does not contain $m, $d, or $y capture groups"@,
        }
    }

    /// The sentence that describes the error.
    pub fn to_string(&self) -> (s: String)
        ensures
            s@ == self.spec_message(),
    {
        String::from_str(
            match self {
                ParseDateError::InvalidFormatting => "Text is not a date",
                ParseDateError::InvalidDayFormatting => "Day is not valid",
                ParseDateError::InvalidMonthFormatting => "Month is not valid",
                ParseDateError::InvalidYearFormatting => "Year is not valid",
                ParseDateError::InvalidDayOfMonth => "Invalid day of month",
                ParseDateError::InvalidRegexCaptures =>
                    "Regex does not contain $m, $d, or $y capture groups",
            },
        )
    }
}

impl Month {
    /// The English name of the month, with a capital.
    pub open spec fn spec_name(self) -> Seq<char> {
        match self {
            Month::January => "January"@,
            Month::February => "February"@,
            Month::March => "March"@,
            Month::April => "April"@,
            Month::May => "May"@,
            Month::June => "June"@,
            Month::July => "July"@,
            Month::August => "August"@,
            Month::September => "September"@,
            Month::October => "October"@,
            Month::November => "November"@,
            Month::December => "December"@,
        }
    }

    /// The first three letters of the name, in lower case.
    pub open spec fn spec_abbreviation(self) -> Seq<char> {
        lowercase(self.spec_name()).take(3)
    }

    /// Whether `lowered`, a text in lower case, is one of the month's
    /// spellings: the full name, its first three letters, or those three
    /// letters and a full stop (which May does not take).
    pub open spec fn is_spelled(self, lowered: Seq<char>) -> bool {
        ||| lowered == lowercase(self.spec_name())
        ||| lowered == self.spec_abbreviation()
        ||| (self != Month::May && lowered == self.spec_abbreviation().push('.'))
    }

    /// The English name of the month, with a capital.
    pub fn name(&self) -> (s: &'static str)
        ensures
            s@ == self.spec_name(),
    {
        match self {
            Month::January => "January",
            Month::February => "February",
            Month::March => "March",
            Month::April => "April",
            Month::May => "May",
            Month::June => "June",
            Month::July => "July",
            Month::August => "August",
            Month::September => "September",
            Month::October => "October",
            Month::November => "November",
            Month::December => "December",
        }
    }

    /// The English name of the month, with a capital.
    pub fn to_string(&self) -> (s: String)
        ensures
            s@ == self.spec_name(),
    {
        String::from_str(self.name())
    }

    /// Every name has at least the three letters of its abbreviation.
    pub proof fn lemma_name_length(self)
        ensures
            3 <= self.spec_name().len() <= 9,
    {
        reveal_strlit("January");
        reveal_strlit("February");
        reveal_strlit("March");
        reveal_strlit("April");
        reveal_strlit("May");
        reveal_strlit("June");
        reveal_strlit("July");
        reveal_strlit("August");
        reveal_strlit("September");
        reveal_strlit("October");
        reveal_strlit("November");
        reveal_strlit("December");
    }

    /// The first three letters of the name, in lower case, letter by
    /// letter.
    pub open spec fn spec_initials(self) -> Seq<char> {
        match self {
            Month::January => seq!['j', 'a', 'n'],
            Month::February => seq!['f', 'e', 'b'],
            Month::March => seq!['m', 'a', 'r'],
            Month::April => seq!['a', 'p', 'r'],
            Month::May => seq!['m', 'a', 'y'],
            Month::June => seq!['j', 'u', 'n'],
            Month::July => seq!['j', 'u', 'l'],
            Month::August => seq!['a', 'u', 'g'],
            Month::September => seq!['s', 'e', 'p'],
            Month::October => seq!['o', 'c', 't'],
            Month::November => seq!['n', 'o', 'v'],
            Month::December => seq!['d', 'e', 'c'],
        }
    }

    /// The abbreviation of a month is made of its initials.
    pub proof fn lemma_abbreviation(self)
        ensures
            self.spec_abbreviation() == self.spec_initials(),
    {
        reveal_strlit("January");
        reveal_strlit("February");
        reveal_strlit("March");
        reveal_strlit("April");
        reveal_strlit("May");
        reveal_strlit("June");
        reveal_strlit("July");
        reveal_strlit("August");
        reveal_strlit("September");
        reveal_strlit("October");
        reveal_strlit("November");
        reveal_strlit("December");
        assert(self.spec_abbreviation() =~= self.spec_initials());
    }

    /// No two months have the same abbreviation.
    pub proof fn lemma_abbreviations_differ(self, other: Month)
        requires
            self != other,
        ensures
            self.spec_abbreviation() != other.spec_abbreviation(),
    {
        self.lemma_abbreviation();
        other.lemma_abbreviation();
        let a = self.spec_initials();
        let b = other.spec_initials();
        assert(a[0] != b[0] || a[1] != b[1] || a[2] != b[2]);
    }

    /// Every spelling of a month starts with its abbreviation.
    pub proof fn lemma_spelling_starts(self, lowered: Seq<char>)
        requires
            self.is_spelled(lowered),
        ensures
            lowered.len() >= 3,
            lowered.take(3) == self.spec_abbreviation(),
    {
        self.lemma_name_length();
        let abbreviation = self.spec_abbreviation();
        if lowered == lowercase(self.spec_name()) {
        } else if lowered == abbreviation {
            assert(lowered.take(3) =~= abbreviation);
        } else {
            assert(lowered.take(3) =~= abbreviation);
        }
    }

    /// A text spells at most one month.
    pub proof fn lemma_one_month(self, other: Month, lowered: Seq<char>)
        requires
            self.is_spelled(lowered),
            other.is_spelled(lowered),
        ensures
            self == other,
    {
        self.lemma_spelling_starts(lowered);
        other.lemma_spelling_starts(lowered);
        if self != other {
            self.lemma_abbreviations_differ(other);
        }
    }

    /// The name of a month names that month.
    pub proof fn lemma_name_reads_back(self)
        ensures
            month_named(self.spec_name()) == Some(self),
    {
        let lowered = lowercase(self.spec_name());
        assert(self.is_spelled(lowered));
        if Month::January.is_spelled(lowered) {
            self.lemma_one_month(Month::January, lowered);
        }
        if Month::February.is_spelled(lowered) {
            self.lemma_one_month(Month::February, lowered);
        }
        if Month::March.is_spelled(lowered) {
            self.lemma_one_month(Month::March, lowered);
        }
        if Month::April.is_spelled(lowered) {
            self.lemma_one_month(Month::April, lowered);
        }
        if Month::May.is_spelled(lowered) {
            self.lemma_one_month(Month::May, lowered);
        }
        if Month::June.is_spelled(lowered) {
            self.lemma_one_month(Month::June, lowered);
        }
        if Month::July.is_spelled(lowered) {
            self.lemma_one_month(Month::July, lowered);
        }
        if Month::August.is_spelled(lowered) {
            self.lemma_one_month(Month::August, lowered);
        }
        if Month::September.is_spelled(lowered) {
            self.lemma_one_month(Month::September, lowered);
        }
        if Month::October.is_spelled(lowered) {
            self.lemma_one_month(Month::October, lowered);
        }
        if Month::November.is_spelled(lowered) {
            self.lemma_one_month(Month::November, lowered);
        }
        if Month::December.is_spelled(lowered) {
            self.lemma_one_month(Month::December, lowered);
        }
    }

    /// Whether `lowered` is one of the month's spellings.
    fn spells(&self, lowered: &Vec<char>) -> (r: bool)
        ensures
            r == self.is_spelled(lowered@),
    {
        let name = lowercase_chars(self.name());
        proof {
            self.lemma_name_length();
        }
        let ghost abbreviation = self.spec_abbreviation();
        assert(abbreviation.len() == 3);
        assert(abbreviation.push('.').len() == 4);
        if same_chars(lowered, &name) {
            return true;
        }
        let n = lowered.len();
        if n != 3 && n != 4 {
            return false;
        }
        if lowered[0] != name[0] || lowered[1] != name[1] || lowered[2] != name[2] {
            proof {
                assert(abbreviation[0] == name@[0]);
                assert(abbreviation[1] == name@[1]);
                assert(abbreviation[2] == name@[2]);
                assert(abbreviation.push('.')[0] == name@[0]);
                assert(abbreviation.push('.')[1] == name@[1]);
                assert(abbreviation.push('.')[2] == name@[2]);
            }
            return false;
        }
        if n == 3 {
            assert(lowered@ =~= abbreviation);
            return true;
        }
        let dotted = lowered[3] == '.';
        proof {
            if dotted {
                assert(lowered@ =~= abbreviation.push('.'));
            } else {
                assert(abbreviation.push('.')[3] == '.');
            }
        }
        dotted && !matches!(self, Month::May)
    }

    /// Reads a month from its name, from the first three letters of its
    /// name, or from those three letters and a full stop, in any mix of
    /// upper and lower case. A text that names no month is an error.
    pub fn parse(text: &str) -> (r: Result<Month, ParseMonthError>)
        ensures
            r == match month_named(text@) {
                Some(month) => Ok::<Month, ParseMonthError>(month),
                None => Err(ParseMonthError::NoMatchingMonth),
            },
    {
        let lowered = lowercase_chars(text);
        if Month::January.spells(&lowered) {
            return Ok(Month::January);
        }
        if Month::February.spells(&lowered) {
            return Ok(Month::February);
        }
        if Month::March.spells(&lowered) {
            return Ok(Month::March);
        }
        if Month::April.spells(&lowered) {
            return Ok(Month::April);
        }
        if Month::May.spells(&lowered) {
            return Ok(Month::May);
        }
        if Month::June.spells(&lowered) {
            return Ok(Month::June);
        }
        if Month::July.spells(&lowered) {
            return Ok(Month::July);
        }
        if Month::August.spells(&lowered) {
            return Ok(Month::August);
        }
        if Month::September.spells(&lowered) {
            return Ok(Month::September);
        }
        if Month::October.spells(&lowered) {
            return Ok(Month::October);
        }
        if Month::November.spells(&lowered) {
            return Ok(Month::November);
        }
        if Month::December.spells(&lowered) {
            return Ok(Month::December);
        }
        Err(ParseMonthError::NoMatchingMonth)
    }
}

impl std::str::FromStr for Month {
    type Err = ParseMonthError;

    /// Reads a month as `Month::parse` does.
    fn from_str(text: &str) -> (r: Result<Month, ParseMonthError>)
        ensures
            r == match month_named(text@) {
                Some(month) => Ok::<Month, ParseMonthError>(month),
                None => Err(ParseMonthError::NoMatchingMonth),
            },
    {
        Month::parse(text)
    }
}

/// Whether two vectors hold the same characters.
fn same_chars(a: &Vec<char>, b: &Vec<char>) -> (r: bool)
    ensures
        r == (a@ == b@),
{
    if a.len() != b.len() {
        return false;
    }
    let mut i: usize = 0;
    while i < a.len()
        invariant
            a.len() == b.len(),
            0 <= i <= a.len(),
            forall|k: int| 0 <= k < i ==> a@[k] == b@[k],
        decreases a.len() - i,
    {
        if a[i] != b[i] {
            return false;
        }
        i = i + 1;
    }
    assert(a@ =~= b@);
    true
}

/// The month that `text` names, in any mix of upper and lower case: the
/// first month, in calendar order, of which `text` is a spelling.
pub open spec fn month_named(text: Seq<char>) -> Option<Month> {
    let lowered = lowercase(text);
    if Month::January.is_spelled(lowered) {
        Some(Month::January)
    } else if Month::February.is_spelled(lowered) {
        Some(Month::February)
    } else if Month::March.is_spelled(lowered) {
        Some(Month::March)
    } else if Month::April.is_spelled(lowered) {
        Some(Month::April)
    } else if Month::May.is_spelled(lowered) {
        Some(Month::May)
    } else if Month::June.is_spelled(lowered) {
        Some(Month::June)
    } else if Month::July.is_spelled(lowered) {
        Some(Month::July)
    } else if Month::August.is_spelled(lowered) {
        Some(Month::August)
    } else if Month::September.is_spelled(lowered) {
        Some(Month::September)
    } else if Month::October.is_spelled(lowered) {
        Some(Month::October)
    } else if Month::November.is_spelled(lowered) {
        Some(Month::November)
    } else if Month::December.is_spelled(lowered) {
        Some(Month::December)
    } else {
        None
    }
}

/// The letters that follow the number of a day: "th" from the tenth to the
/// nineteenth, else by the last digit.
pub open spec fn ordinal_suffix(day: nat) -> Seq<char> {
    if 10 <= day <= 19 {
        "th"@
    } else if day % 10 == 1 {
        "st"@
    } else if day % 10 == 2 {
        "nd"@
    } else if day % 10 == 3 {
        "rd"@
    } else {
        "th"@
    }
}

/// The distance of `year` from the year 0.
pub open spec fn year_magnitude(year: int) -> nat {
    if year >= 0 {
        year as nat
    } else {
        (-year) as nat
    }
}

impl Date {
    /// How the date is written: the month's name, the day with its ordinal
    /// suffix, a comma, the year without its sign, and " BCE" where the
    /// year is negative.
    pub open spec fn spec_text(self) -> Seq<char> {
        self.month().spec_name() + " "@ + decimal_text(self.day_of_month() as nat)
            + ordinal_suffix(self.day_of_month() as nat) + ", "@ + decimal_text(
            year_magnitude(self.year() as int),
        ) + (if self.year() >= 0 {
            ""@
        } else {
            " BCE"@
        })
    }

    /// The written date up to and with the ordinal suffix of the day.
    pub open spec fn spec_day_text(self) -> Seq<char> {
        self.month().spec_name() + " "@ + decimal_text(self.day_of_month() as nat)
            + ordinal_suffix(self.day_of_month() as nat)
    }

    /// The written date from the comma on.
    pub open spec fn spec_year_text(self) -> Seq<char> {
        ", "@ + decimal_text(year_magnitude(self.year() as int)) + (if self.year() >= 0 {
            ""@
        } else {
            " BCE"@
        })
    }

    /// The written date is the month and the day followed by the year.
    pub proof fn lemma_text_parts(self)
        ensures
            self.spec_text() == self.spec_day_text() + self.spec_year_text(),
    {
        assert(self.spec_text() =~= self.spec_day_text() + self.spec_year_text());
    }

    /// Appends the month and the day with its ordinal suffix to `out`.
    fn append_day_text(&self, out: &mut String)
        ensures
            final(out)@ == old(out)@ + self.spec_day_text(),
    {
        let day = self.day_of_month();
        let suffix = if day >= 10 && day <= 19 {
            "th"
        } else if day % 10 == 1 {
            "st"
        } else if day % 10 == 2 {
            "nd"
        } else if day % 10 == 3 {
            "rd"
        } else {
            "th"
        };
        let ghost start = out@;
        out.append(self.month().name());
        out.append(" ");
        let ghost named = out@;
        assert(named =~= start + (self.month().spec_name() + " "@));
        append_decimal(out, day);
        out.append(suffix);
        assert(out@ =~= start + self.spec_day_text());
    }

    /// Appends the comma and the year to `out`.
    fn append_year_text(&self, out: &mut String)
        ensures
            final(out)@ == old(out)@ + self.spec_year_text(),
    {
        let year = self.year();
        let magnitude: usize = if year >= 0 {
            year as usize
        } else {
            (-(year + 1)) as usize + 1
        };
        let ghost start = out@;
        out.append(", ");
        append_decimal(out, magnitude);
        out.append(if year >= 0 {
            ""
        } else {
            " BCE"
        });
        assert(out@ =~= start + self.spec_year_text());
    }

    /// Appends the written date to `out`.
    pub fn append_text(&self, out: &mut String)
        ensures
            final(out)@ == old(out)@ + self.spec_text(),
    {
        let ghost start = out@;
        self.append_day_text(out);
        self.append_year_text(out);
        proof {
            self.lemma_text_parts();
            assert(out@ =~= start + (self.spec_day_text() + self.spec_year_text()));
        }
    }

    /// Writes the date, as in "January 1st, 2000" or "November 30th, 33 BCE".
    pub fn to_string(&self) -> (s: String)
        ensures
            s@ == self.spec_text(),
    {
        let mut s = String::new();
        self.append_text(&mut s);
        assert(s@ =~= self.spec_text());
        s
    }

    /// The date that three texts write, or why they write none: the first
    /// of day, month and year that cannot be read decides the error, and a
    /// day that the month does not have is the last thing looked for.
    pub open spec fn spec_from_fields(day: Seq<char>, month: Seq<char>, year: Seq<char>) -> Result<
        Date,
        ParseDateError,
    > {
        match usize_value(day) {
            None => Err(ParseDateError::InvalidDayFormatting),
            Some(d) => match month_named(month) {
                None => Err(ParseDateError::InvalidMonthFormatting),
                Some(m) => match isize_value(year) {
                    None => Err(ParseDateError::InvalidYearFormatting),
                    Some(y) => Date::spec_new(d, m, y),
                },
            },
        }
    }

    /// A date of the common era whose day exists is read back from the
    /// three parts of its written form: the digits of its day, the name
    /// of its month and the digits of its year.
    pub proof fn lemma_parts_read_back(self)
        requires
            self.is_valid(),
            self.year() >= 0,
        ensures
            Date::spec_from_fields(
                decimal_text(self.day_of_month() as nat),
                self.month().spec_name(),
                decimal_text(self.year() as nat),
            ) == Ok::<Date, ParseDateError>(self),
    {
        lemma_number_reads_back(self.day_of_month() as nat);
        lemma_number_reads_back(self.year() as nat);
        self.month().lemma_name_reads_back();
        Date::lemma_parts(self.day_of_month(), self.month(), self.year());
        self.lemma_same_parts(
            Date::spec_new_unchecked(self.day_of_month(), self.month(), self.year()),
        );
    }

    /// Reads a date from the texts of its day, its month and its year.
    pub fn from_fields(day: &str, month: &str, year: &str) -> (r: Result<Date, ParseDateError>)
        ensures
            r == Date::spec_from_fields(day@, month@, year@),
            r matches Ok(date) ==> date.is_valid(),
    {
        let d = match parse_usize(day) {
            Some(d) => d,
            None => return Err(ParseDateError::InvalidDayFormatting),
        };
        let m = match Month::parse(month) {
            Ok(m) => m,
            Err(_) => return Err(ParseDateError::InvalidMonthFormatting),
        };
        let y = match parse_isize(year) {
            Some(y) => y,
            None => return Err(ParseDateError::InvalidYearFormatting),
        };
        Date::new(d, m, y)
    }
}

} // verus!
