//! Calendar dates: months, leap years and validated day/month/year triples.

use std::cmp::Ordering;
use vstd::prelude::*;

verus! {

/// The year, the number of the month and the day of a date, in this order:
/// the order in which two dates are compared.
pub type DateKey = (isize, u8, usize);

/// Error detailing why a text is not a month.
#[derive(Copy, Clone, Debug, PartialEq, Eq, Structural)]
pub enum ParseMonthError {
    /// A month matching the input text was not found.
    NoMatchingMonth,
}

/// Error detailing why a text or a triple of numbers is not a date.
#[derive(Copy, Clone, Debug, PartialEq, Eq, Structural)]
pub enum ParseDateError {
    /// The input string is not formatted as a date.
    InvalidFormatting,
    /// The input day is not a number.
    InvalidDayFormatting,
    /// The input month is not a month.
    InvalidMonthFormatting,
    /// The input year is not a year.
    InvalidYearFormatting,
    /// The day of the month is not valid for the given month and year.
    InvalidDayOfMonth,
    /// The given regex does not have M/D/Y captures.
    InvalidRegexCaptures,
}

/// A month of the year, in calendar order.
#[derive(Copy, Clone, Debug, PartialEq, Eq, PartialOrd, Ord, Structural)]
pub enum Month {
    January,
    February,
    March,
    April,
    May,
    June,
    July,
    August,
    September,
    October,
    November,
    December,
}

/// A day of a month of a year. Negative years are years before the common
/// era, the others are years of the common era.
#[derive(Copy, Clone, Debug, PartialEq, Eq, Structural)]
pub struct Date {
    day: usize,
    month: Month,
    year: isize,
}

/// The order of two keys: by year, then by month, then by day.
pub open spec fn key_order(a: DateKey, b: DateKey) -> Ordering {
    if a.0 < b.0 {
        Ordering::Less
    } else if a.0 > b.0 {
        Ordering::Greater
    } else if a.1 < b.1 {
        Ordering::Less
    } else if a.1 > b.1 {
        Ordering::Greater
    } else if a.2 < b.2 {
        Ordering::Less
    } else if a.2 > b.2 {
        Ordering::Greater
    } else {
        Ordering::Equal
    }
}

/// The order seen from the other side.
pub open spec fn reversed(order: Ordering) -> Ordering {
    match order {
        Ordering::Less => Ordering::Greater,
        Ordering::Equal => Ordering::Equal,
        Ordering::Greater => Ordering::Less,
    }
}

/// Compares two keys by year, then by month, then by day.
pub fn compare_keys(a: &DateKey, b: &DateKey) -> (order: Ordering)
    ensures
        order == key_order(*a, *b),
{
    if a.0 < b.0 {
        Ordering::Less
    } else if a.0 > b.0 {
        Ordering::Greater
    } else if a.1 < b.1 {
        Ordering::Less
    } else if a.1 > b.1 {
        Ordering::Greater
    } else if a.2 < b.2 {
        Ordering::Less
    } else if a.2 > b.2 {
        Ordering::Greater
    } else {
        Ordering::Equal
    }
}

/// Whether `year` is a leap year of the proleptic Gregorian calendar.
pub open spec fn is_leap(year: int) -> bool {
    year % 4 == 0 && (year % 100 != 0 || year % 400 == 0)
}

/// Whether `year` is a leap year: a multiple of 4 that is no multiple of
/// 100, or a multiple of 400.
pub fn is_leap_year(year: isize) -> (leap: bool)
    ensures
        leap == is_leap(year as int),
{
    year % 4 == 0 && (year % 100 != 0 || year % 400 == 0)
}

/// The number of days of `month` in a leap or a common year.
pub open spec fn days_in_month(month: Month, leap: bool) -> nat {
    match month {
        Month::February => if leap { 29 } else { 28 },
        Month::April | Month::June | Month::September | Month::November => 30,
        _ => 31,
    }
}

impl Month {
    /// The position of the month in the year, from 1 for January to 12 for
    /// December.
    pub open spec fn spec_number(&self) -> u8 {
        match self {
            Month::January => 1u8,
            Month::February => 2u8,
            Month::March => 3u8,
            Month::April => 4u8,
            Month::May => 5u8,
            Month::June => 6u8,
            Month::July => 7u8,
            Month::August => 8u8,
            Month::September => 9u8,
            Month::October => 10u8,
            Month::November => 11u8,
            Month::December => 12u8,
        }
    }

    /// The month at a position in the year; December for a number that is
    /// no position.
    pub open spec fn spec_from_number(number: u8) -> Month {
        if number == 1 {
            Month::January
        } else if number == 2 {
            Month::February
        } else if number == 3 {
            Month::March
        } else if number == 4 {
            Month::April
        } else if number == 5 {
            Month::May
        } else if number == 6 {
            Month::June
        } else if number == 7 {
            Month::July
        } else if number == 8 {
            Month::August
        } else if number == 9 {
            Month::September
        } else if number == 10 {
            Month::October
        } else if number == 11 {
            Month::November
        } else {
            Month::December
        }
    }

    /// Retrieves the amount of days in the given month, accounting for leap
    /// years.
    pub fn days(&self, is_leap_year: bool) -> (days: usize)
        ensures
            days == days_in_month(*self, is_leap_year),
            28 <= days <= 31,
    {
        match self {
            Month::January => 31,
            Month::February => if is_leap_year { 29 } else { 28 },
            Month::March => 31,
            Month::April => 30,
            Month::May => 31,
            Month::June => 30,
            Month::July => 31,
            Month::August => 31,
            Month::September => 30,
            Month::October => 31,
            Month::November => 30,
            Month::December => 31,
        }
    }

    /// The month at the position `number` of the year.
    #[verifier::when_used_as_spec(spec_from_number)]
    pub fn from_number(number: u8) -> (month: Month)
        requires
            1 <= number <= 12,
        ensures
            month == Month::spec_from_number(number),
            month.number() == number,
    {
        match number {
            1 => Month::January,
            2 => Month::February,
            3 => Month::March,
            4 => Month::April,
            5 => Month::May,
            6 => Month::June,
            7 => Month::July,
            8 => Month::August,
            9 => Month::September,
            10 => Month::October,
            11 => Month::November,
            _ => Month::December,
        }
    }

    /// The position of the month in the year, from 1 to 12.
    #[verifier::when_used_as_spec(spec_number)]
    pub fn number(&self) -> (n: u8)
        ensures
            n == self.spec_number(),
            1 <= n <= 12,
            Month::spec_from_number(n) == *self,
    {
        match self {
            Month::January => 1,
            Month::February => 2,
            Month::March => 3,
            Month::April => 4,
            Month::May => 5,
            Month::June => 6,
            Month::July => 7,
            Month::August => 8,
            Month::September => 9,
            Month::October => 10,
            Month::November => 11,
            Month::December => 12,
        }
    }
}

impl Date {
    /// The stored day of the month, as contracts see it.
    pub closed spec fn spec_day_of_month(&self) -> usize {
        self.day
    }

    /// The stored month, as contracts see it.
    pub closed spec fn spec_month(&self) -> Month {
        self.month
    }

    /// The stored year, as contracts see it.
    pub closed spec fn spec_year(&self) -> isize {
        self.year
    }

    /// The date with the given parts, whether or not such a day exists.
    pub closed spec fn spec_new_unchecked(day_of_month: usize, month: Month, year: isize) -> Date {
        Date { day: day_of_month, month, year }
    }

    /// Whether the day exists in the month of the year.
    pub open spec fn is_valid(&self) -> bool {
        1 <= self.day_of_month() <= days_in_month(self.month(), is_leap(self.year() as int))
    }

    /// What `new` returns: the date, or the error where the month of that
    /// year has no such day.
    pub open spec fn spec_new(day_of_month: usize, month: Month, year: isize) -> Result<
        Date,
        ParseDateError,
    > {
        if day_of_month < 1 || day_of_month > days_in_month(month, is_leap(year as int)) {
            Err(ParseDateError::InvalidDayOfMonth)
        } else {
            Ok(Date::new_unchecked(day_of_month, month, year))
        }
    }

    /// The year, the number of the month and the day.
    pub open spec fn spec_key(&self) -> DateKey {
        (self.year(), self.month().number(), self.day_of_month())
    }

    /// The date that a key stands for.
    pub open spec fn spec_from_key(key: DateKey) -> Date {
        Date::new_unchecked(key.2, Month::from_number(key.1), key.0)
    }

    /// The year, the number of the month and the day: what two dates are
    /// compared by.
    #[verifier::when_used_as_spec(spec_key)]
    pub fn key(&self) -> (key: DateKey)
        ensures
            key == self.spec_key(),
            1 <= key.1 <= 12,
            Date::spec_from_key(key) == *self,
    {
        (self.year, self.month.number(), self.day)
    }

    /// The date that a key stands for.
    #[verifier::when_used_as_spec(spec_from_key)]
    pub fn from_key(key: DateKey) -> (date: Date)
        requires
            1 <= key.1 <= 12,
        ensures
            date == Date::spec_from_key(key),
            date.key() == key,
    {
        Date { day: key.2, month: Month::from_number(key.1), year: key.0 }
    }

    /// The order of two dates in time: by year, then by month, then by
    /// day.
    pub open spec fn chronological(self, other: Date) -> Ordering {
        key_order(self.key(), other.key())
    }

    /// Compares two dates in time.
    pub fn cmp(&self, other: &Date) -> (order: Ordering)
        ensures
            order == self.chronological(*other),
    {
        compare_keys(&self.key(), &other.key())
    }

    /// A date is as old as itself.
    pub proof fn lemma_order_reflexive(self)
        ensures
            self.chronological(self) == Ordering::Equal,
    {
    }

    /// Seen from the other side the order of two dates is reversed, and
    /// only a date itself is as old as the date.
    pub proof fn lemma_order_antisymmetric(self, other: Date)
        ensures
            other.chronological(self) == reversed(self.chronological(other)),
            self.chronological(other) == Ordering::Equal <==> self == other,
    {
        if self.chronological(other) == Ordering::Equal {
            assert(self.month().number() == other.month().number());
            assert(Month::spec_from_number(self.month().number()) == self.month());
            assert(Month::spec_from_number(other.month().number()) == other.month());
        }
    }

    /// A date that is no later than a second, which is no later than a
    /// third, is no later than the third; and it is earlier than the third
    /// where one of the two steps is strict.
    pub proof fn lemma_order_transitive(self, second: Date, third: Date)
        requires
            self.chronological(second) != Ordering::Greater,
            second.chronological(third) != Ordering::Greater,
        ensures
            self.chronological(third) != Ordering::Greater,
            self.chronological(second) == Ordering::Less || second.chronological(third)
                == Ordering::Less ==> self.chronological(third) == Ordering::Less,
    {
    }

    /// A date is made of its three parts and of nothing else.
    pub broadcast proof fn lemma_parts(day_of_month: usize, month: Month, year: isize)
        ensures
            (#[trigger] Date::spec_new_unchecked(day_of_month, month, year)).day_of_month()
                == day_of_month,
            Date::spec_new_unchecked(day_of_month, month, year).month() == month,
            Date::spec_new_unchecked(day_of_month, month, year).year() == year,
    {
    }

    /// Two dates with the same parts are the same date.
    pub proof fn lemma_same_parts(self, other: Date)
        requires
            self.day_of_month() == other.day_of_month(),
            self.month() == other.month(),
            self.year() == other.year(),
        ensures
            self == other,
    {
    }

    /// Creates a new date. Negative years are years before the common era.
    /// If the month of that year has no such day, an error is returned.
    pub fn new(day_of_month: usize, month: Month, year: isize) -> (r: Result<Date, ParseDateError>)
        ensures
            r == Date::spec_new(day_of_month, month, year),
            r matches Ok(d) ==> d.is_valid() && d.day_of_month() == day_of_month && d.month()
                == month && d.year() == year,
    {
        let is_leap_year = is_leap_year(year);
        if day_of_month < 1 || day_of_month > month.days(is_leap_year) {
            return Err(ParseDateError::InvalidDayOfMonth);
        }
        Ok(Date::new_unchecked(day_of_month, month, year))
    }

    /// Creates a new date without validating the day. The result may be a day
    /// that no calendar has: use it only for parts that were validated before.
    #[verifier::when_used_as_spec(spec_new_unchecked)]
    pub fn new_unchecked(day_of_month: usize, month: Month, year: isize) -> (d: Date)
        ensures
            d == Date::spec_new_unchecked(day_of_month, month, year),
            d.day_of_month() == day_of_month,
            d.month() == month,
            d.year() == year,
    {
        Date { day: day_of_month, month, year }
    }

    /// Gets the stored day of the month.
    #[verifier::when_used_as_spec(spec_day_of_month)]
    pub fn day_of_month(&self) -> (day: usize)
        ensures
            day == self.spec_day_of_month(),
    {
        self.day
    }

    /// Gets the stored month.
    #[verifier::when_used_as_spec(spec_month)]
    pub fn month(&self) -> (month: Month)
        ensures
            month == self.spec_month(),
    {
        self.month
    }

    /// Gets the stored year.
    #[verifier::when_used_as_spec(spec_year)]
    pub fn year(&self) -> (year: isize)
        ensures
            year == self.spec_year(),
    {
        self.year
    }
}

impl PartialOrd for Date {
    fn partial_cmp(&self, other: &Date) -> (order: Option<Ordering>) {
        Some(self.cmp(other))
    }
}

impl vstd::std_specs::cmp::PartialOrdSpecImpl for Date {
    open spec fn obeys_partial_cmp_spec() -> bool {
        true
    }

    open spec fn partial_cmp_spec(&self, other: &Date) -> Option<Ordering> {
        Some(self.chronological(*other))
    }
}

} // verus!
