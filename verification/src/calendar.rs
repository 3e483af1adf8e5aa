//! Calendar dates. Reading a date from text and writing it back are left to
//! `chrono`; this module states what the library relies on and keeps a date
//! as three plain numbers.

use chrono::Datelike;
use vstd::prelude::*;
use vstd::string::*;
use crate::digits::{all_digits, decimal_value, is_digit, zero_padded};

verus! {

/// A day of the proleptic Gregorian calendar, as `chrono` reports it.
#[derive(Clone, Copy, Debug, PartialEq, Eq, Structural)]
pub struct CalendarDate {
    pub year: i32,
    pub month: u32,
    pub day: u32,
}

/// The three ways in which the library writes a date.
#[derive(Clone, Copy, Debug, PartialEq, Eq, Structural)]
pub enum DateStyle {
    /// Year, month and day without separators, as the barcode stores them.
    Stored,
    /// Day, month and year with a slash between them, as a person reads
    /// and types them.
    Shown,
    /// The last two digits of the year alone.
    YearSuffix,
}

/// Whether `year` has a 29th of February.
pub open spec fn is_leap_year(year: int) -> bool {
    year % 4 == 0 && (year % 100 != 0 || year % 400 == 0)
}

/// The number of days of a month.
pub open spec fn days_in_month(year: int, month: int) -> int {
    if month == 2 {
        if is_leap_year(year) {
            29
        } else {
            28
        }
    } else if month == 4 || month == 6 || month == 9 || month == 11 {
        30
    } else {
        31
    }
}

/// Whether the calendar has such a day.
pub open spec fn date_exists(year: int, month: int, day: int) -> bool {
    1 <= month <= 12 && 1 <= day <= days_in_month(year, month)
}

/// The `strftime` pattern of the stored form.
pub open spec fn stored_pattern() -> Seq<char> {
    "%Y%m%d"@
}

/// The `strftime` pattern of the form that is shown and typed.
pub open spec fn shown_pattern() -> Seq<char> {
    "%d/%m/%Y"@
}

/// The `strftime` pattern of the two-digit year.
pub open spec fn suffix_pattern() -> Seq<char> {
    "%y"@
}

/// Whether `text` has the shape of a stored date: eight digits.
pub open spec fn is_stored_shape(text: Seq<char>) -> bool {
    text.len() == 8 && all_digits(text)
}

/// Whether `text` has the shape of a shown date: two digits, a slash, two
/// digits, a slash and four digits.
pub open spec fn is_shown_shape(text: Seq<char>) -> bool {
    &&& text.len() == 10
    &&& text[2] == '/'
    &&& text[5] == '/'
    &&& all_digits(text.subrange(0, 2))
    &&& all_digits(text.subrange(3, 5))
    &&& all_digits(text.subrange(6, 10))
}

/// The date, if the calendar has it.
pub open spec fn existing(year: int, month: int, day: int) -> Option<(int, int, int)> {
    if date_exists(year, month, day) {
        Some((year, month, day))
    } else {
        None
    }
}

/// The date that a text of the stored shape denotes.
pub open spec fn stored_reading(text: Seq<char>) -> Option<(int, int, int)> {
    existing(
        decimal_value(text.subrange(0, 4)) as int,
        decimal_value(text.subrange(4, 6)) as int,
        decimal_value(text.subrange(6, 8)) as int,
    )
}

/// The date that a text of the shown shape denotes.
pub open spec fn shown_reading(text: Seq<char>) -> Option<(int, int, int)> {
    existing(
        decimal_value(text.subrange(6, 10)) as int,
        decimal_value(text.subrange(3, 5)) as int,
        decimal_value(text.subrange(0, 2)) as int,
    )
}

/// A date of the years 0 to 9999 written under one of the three patterns,
/// each number at its full width with zeros on the left. Under any other
/// pattern nothing is written.
pub open spec fn written_date(year: int, month: int, day: int, pattern: Seq<char>) -> Seq<char> {
    if pattern == stored_pattern() {
        zero_padded(year as nat, 4) + zero_padded(month as nat, 2) + zero_padded(day as nat, 2)
    } else if pattern == shown_pattern() {
        zero_padded(day as nat, 2) + seq!['/'] + zero_padded(month as nat, 2) + seq!['/']
            + zero_padded(year as nat, 4)
    } else if pattern == suffix_pattern() {
        zero_padded((year % 100) as nat, 2)
    } else {
        Seq::empty()
    }
}

/// The three numbers of a date that was read, if one was.
pub open spec fn numbers_of(date: Option<CalendarDate>) -> Option<(int, int, int)> {
    match date {
        Some(d) => Some((d.year as int, d.month as int, d.day as int)),
        None => None,
    }
}

/// What `chrono::NaiveDate::parse_from_str` makes of `text` under the
/// `strftime` pattern `pattern`: the year, month and day of the date it
/// reads, or nothing where it reports an error.
pub uninterp spec fn parsed_date(text: Seq<char>, pattern: Seq<char>) -> Option<(int, int, int)>;

/// Calls `chrono::NaiveDate::parse_from_str` and hands the date out as
/// numbers. Not proved: that the result is what `parsed_date` names; that a
/// date which comes back exists in the calendar; and that a text of the
/// stored or of the shown shape, read under its own pattern, denotes the
/// date whose numbers stand in it, and is refused where the calendar has no
/// such day.
#[verifier::external_body]
pub(crate) fn parse_date(text: &str, pattern: &str) -> (date: Option<CalendarDate>)
    requires
        pattern@ == stored_pattern() || pattern@ == shown_pattern() || pattern@
            == suffix_pattern(),
    ensures
        numbers_of(date) == parsed_date(text@, pattern@),
        date matches Some(d) ==> date_exists(d.year as int, d.month as int, d.day as int),
        pattern@ == stored_pattern() && is_stored_shape(text@) ==> numbers_of(date)
            == stored_reading(text@),
        pattern@ == shown_pattern() && is_shown_shape(text@) ==> numbers_of(date) == shown_reading(
            text@,
        ),
{
    match chrono::NaiveDate::parse_from_str(text, pattern) {
        Ok(date) => Some(CalendarDate { year: date.year(), month: date.month(), day: date.day() }),
        Err(_) => None,
    }
}

/// Builds the date with `chrono::NaiveDate::from_ymd_opt` and writes it with
/// `chrono::NaiveDate::format`. Not proved: that a text comes back exactly
/// when the calendar has the day, and that under each of the three patterns
/// the text is the one that `written_date` gives.
#[verifier::external_body]
pub(crate) fn format_date(year: i32, month: u32, day: u32, pattern: &str) -> (text: Option<String>)
    requires
        0 <= year <= 9999,
        pattern@ == stored_pattern() || pattern@ == shown_pattern() || pattern@
            == suffix_pattern(),
    ensures
        text is Some <==> date_exists(year as int, month as int, day as int),
        text matches Some(t) ==> t@ == written_date(
            year as int,
            month as int,
            day as int,
            pattern@,
        ),
{
    match chrono::NaiveDate::from_ymd_opt(year, month, day) {
        Some(date) => Some(date.format(pattern).to_string()),
        None => None,
    }
}

impl DateStyle {
    /// The `strftime` pattern of the style.
    pub open spec fn spec_pattern(self) -> Seq<char> {
        match self {
            DateStyle::Stored => stored_pattern(),
            DateStyle::Shown => shown_pattern(),
            DateStyle::YearSuffix => suffix_pattern(),
        }
    }

    /// The `strftime` pattern of the style.
    pub fn pattern(self) -> (p: &'static str)
        ensures
            p@ == self.spec_pattern(),
    {
        match self {
            DateStyle::Stored => "%Y%m%d",
            DateStyle::Shown => "%d/%m/%Y",
            DateStyle::YearSuffix => "%y",
        }
    }
}

/// The three patterns differ from each other.
pub proof fn lemma_patterns_differ()
    ensures
        stored_pattern() != shown_pattern(),
        stored_pattern() != suffix_pattern(),
        shown_pattern() != suffix_pattern(),
{
    reveal_strlit("%Y%m%d");
    reveal_strlit("%d/%m/%Y");
    reveal_strlit("%y");
    assert(stored_pattern().len() == 6);
    assert(shown_pattern().len() == 8);
    assert(suffix_pattern().len() == 2);
}

/// The date that the library reads from `text` under `pattern`: the one that
/// `chrono` reads, if it is a day of the years 0 to 9999.
pub open spec fn read_date(text: Seq<char>, pattern: Seq<char>) -> Option<(int, int, int)> {
    match parsed_date(text, pattern) {
        Some((year, month, day)) => if 0 <= year <= 9999 && date_exists(year, month, day) {
            Some((year, month, day))
        } else {
            None
        },
        None => None,
    }
}

/// A date of the stored or shown shape denotes a day of the years 0 to 9999,
/// if it denotes one at all.
pub proof fn lemma_reading_in_range(text: Seq<char>)
    ensures
        is_stored_shape(text) && stored_reading(text) is Some ==> 0 <= stored_reading(
            text,
        ).unwrap().0 <= 9999,
        is_shown_shape(text) && shown_reading(text) is Some ==> 0 <= shown_reading(
            text,
        ).unwrap().0 <= 9999,
{
    reveal_with_fuel(crate::digits::pow10, 5);
    if is_stored_shape(text) {
        let year = text.subrange(0, 4);
        assert forall|i: int| 0 <= i < year.len() implies is_digit(#[trigger] year[i]) by {
            assert(year[i] == text[i]);
        }
        crate::digits::lemma_padded_of_value(year);
    }
    if is_shown_shape(text) {
        crate::digits::lemma_padded_of_value(text.subrange(6, 10));
    }
}

/// Reads a date in one of the styles. Only days of the years 0 to 9999 are
/// accepted.
pub fn date_from_text(text: &str, style: DateStyle) -> (date: Option<CalendarDate>)
    ensures
        numbers_of(date) == read_date(text@, style.spec_pattern()),
        style == DateStyle::Stored && is_stored_shape(text@) ==> numbers_of(date)
            == stored_reading(text@),
        style == DateStyle::Shown && is_shown_shape(text@) ==> numbers_of(date) == shown_reading(
            text@,
        ),
        date matches Some(d) ==> 0 <= d.year <= 9999 && date_exists(
            d.year as int,
            d.month as int,
            d.day as int,
        ),
{
    proof {
        lemma_patterns_differ();
        lemma_reading_in_range(text@);
    }
    match parse_date(text, style.pattern()) {
        Some(d) => {
            if 0 <= d.year && d.year <= 9999 {
                Some(d)
            } else {
                None
            }
        },
        None => None,
    }
}

/// Writes a date in one of the styles. Only days of the years 0 to 9999 can
/// be written.
pub fn date_to_text(date: CalendarDate, style: DateStyle) -> (text: Option<String>)
    ensures
        text is Some <==> 0 <= date.year <= 9999 && date_exists(
            date.year as int,
            date.month as int,
            date.day as int,
        ),
        text matches Some(t) ==> t@ == written_date(
            date.year as int,
            date.month as int,
            date.day as int,
            style.spec_pattern(),
        ),
{
    if date.year < 0 || date.year > 9999 {
        return None;
    }
    format_date(date.year, date.month, date.day, style.pattern())
}

} // verus!
