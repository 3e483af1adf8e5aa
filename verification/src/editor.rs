//! The rules of the six fields that can be edited: how a typed text is read,
//! when it is refused, and what digits are stored for it.

use vstd::prelude::*;
use vstd::string::*;
use crate::calendar::{
    date_exists, date_from_text, date_to_text, is_shown_shape, is_stored_shape, numbers_of,
    read_date, shown_pattern, shown_reading, stored_pattern, stored_reading, written_date,
    CalendarDate, DateStyle,
};
use crate::digits::{
    all_digits, decimal_text, format_number, format_padded, is_number, is_unsigned_text,
    parse_unsigned, unsigned_value, zero_padded,
};
use crate::fields::{well_formed, BarcodeFields};
use crate::layout::Field;

verus! {

/// The largest amount that the value field holds, in cents.
pub const MAX_VALUE: u64 = 99_999_999_999;

/// The largest guide number.
pub const MAX_GUIDE_NUMBER: u64 = 9_999_999;

/// The largest tribute code.
pub const MAX_TRIBUTE_CODE: u64 = 9_999;

/// The first installment.
pub const MIN_INSTALLMENT: u64 = 1;

/// The last installment.
pub const MAX_INSTALLMENT: u64 = 46;

/// By how many years the fiscal year may lie before the year of the due
/// date.
pub const MAX_YEAR_GAP: u64 = 4;

/// Why a typed text is not taken for a field. The field keeps its digits.
#[derive(Clone, Copy, Debug, PartialEq, Eq, Structural)]
pub enum FieldError {
    /// The text is not what the field is written as, or is worth more than
    /// the field holds.
    Unreadable,
    /// The amount has more than eleven digits.
    TooLarge,
    /// The installment is not one of 1 to 46.
    InstallmentOutOfRange,
    /// The fiscal year lies after the year of the due date, or more than
    /// four years before it.
    YearMismatch,
    /// The stored due date is no day of the calendar, so that nothing can be
    /// held against its year.
    NoDueDate,
}

/// Whether `c` is one of the two marks that may separate the digits of an
/// amount.
pub open spec fn is_separator(c: char) -> bool {
    c == '.' || c == ','
}

/// A text without its separators.
pub open spec fn without_separators(s: Seq<char>) -> Seq<char>
    decreases s.len(),
{
    if s.len() == 0 {
        Seq::empty()
    } else if is_separator(s.last()) {
        without_separators(s.drop_last())
    } else {
        without_separators(s.drop_last()).push(s.last())
    }
}

/// Drops every dot and comma from a text.
pub fn strip_separators(text: &str) -> (bare: String)
    ensures
        bare@ == without_separators(text@),
{
    let total: usize = text.unicode_len();
    let mut bare = String::new();
    let mut i: usize = 0;
    assert(text@.subrange(0, 0) =~= Seq::<char>::empty());
    while i < total
        invariant
            i <= total,
            total == text@.len(),
            bare@ == without_separators(text@.subrange(0, i as int)),
        decreases total - i,
    {
        let c = text.get_char(i);
        let ghost seen = text@.subrange(0, i + 1);
        assert(seen.drop_last() =~= text@.subrange(0, i as int));
        assert(seen.last() == c);
        if !(c == '.' || c == ',') {
            let one = text.substring_char(i, i + 1);
            assert(one@ =~= seq![c]);
            bare.append(one);
            assert(bare@ =~= without_separators(seen));
        }
        i = i + 1;
    }
    assert(text@.subrange(0, total as int) =~= text@);
    bare
}

/// What a typed amount is read as: the cents that its digits spell once the
/// separators are dropped, so that "12.34", "12,34" and "1234" are the same
/// amount.
pub open spec fn value_entry(text: Seq<char>) -> Result<nat, FieldError> {
    let bare = without_separators(text);
    if !is_unsigned_text(bare) {
        Err(FieldError::Unreadable)
    } else if unsigned_value(bare) > MAX_VALUE {
        Err(FieldError::TooLarge)
    } else {
        Ok(unsigned_value(bare))
    }
}

/// Reads a typed amount, in cents.
pub fn parse_value(text: &str) -> (r: Result<u64, FieldError>)
    ensures
        match value_entry(text@) {
            Ok(cents) => r == Ok::<u64, FieldError>(cents as u64) && cents <= MAX_VALUE,
            Err(e) => r == Err::<u64, FieldError>(e),
        },
{
    let bare = strip_separators(text);
    if !is_number(bare.as_str()) {
        return Err(FieldError::Unreadable);
    }
    match parse_unsigned(bare.as_str(), MAX_VALUE) {
        Some(cents) => Ok(cents),
        None => Err(FieldError::TooLarge),
    }
}

/// An amount of cents as it is shown: the whole units, a comma, and the
/// cents with two digits.
pub open spec fn shown_value(cents: nat) -> Seq<char> {
    decimal_text(cents / 100) + seq![','] + zero_padded(cents % 100, 2)
}

/// Writes an amount of cents the way it is shown.
pub fn display_value(cents: u64) -> (shown: String)
    ensures
        shown@ == shown_value(cents as nat),
{
    proof {
        reveal_strlit(",");
    }
    let mut shown = format_number(cents / 100);
    shown.append(",");
    let fraction = format_padded(cents % 100, 2);
    shown.append(fraction.as_str());
    assert(","@ =~= seq![',']);
    shown
}

/// What a typed number is read as where the field holds numbers up to
/// `limit`: guide numbers and tribute codes.
pub open spec fn number_entry(text: Seq<char>, limit: nat) -> Result<nat, FieldError> {
    if is_unsigned_text(text) && unsigned_value(text) <= limit {
        Ok(unsigned_value(text))
    } else {
        Err(FieldError::Unreadable)
    }
}

/// Reads a typed guide number: a number of up to seven digits.
pub fn parse_guide_number(text: &str) -> (r: Result<u64, FieldError>)
    ensures
        match number_entry(text@, MAX_GUIDE_NUMBER as nat) {
            Ok(n) => r == Ok::<u64, FieldError>(n as u64) && n <= MAX_GUIDE_NUMBER,
            Err(e) => r == Err::<u64, FieldError>(e),
        },
{
    match parse_unsigned(text, MAX_GUIDE_NUMBER) {
        Some(n) => Ok(n),
        None => Err(FieldError::Unreadable),
    }
}

/// Reads a typed tribute code: a number of up to four digits.
pub fn parse_tribute_code(text: &str) -> (r: Result<u64, FieldError>)
    ensures
        match number_entry(text@, MAX_TRIBUTE_CODE as nat) {
            Ok(n) => r == Ok::<u64, FieldError>(n as u64) && n <= MAX_TRIBUTE_CODE,
            Err(e) => r == Err::<u64, FieldError>(e),
        },
{
    match parse_unsigned(text, MAX_TRIBUTE_CODE) {
        Some(n) => Ok(n),
        None => Err(FieldError::Unreadable),
    }
}

/// What a typed installment is read as: a number from 1 to 46.
pub open spec fn installment_entry(text: Seq<char>) -> Result<nat, FieldError> {
    if !is_unsigned_text(text) {
        Err(FieldError::Unreadable)
    } else if MIN_INSTALLMENT <= unsigned_value(text) <= MAX_INSTALLMENT {
        Ok(unsigned_value(text))
    } else {
        Err(FieldError::InstallmentOutOfRange)
    }
}

/// Reads a typed installment.
pub fn parse_installment(text: &str) -> (r: Result<u64, FieldError>)
    ensures
        match installment_entry(text@) {
            Ok(n) => r == Ok::<u64, FieldError>(n as u64) && 1 <= n <= 46,
            Err(e) => r == Err::<u64, FieldError>(e),
        },
{
    if !is_number(text) {
        return Err(FieldError::Unreadable);
    }
    match parse_unsigned(text, MAX_INSTALLMENT) {
        Some(n) => {
            if n >= MIN_INSTALLMENT {
                Ok(n)
            } else {
                Err(FieldError::InstallmentOutOfRange)
            }
        },
        None => Err(FieldError::InstallmentOutOfRange),
    }
}

/// What a typed fiscal year is read as, where the year of the due date ends
/// in `due_suffix`: a two-digit year that is the year of the due date or one
/// of the four years before it.
pub open spec fn fiscal_year_entry(text: Seq<char>, due_suffix: nat) -> Result<nat, FieldError> {
    if !is_unsigned_text(text) {
        Err(FieldError::Unreadable)
    } else if 0 <= due_suffix - unsigned_value(text) <= MAX_YEAR_GAP {
        Ok(unsigned_value(text))
    } else {
        Err(FieldError::YearMismatch)
    }
}

/// Reads a typed fiscal year and holds it against the year of the due date.
pub fn parse_fiscal_year(text: &str, due_suffix: u8) -> (r: Result<u64, FieldError>)
    ensures
        match fiscal_year_entry(text@, due_suffix as nat) {
            Ok(n) => r == Ok::<u64, FieldError>(n as u64) && n <= due_suffix,
            Err(e) => r == Err::<u64, FieldError>(e),
        },
{
    if !is_number(text) {
        return Err(FieldError::Unreadable);
    }
    match parse_unsigned(text, due_suffix as u64) {
        Some(n) => {
            if due_suffix as u64 - n <= MAX_YEAR_GAP {
                Ok(n)
            } else {
                Err(FieldError::YearMismatch)
            }
        },
        None => Err(FieldError::YearMismatch),
    }
}

/// The stored digits of the date that `chrono` reads from a typed text, if it
/// reads one.
pub open spec fn stored_form(date: Option<(int, int, int)>) -> Result<Seq<char>, FieldError> {
    match date {
        Some((year, month, day)) => Ok(written_date(year, month, day, stored_pattern())),
        None => Err(FieldError::Unreadable),
    }
}

/// What a typed due date is read as: the stored digits of the day that its
/// ten characters denote as day, month and year.
pub open spec fn due_date_entry(text: Seq<char>) -> Result<Seq<char>, FieldError> {
    if text.len() != 10 {
        Err(FieldError::Unreadable)
    } else {
        stored_form(read_date(text, shown_pattern()))
    }
}

/// Reads a typed due date and gives the eight digits that are stored for
/// it. A text of the shown shape is taken exactly when the calendar has the
/// day.
pub fn parse_due_date(text: &str) -> (r: Result<String, FieldError>)
    ensures
        match due_date_entry(text@) {
            Ok(digits) => r is Ok && r.unwrap()@ == digits,
            Err(e) => r == Err::<String, FieldError>(e),
        },
        is_shown_shape(text@) ==> due_date_entry(text@) == stored_form(shown_reading(text@)),
        r is Ok ==> is_stored_shape(r.unwrap()@),
{
    if text.unicode_len() != 10 {
        return Err(FieldError::Unreadable);
    }
    match date_from_text(text, DateStyle::Shown) {
        Some(date) => match date_to_text(date, DateStyle::Stored) {
            Some(digits) => {
                proof {
                    lemma_stored_form_shape(date.year as int, date.month as int, date.day as int);
                }
                Ok(digits)
            },
            None => Err(FieldError::Unreadable),
        },
        None => Err(FieldError::Unreadable),
    }
}

/// The stored form of a day of the years 0 to 9999 is eight digits.
pub proof fn lemma_stored_form_shape(year: int, month: int, day: int)
    requires
        0 <= year <= 9999,
        date_exists(year, month, day),
    ensures
        is_stored_shape(written_date(year, month, day, stored_pattern())),
{
    let y = zero_padded(year as nat, 4);
    let m = zero_padded(month as nat, 2);
    let d = zero_padded(day as nat, 2);
    crate::digits::lemma_zero_padded_shape(year as nat, 4);
    crate::digits::lemma_zero_padded_shape(month as nat, 2);
    crate::digits::lemma_zero_padded_shape(day as nat, 2);
    let whole = y + m + d;
    assert forall|i: int| 0 <= i < whole.len() implies crate::digits::is_digit(
        #[trigger] whole[i],
    ) by {
        if i < 4 {
            assert(whole[i] == y[i]);
        } else if i < 6 {
            assert(whole[i] == m[i - 4]);
        } else {
            assert(whole[i] == d[i - 6]);
        }
    }
}

/// The fields that can be edited.
#[derive(Clone, Copy, Debug, PartialEq, Eq, Structural)]
pub enum EditableField {
    Value,
    DueDate,
    GuideNumber,
    Installment,
    FiscalYear,
    TributeCode,
}

impl EditableField {
    /// The field of the layout that is edited.
    pub open spec fn spec_field(self) -> Field {
        match self {
            EditableField::Value => Field::Value,
            EditableField::DueDate => Field::DueDate,
            EditableField::GuideNumber => Field::GuideNumber,
            EditableField::Installment => Field::Installment,
            EditableField::FiscalYear => Field::FiscalYear,
            EditableField::TributeCode => Field::TributeCode,
        }
    }

    /// The field of the layout that is edited.
    pub fn field(self) -> (f: Field)
        ensures
            f == self.spec_field(),
    {
        match self {
            EditableField::Value => Field::Value,
            EditableField::DueDate => Field::DueDate,
            EditableField::GuideNumber => Field::GuideNumber,
            EditableField::Installment => Field::Installment,
            EditableField::FiscalYear => Field::FiscalYear,
            EditableField::TributeCode => Field::TributeCode,
        }
    }
}

/// The due date that the fields store, if their eight digits are a day of
/// the calendar.
pub open spec fn stored_due_date(fields: Seq<Seq<char>>) -> Option<(int, int, int)> {
    stored_reading(fields[Field::DueDate.spec_index()])
}

/// A number as the digits of a field of the given width, or the reason why
/// the text was refused.
pub open spec fn padded_entry(entry: Result<nat, FieldError>, width: nat) -> Result<
    Seq<char>,
    FieldError,
> {
    match entry {
        Ok(n) => Ok(zero_padded(n, width)),
        Err(e) => Err(e),
    }
}

/// What a typed fiscal year is read as against the stored due date.
pub open spec fn fiscal_year_against(fields: Seq<Seq<char>>, text: Seq<char>) -> Result<
    nat,
    FieldError,
> {
    match stored_due_date(fields) {
        Some((year, _, _)) => fiscal_year_entry(text, (year % 100) as nat),
        None => Err(FieldError::NoDueDate),
    }
}

/// The digits that are stored for a text typed for one of the editable
/// fields, or the reason why the text is refused.
pub open spec fn entry_digits(fields: Seq<Seq<char>>, which: EditableField, text: Seq<char>)
    -> Result<Seq<char>, FieldError> {
    match which {
        EditableField::Value => padded_entry(value_entry(text), 11),
        EditableField::DueDate => due_date_entry(text),
        EditableField::GuideNumber => padded_entry(
            number_entry(text, MAX_GUIDE_NUMBER as nat),
            7,
        ),
        EditableField::Installment => padded_entry(installment_entry(text), 3),
        EditableField::FiscalYear => padded_entry(fiscal_year_against(fields, text), 2),
        EditableField::TributeCode => padded_entry(
            number_entry(text, MAX_TRIBUTE_CODE as nat),
            4,
        ),
    }
}

/// The fields after a text was typed for one of them: the field holds the
/// new digits and every other field is as before. Where the text is refused
/// there are no new fields.
pub open spec fn edited(fields: Seq<Seq<char>>, which: EditableField, text: Seq<char>) -> Result<
    Seq<Seq<char>>,
    FieldError,
> {
    match entry_digits(fields, which, text) {
        Ok(digits) => Ok(fields.update(which.spec_field().spec_index(), digits)),
        Err(e) => Err(e),
    }
}

/// The due date that the fields store.
pub fn due_date(fields: &BarcodeFields) -> (date: Option<CalendarDate>)
    ensures
        numbers_of(date) == stored_due_date(fields@),
        date matches Some(d) ==> 0 <= d.year <= 9999 && date_exists(
            d.year as int,
            d.month as int,
            d.day as int,
        ),
{
    date_from_text(fields.get(Field::DueDate), DateStyle::Stored)
}

/// The last two digits of the year of the stored due date, as a number.
pub fn due_year_suffix(fields: &BarcodeFields) -> (suffix: Option<u8>)
    ensures
        match stored_due_date(fields@) {
            Some((year, _, _)) => suffix == Some((year % 100) as u8),
            None => suffix is None,
        },
{
    match due_date(fields) {
        Some(date) => match date_to_text(date, DateStyle::YearSuffix) {
            Some(text) => {
                proof {
                    crate::calendar::lemma_patterns_differ();
                    reveal_with_fuel(crate::digits::pow10, 3);
                    let n = (date.year % 100) as nat;
                    crate::digits::lemma_zero_padded_shape(n, 2);
                    crate::digits::lemma_value_of_padded(n, 2);
                    assert(crate::digits::is_digit(text@[0]));
                }
                match parse_unsigned(text.as_str(), 99) {
                    Some(n) => Some(n as u8),
                    None => None,
                }
            },
            None => None,
        },
        None => None,
    }
}

/// Reads a text typed for one of the editable fields and gives the digits
/// to store for it.
pub fn read_entry(fields: &BarcodeFields, which: EditableField, text: &str) -> (r: Result<
    String,
    FieldError,
>)
    ensures
        match entry_digits(fields@, which, text@) {
            Ok(digits) => r is Ok && r.unwrap()@ == digits,
            Err(e) => r == Err::<String, FieldError>(e),
        },
        r is Ok ==> r.unwrap()@.len() == crate::layout::width_at(which.spec_field().spec_index())
            && all_digits(r.unwrap()@),
{
    let width = which.field().width();
    let number = match which {
        EditableField::Value => parse_value(text),
        EditableField::DueDate => {
            return parse_due_date(text);
        },
        EditableField::GuideNumber => parse_guide_number(text),
        EditableField::Installment => parse_installment(text),
        EditableField::FiscalYear => match due_year_suffix(fields) {
            Some(suffix) => parse_fiscal_year(text, suffix),
            None => Err(FieldError::NoDueDate),
        },
        EditableField::TributeCode => parse_tribute_code(text),
    };
    match number {
        Ok(n) => {
            proof {
                crate::digits::lemma_zero_padded_shape(n as nat, width as nat);
            }
            Ok(format_padded(n, width))
        },
        Err(e) => Err(e),
    }
}

/// Takes a text typed for one of the editable fields. Where the text is
/// accepted the field holds the new digits and the other fields are
/// untouched; where it is refused nothing changes.
pub fn edit(fields: &mut BarcodeFields, which: EditableField, text: &str) -> (r: Result<
    (),
    FieldError,
>)
    ensures
        match edited(old(fields)@, which, text@) {
            Ok(after) => r is Ok && final(fields)@ == after,
            Err(e) => r == Err::<(), FieldError>(e) && final(fields)@ == old(fields)@,
        },
        well_formed(final(fields)@),
{
    proof {
        use_type_invariant(&*fields);
    }
    match read_entry(fields, which, text) {
        Ok(digits) => {
            fields.put(which.field(), digits);
            Ok(())
        },
        Err(e) => Err(e),
    }
}

} // verus!
