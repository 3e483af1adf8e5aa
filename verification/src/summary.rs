//! What a person is shown of the fields: the summary of the guide, and the
//! text that an edit starts from.

use vstd::prelude::*;
use vstd::string::*;
use crate::calendar::{date_to_text, shown_pattern, written_date, DateStyle};
use crate::digits::{
    decimal_text, decimal_value, format_number, lemma_pow10_grows, parse_unsigned,
    trim_leading_zeros, without_leading_zeros,
};
use crate::editor::{display_value, due_date, shown_value, stored_due_date, EditableField, MAX_VALUE};
use crate::fields::BarcodeFields;
use crate::layout::Field;

verus! {

/// The entries of the summary of a guide, each as the text to show.
#[derive(Debug)]
pub struct Summary {
    /// The amount, with a comma before the cents.
    pub value: String,
    /// The due date as day, month and year with slashes; nothing where the
    /// stored digits are no day of the calendar.
    pub due_date: Option<String>,
    /// The guide number, without zeros on the left.
    pub guide_number: String,
    /// The installment, without zeros on the left.
    pub installment: String,
    /// The fiscal year in full: "20", then the two stored digits.
    pub fiscal_year: String,
    /// The tribute code, without zeros on the left.
    pub tribute_code: String,
}

/// The number that a field holds.
pub open spec fn number_in(fields: Seq<Seq<char>>, field: Field) -> nat {
    decimal_value(fields[field.spec_index()])
}

/// The stored due date as it is shown, if it is a day of the calendar.
pub open spec fn shown_due_date(fields: Seq<Seq<char>>) -> Option<Seq<char>> {
    match stored_due_date(fields) {
        Some((year, month, day)) => Some(written_date(year, month, day, shown_pattern())),
        None => None,
    }
}

/// The fiscal year as it is shown: the two stored digits after "20".
pub open spec fn shown_fiscal_year(fields: Seq<Seq<char>>) -> Seq<char> {
    seq!['2', '0'] + fields[Field::FiscalYear.spec_index()]
}

/// The text that an edit of a field starts from: the amount and the due
/// date as they are shown, any other field without the zeros on its left.
pub open spec fn prefill_text(fields: Seq<Seq<char>>, which: EditableField) -> Option<Seq<char>> {
    match which {
        EditableField::Value => Some(shown_value(number_in(fields, Field::Value))),
        EditableField::DueDate => shown_due_date(fields),
        _ => Some(without_leading_zeros(fields[which.spec_field().spec_index()])),
    }
}

/// Reads the number that a field holds.
pub fn field_number(fields: &BarcodeFields, field: Field) -> (n: u64)
    ensures
        n == number_in(fields@, field),
        n <= MAX_VALUE,
{
    let digits = fields.get(field);
    proof {
        crate::digits::lemma_padded_of_value(digits@);
        crate::layout::lemma_offset_step(field.spec_index());
        lemma_pow10_grows(digits@.len(), 11);
        reveal_with_fuel(crate::digits::pow10, 12);
        assert(crate::digits::is_digit(digits@[0]));
    }
    // A field has at most eleven digits, so it never exceeds the limit.
    match parse_unsigned(digits, MAX_VALUE) {
        Some(n) => n,
        None => 0,
    }
}

/// The stored due date as day, month and year with slashes.
pub fn display_due_date(fields: &BarcodeFields) -> (shown: Option<String>)
    ensures
        match shown_due_date(fields@) {
            Some(text) => shown is Some && shown.unwrap()@ == text,
            None => shown is None,
        },
{
    match due_date(fields) {
        Some(date) => date_to_text(date, DateStyle::Shown),
        None => None,
    }
}

/// Lists the entries of the guide as they are shown: amount, due date, guide
/// number, installment, fiscal year and tribute code.
pub fn lista_cod(cod_barras: &BarcodeFields) -> (resumo: Summary)
    ensures
        resumo.value@ == shown_value(number_in(cod_barras@, Field::Value)),
        match shown_due_date(cod_barras@) {
            Some(text) => resumo.due_date is Some && resumo.due_date.unwrap()@ == text,
            None => resumo.due_date is None,
        },
        resumo.guide_number@ == decimal_text(number_in(cod_barras@, Field::GuideNumber)),
        resumo.installment@ == decimal_text(number_in(cod_barras@, Field::Installment)),
        resumo.fiscal_year@ == shown_fiscal_year(cod_barras@),
        resumo.tribute_code@ == decimal_text(number_in(cod_barras@, Field::TributeCode)),
{
    proof {
        reveal_strlit("20");
    }
    let mut fiscal_year = String::from_str("20");
    fiscal_year.append(cod_barras.get(Field::FiscalYear));
    assert("20"@ =~= seq!['2', '0']);
    Summary {
        value: display_value(field_number(cod_barras, Field::Value)),
        due_date: display_due_date(cod_barras),
        guide_number: format_number(field_number(cod_barras, Field::GuideNumber)),
        installment: format_number(field_number(cod_barras, Field::Installment)),
        fiscal_year,
        tribute_code: format_number(field_number(cod_barras, Field::TributeCode)),
    }
}

/// The text that an edit of a field starts from.
pub fn prefill(fields: &BarcodeFields, which: EditableField) -> (text: Option<String>)
    ensures
        match prefill_text(fields@, which) {
            Some(t) => text is Some && text.unwrap()@ == t,
            None => text is None,
        },
{
    match which {
        EditableField::Value => Some(display_value(field_number(fields, Field::Value))),
        EditableField::DueDate => display_due_date(fields),
        _ => Some(trim_leading_zeros(fields.get(which.field()))),
    }
}

} // verus!
