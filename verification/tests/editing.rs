use mod_cod_barras::decoder::decode;
use mod_cod_barras::editor::{
    display_value, due_date, due_year_suffix, edit, parse_due_date, parse_fiscal_year,
    parse_guide_number, parse_installment, parse_tribute_code, parse_value, read_entry,
    strip_separators, EditableField, FieldError,
};
use mod_cod_barras::fields::BarcodeFields;
use mod_cod_barras::layout::Field;

const CODE: &str = "81610000001234512342024031500012340031240456";
const RAW: &str = "81610000001-5 23451234202-7 40315000123-9 40031240456-2";

fn sample() -> BarcodeFields {
    decode(RAW).unwrap()
}

fn with_due_date(date: &str) -> BarcodeFields {
    let code = format!("{}{}{}", &CODE[..19], date, &CODE[27..]);
    let raw = format!(
        "{}-5 {}-7 {}-9 {}-2",
        &code[0..11],
        &code[11..22],
        &code[22..33],
        &code[33..44]
    );
    decode(&raw).unwrap()
}

#[test]
fn value_is_read_as_cents() {
    assert_eq!(parse_value("123,45"), Ok(12345));
    assert_eq!(parse_value("123.45"), Ok(12345));
    assert_eq!(parse_value("12345"), Ok(12345));
    assert_eq!(parse_value("1.234,56"), Ok(123456));
    assert_eq!(parse_value("0,00"), Ok(0));
    assert_eq!(parse_value("+1,50"), Ok(150));
    assert_eq!(parse_value("00000012345"), Ok(12345));
}

#[test]
fn value_separators_are_dropped_wherever_they_stand() {
    assert_eq!(strip_separators("1.234,56"), "123456");
    assert_eq!(strip_separators(",.,"), "");
    assert_eq!(strip_separators("12 34"), "12 34");
    assert_eq!(parse_value("12.34"), parse_value("1234"));
    assert_eq!(parse_value(",1,2,"), Ok(12));
}

#[test]
fn value_of_more_than_eleven_digits_is_too_large() {
    assert_eq!(parse_value("999.999.999,99"), Ok(99_999_999_999));
    assert_eq!(parse_value("1.000.000.000,00"), Err(FieldError::TooLarge));
    assert_eq!(parse_value("99999999999999999999999999"), Err(FieldError::TooLarge));
    assert_eq!(parse_value("0000000000000123"), Ok(123));
}

#[test]
fn value_that_is_no_number_is_unreadable() {
    assert_eq!(parse_value(""), Err(FieldError::Unreadable));
    assert_eq!(parse_value(","), Err(FieldError::Unreadable));
    assert_eq!(parse_value("12 34"), Err(FieldError::Unreadable));
    assert_eq!(parse_value("-1,00"), Err(FieldError::Unreadable));
    assert_eq!(parse_value("R$ 1,00"), Err(FieldError::Unreadable));
}

#[test]
fn value_is_shown_with_a_comma_and_two_places() {
    assert_eq!(display_value(150), "1,50");
    assert_eq!(display_value(12345), "123,45");
    assert_eq!(display_value(1234500), "12345,00");
    assert_eq!(display_value(0), "0,00");
    assert_eq!(display_value(5), "0,05");
    assert_eq!(display_value(99_999_999_999), "999999999,99");
}

#[test]
fn due_date_is_read_and_stored() {
    assert_eq!(parse_due_date("15/03/2024"), Ok(String::from("20240315")));
    assert_eq!(parse_due_date("29/02/2024"), Ok(String::from("20240229")));
    assert_eq!(parse_due_date("31/12/1999"), Ok(String::from("19991231")));
    assert_eq!(parse_due_date("01/01/0001"), Ok(String::from("00010101")));
}

#[test]
fn due_date_that_is_no_day_is_unreadable() {
    assert_eq!(parse_due_date("31/02/2024"), Err(FieldError::Unreadable));
    assert_eq!(parse_due_date("29/02/2023"), Err(FieldError::Unreadable));
    assert_eq!(parse_due_date("00/03/2024"), Err(FieldError::Unreadable));
    assert_eq!(parse_due_date("15/13/2024"), Err(FieldError::Unreadable));
    assert_eq!(parse_due_date("2024-03-15"), Err(FieldError::Unreadable));
    assert_eq!(parse_due_date("15.03.2024"), Err(FieldError::Unreadable));
    assert_eq!(parse_due_date("amanhã cedo"), Err(FieldError::Unreadable));
}

#[test]
fn due_date_of_the_wrong_length_is_unreadable() {
    assert_eq!(parse_due_date(""), Err(FieldError::Unreadable));
    assert_eq!(parse_due_date("1/3/2024"), Err(FieldError::Unreadable));
    assert_eq!(parse_due_date("15/03/24"), Err(FieldError::Unreadable));
    assert_eq!(parse_due_date("15/03/02024"), Err(FieldError::Unreadable));
    assert_eq!(parse_due_date("15/03/2024 "), Err(FieldError::Unreadable));
}

#[test]
fn due_date_beyond_four_digit_years_is_unreadable() {
    assert_eq!(parse_due_date("1/1/+10000"), Err(FieldError::Unreadable));
    assert_eq!(parse_due_date("1/01/-0001"), Err(FieldError::Unreadable));
}

#[test]
fn guide_number_has_up_to_seven_digits() {
    assert_eq!(parse_guide_number("1234"), Ok(1234));
    assert_eq!(parse_guide_number("0001234"), Ok(1234));
    assert_eq!(parse_guide_number("9999999"), Ok(9_999_999));
    assert_eq!(parse_guide_number("70000"), Ok(70_000));
    assert_eq!(parse_guide_number("10000000"), Err(FieldError::Unreadable));
    assert_eq!(parse_guide_number(""), Err(FieldError::Unreadable));
    assert_eq!(parse_guide_number("12a"), Err(FieldError::Unreadable));
}

#[test]
fn tribute_code_has_up_to_four_digits() {
    assert_eq!(parse_tribute_code("456"), Ok(456));
    assert_eq!(parse_tribute_code("9999"), Ok(9999));
    assert_eq!(parse_tribute_code("10000"), Err(FieldError::Unreadable));
    assert_eq!(parse_tribute_code("4,5"), Err(FieldError::Unreadable));
}

#[test]
fn installment_is_one_of_1_to_46() {
    assert_eq!(parse_installment("1"), Ok(1));
    assert_eq!(parse_installment("46"), Ok(46));
    assert_eq!(parse_installment("003"), Ok(3));
    assert_eq!(parse_installment("0"), Err(FieldError::InstallmentOutOfRange));
    assert_eq!(parse_installment("000"), Err(FieldError::InstallmentOutOfRange));
    assert_eq!(parse_installment("47"), Err(FieldError::InstallmentOutOfRange));
    assert_eq!(parse_installment("300"), Err(FieldError::InstallmentOutOfRange));
    assert_eq!(
        parse_installment("99999999999999999999999999"),
        Err(FieldError::InstallmentOutOfRange)
    );
    assert_eq!(parse_installment(""), Err(FieldError::Unreadable));
    assert_eq!(parse_installment("x"), Err(FieldError::Unreadable));
    assert_eq!(parse_installment("-1"), Err(FieldError::Unreadable));
}

#[test]
fn installment_that_is_refused_leaves_the_fields_alone() {
    let mut fields = sample();
    assert_eq!(edit(&mut fields, EditableField::Installment, "1"), Ok(()));
    assert_eq!(fields.get(Field::Installment), "001");
    assert_eq!(edit(&mut fields, EditableField::Installment, "46"), Ok(()));
    assert_eq!(fields.get(Field::Installment), "046");
    let before = fields.encode();
    assert_eq!(
        edit(&mut fields, EditableField::Installment, "0"),
        Err(FieldError::InstallmentOutOfRange)
    );
    assert_eq!(fields.encode(), before);
    assert_eq!(
        edit(&mut fields, EditableField::Installment, "47"),
        Err(FieldError::InstallmentOutOfRange)
    );
    assert_eq!(fields.encode(), before);
}

#[test]
fn fiscal_year_is_held_against_the_due_date() {
    assert_eq!(parse_fiscal_year("20", 24), Ok(20));
    assert_eq!(parse_fiscal_year("24", 24), Ok(24));
    assert_eq!(parse_fiscal_year("23", 24), Ok(23));
    assert_eq!(parse_fiscal_year("19", 24), Err(FieldError::YearMismatch));
    assert_eq!(parse_fiscal_year("25", 24), Err(FieldError::YearMismatch));
    assert_eq!(parse_fiscal_year("300", 24), Err(FieldError::YearMismatch));
    assert_eq!(parse_fiscal_year("0", 3), Ok(0));
    assert_eq!(parse_fiscal_year("99", 3), Err(FieldError::YearMismatch));
    assert_eq!(parse_fiscal_year("", 24), Err(FieldError::Unreadable));
    assert_eq!(parse_fiscal_year("2o", 24), Err(FieldError::Unreadable));
}

#[test]
fn fiscal_year_edit_goes_by_the_stored_due_date() {
    let mut fields = sample();
    assert_eq!(due_year_suffix(&fields), Some(24));
    assert_eq!(edit(&mut fields, EditableField::FiscalYear, "20"), Ok(()));
    assert_eq!(fields.get(Field::FiscalYear), "20");
    assert_eq!(edit(&mut fields, EditableField::FiscalYear, "19"), Err(FieldError::YearMismatch));
    assert_eq!(fields.get(Field::FiscalYear), "20");
    assert_eq!(edit(&mut fields, EditableField::FiscalYear, "24"), Ok(()));
    assert_eq!(fields.get(Field::FiscalYear), "24");
}

#[test]
fn fiscal_year_is_stored_with_two_digits() {
    let mut fields = with_due_date("20070131");
    assert_eq!(due_year_suffix(&fields), Some(7));
    assert_eq!(edit(&mut fields, EditableField::FiscalYear, "5"), Ok(()));
    assert_eq!(fields.get(Field::FiscalYear), "05");
    assert_eq!(fields.encode().len(), 44);
}

#[test]
fn fiscal_year_needs_a_due_date() {
    let mut fields = with_due_date("20240231");
    assert_eq!(due_date(&fields), None);
    assert_eq!(due_year_suffix(&fields), None);
    let before = fields.encode();
    assert_eq!(edit(&mut fields, EditableField::FiscalYear, "24"), Err(FieldError::NoDueDate));
    assert_eq!(fields.encode(), before);
    let mut fields = with_due_date("00000000");
    assert_eq!(edit(&mut fields, EditableField::FiscalYear, "0"), Err(FieldError::NoDueDate));
}

#[test]
fn stored_due_date_is_read_by_its_digits() {
    let date = due_date(&sample()).unwrap();
    assert_eq!((date.year, date.month, date.day), (2024, 3, 15));
    let date = due_date(&with_due_date("00010101")).unwrap();
    assert_eq!((date.year, date.month, date.day), (1, 1, 1));
    assert_eq!(due_year_suffix(&with_due_date("19991231")), Some(99));
    assert_eq!(due_year_suffix(&with_due_date("20000101")), Some(0));
}

#[test]
fn read_entry_gives_the_digits_to_store() {
    let fields = sample();
    assert_eq!(read_entry(&fields, EditableField::Value, "1,50"), Ok(String::from("00000000150")));
    assert_eq!(
        read_entry(&fields, EditableField::DueDate, "01/02/2025"),
        Ok(String::from("20250201"))
    );
    assert_eq!(read_entry(&fields, EditableField::GuideNumber, "77"), Ok(String::from("0000077")));
    assert_eq!(read_entry(&fields, EditableField::Installment, "9"), Ok(String::from("009")));
    assert_eq!(read_entry(&fields, EditableField::FiscalYear, "22"), Ok(String::from("22")));
    assert_eq!(read_entry(&fields, EditableField::TributeCode, "12"), Ok(String::from("0012")));
}

#[test]
fn canonical_entries_are_stored_as_they_are() {
    let mut fields = sample();
    for (which, field) in [
        (EditableField::Value, Field::Value),
        (EditableField::GuideNumber, Field::GuideNumber),
        (EditableField::Installment, Field::Installment),
        (EditableField::FiscalYear, Field::FiscalYear),
        (EditableField::TributeCode, Field::TributeCode),
    ] {
        let stored = String::from(fields.get(field));
        assert_eq!(edit(&mut fields, which, &stored), Ok(()));
        assert_eq!(fields.get(field), stored);
    }
    assert_eq!(fields.encode(), CODE);
}

#[test]
fn edit_touches_one_field_only() {
    let mut fields = sample();
    assert_eq!(edit(&mut fields, EditableField::TributeCode, "789"), Ok(()));
    assert_eq!(fields.encode(), format!("{}0789", &CODE[..40]));
    assert_eq!(edit(&mut fields, EditableField::Value, "9.876,54"), Ok(()));
    assert_eq!(fields.encode(), format!("8161{}{}0789", "00000987654", &CODE[15..40]));
    assert_eq!(edit(&mut fields, EditableField::DueDate, "31/12/2025"), Ok(()));
    assert_eq!(fields.get(Field::DueDate), "20251231");
    assert_eq!(edit(&mut fields, EditableField::GuideNumber, "7654321"), Ok(()));
    assert_eq!(fields.get(Field::GuideNumber), "7654321");
    assert_eq!(fields.get(Field::Segment), "816");
    assert_eq!(fields.get(Field::MunicipalCode), "1234");
    assert_eq!(fields.get(Field::Installment), "003");
}

#[test]
fn edit_that_is_refused_changes_nothing() {
    let mut fields = sample();
    assert_eq!(edit(&mut fields, EditableField::Value, "abc"), Err(FieldError::Unreadable));
    assert_eq!(edit(&mut fields, EditableField::Value, "1.000.000.000,00"), Err(FieldError::TooLarge));
    assert_eq!(edit(&mut fields, EditableField::DueDate, "31/02/2024"), Err(FieldError::Unreadable));
    assert_eq!(edit(&mut fields, EditableField::GuideNumber, "12345678"), Err(FieldError::Unreadable));
    assert_eq!(edit(&mut fields, EditableField::TributeCode, "12345"), Err(FieldError::Unreadable));
    assert_eq!(fields.encode(), CODE);
}

#[test]
fn editable_fields_name_their_place() {
    assert_eq!(EditableField::Value.field(), Field::Value);
    assert_eq!(EditableField::DueDate.field(), Field::DueDate);
    assert_eq!(EditableField::GuideNumber.field(), Field::GuideNumber);
    assert_eq!(EditableField::Installment.field(), Field::Installment);
    assert_eq!(EditableField::FiscalYear.field(), Field::FiscalYear);
    assert_eq!(EditableField::TributeCode.field(), Field::TributeCode);
}
