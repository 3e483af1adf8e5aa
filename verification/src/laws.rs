//! Laws that relate decoding, editing and encoding to each other.

use vstd::prelude::*;
use crate::decoder::{clean_digits, decoded, field_slice, is_barcode, split_layout};
use crate::calendar::{
    date_exists, is_shown_shape, is_stored_shape, lemma_patterns_differ, lemma_reading_in_range,
    shown_pattern, shown_reading, stored_pattern, stored_reading, written_date,
};
use crate::digits::{
    all_digits, is_digit, is_unsigned_text, lemma_padded_of_value, lemma_value_of_padded,
    lemma_zero_padded_shape, pow10, unsigned_body, zero_padded,
};
use crate::editor::{
    edited, entry_digits, lemma_stored_form_shape, without_separators, EditableField,
};
use crate::fields::{joined, joined_upto, well_formed};
use crate::layout::{lemma_offset_step, lemma_offsets, offset_at, width_at, BARCODE_LEN, FIELD_COUNT};

verus! {

/// A barcode with a separator group put after each block of eleven digits:
/// the form in which it is typed or pasted. The first three groups have three
/// characters, the last one two.
pub open spec fn with_groups(
    code: Seq<char>,
    first: Seq<char>,
    second: Seq<char>,
    third: Seq<char>,
    last: Seq<char>,
) -> Seq<char> {
    code.subrange(0, 11) + first + code.subrange(11, 22) + second + code.subrange(22, 33) + third
        + code.subrange(33, 44) + last
}

/// The first `n` fields cut out of a digit string spell the string up to the
/// start of field `n`.
pub proof fn lemma_joined_prefix(clean: Seq<char>, n: int)
    requires
        clean.len() == BARCODE_LEN,
        0 <= n <= FIELD_COUNT,
    ensures
        joined_upto(split_layout(clean), n) == clean.subrange(0, offset_at(n) as int),
    decreases n,
{
    lemma_offsets();
    if n > 0 {
        lemma_joined_prefix(clean, n - 1);
        lemma_offset_step(n - 1);
        assert(split_layout(clean)[n - 1] == field_slice(clean, n - 1));
        assert(joined_upto(split_layout(clean), n) =~= clean.subrange(0, offset_at(n) as int));
    } else {
        assert(joined_upto(split_layout(clean), n) =~= clean.subrange(0, offset_at(n) as int));
    }
}

/// Cutting a barcode up into its fields and putting them together again
/// gives the barcode back.
pub proof fn lemma_split_then_join(clean: Seq<char>)
    requires
        is_barcode(clean),
    ensures
        joined(split_layout(clean)) == clean,
{
    lemma_offsets();
    lemma_joined_prefix(clean, FIELD_COUNT as int);
    assert(clean.subrange(0, BARCODE_LEN as int) =~= clean);
}

/// Putting well-formed fields together and cutting the result up again gives
/// the same fields back.
pub proof fn lemma_join_then_split(fields: Seq<Seq<char>>)
    requires
        well_formed(fields),
    ensures
        is_barcode(joined(fields)),
        split_layout(joined(fields)) == fields,
{
    lemma_offsets();
    crate::fields::lemma_joined_upto_shape(fields, FIELD_COUNT as int);
    let code = joined(fields);
    assert forall|i: int| 0 <= i < FIELD_COUNT implies field_slice(code, i) == #[trigger] fields[i] by {
        lemma_joined_covers(fields, i, FIELD_COUNT as int);
    }
    assert(split_layout(code) =~= fields);
}

/// Field `i` stands at its place in the first `n` fields put together, for
/// every `n` beyond `i`.
pub proof fn lemma_joined_covers(fields: Seq<Seq<char>>, i: int, n: int)
    requires
        well_formed(fields),
        0 <= i < n <= FIELD_COUNT,
    ensures
        joined_upto(fields, n).len() == offset_at(n),
        joined_upto(fields, n).subrange(offset_at(i) as int, offset_at(i + 1) as int) == fields[i],
    decreases n,
{
    crate::fields::lemma_joined_upto_shape(fields, n);
    crate::fields::lemma_joined_upto_shape(fields, n - 1);
    lemma_offset_step(n - 1);
    lemma_offset_step(i);
    assert(fields[n - 1].len() == width_at(n - 1));
    if i == n - 1 {
        assert(joined_upto(fields, n).subrange(offset_at(i) as int, offset_at(i + 1) as int)
            =~= fields[i]);
    } else {
        lemma_joined_covers(fields, i, n - 1);
        lemma_offset_monotone(i + 1, n - 1);
        assert(joined_upto(fields, n).subrange(offset_at(i) as int, offset_at(i + 1) as int)
            =~= joined_upto(fields, n - 1).subrange(
            offset_at(i) as int,
            offset_at(i + 1) as int,
        ));
    }
}

/// A later field starts no earlier than a former one.
pub proof fn lemma_offset_monotone(i: int, j: int)
    requires
        0 <= i <= j <= FIELD_COUNT,
    ensures
        offset_at(i) <= offset_at(j),
    decreases j - i,
{
    if i < j {
        lemma_offset_monotone(i, j - 1);
    }
}

/// Round trip: whenever a typed or pasted text decodes, encoding the fields
/// gives back exactly the digits that were left of the text without its
/// separator groups.
pub proof fn lemma_decode_then_encode(raw: Seq<char>)
    requires
        decoded(raw) is Some,
    ensures
        joined(decoded(raw).unwrap()) == clean_digits(raw),
        well_formed(decoded(raw).unwrap()),
{
    lemma_split_then_join(clean_digits(raw));
    crate::decoder::lemma_split_well_formed(clean_digits(raw));
}

/// Whatever the separator groups hold, dropping them from a barcode written
/// with groups gives the barcode back.
pub proof fn lemma_groups_are_dropped(
    code: Seq<char>,
    first: Seq<char>,
    second: Seq<char>,
    third: Seq<char>,
    last: Seq<char>,
)
    requires
        code.len() == BARCODE_LEN,
        first.len() == 3,
        second.len() == 3,
        third.len() == 3,
        last.len() == 2,
    ensures
        with_groups(code, first, second, third, last).len() == crate::layout::RAW_LEN,
        clean_digits(with_groups(code, first, second, third, last)) == code,
{
    let b0 = code.subrange(0, 11);
    let b1 = code.subrange(11, 22);
    let b2 = code.subrange(22, 33);
    let b3 = code.subrange(33, 44);
    let r0 = with_groups(code, first, second, third, last);
    let r1 = first + b1 + second + b2 + third + b3 + last;
    let r2 = b1 + second + b2 + third + b3 + last;
    let r3 = second + b2 + third + b3 + last;
    let r4 = b2 + third + b3 + last;
    let r5 = third + b3 + last;
    let r6 = b3 + last;
    let r7 = last;
    let r8 = Seq::<char>::empty();
    assert(crate::text::tail_of(r0, 11) =~= r1 && crate::text::head_of(r0, 11) =~= b0);
    assert(crate::text::tail_of(r1, 3) =~= r2);
    assert(crate::text::tail_of(r2, 11) =~= r3 && crate::text::head_of(r2, 11) =~= b1);
    assert(crate::text::tail_of(r3, 3) =~= r4);
    assert(crate::text::tail_of(r4, 11) =~= r5 && crate::text::head_of(r4, 11) =~= b2);
    assert(crate::text::tail_of(r5, 3) =~= r6);
    assert(crate::text::tail_of(r6, 11) =~= r7 && crate::text::head_of(r6, 11) =~= b3);
    assert(crate::text::tail_of(r7, 3) =~= r8);
    assert(clean_digits(r8) =~= Seq::<char>::empty());
    assert(clean_digits(r7) == clean_digits(r8));
    assert(clean_digits(r6) == b3 + clean_digits(r7));
    assert(clean_digits(r5) == clean_digits(r6));
    assert(clean_digits(r4) == b2 + clean_digits(r5));
    assert(clean_digits(r3) == clean_digits(r4));
    assert(clean_digits(r2) == b1 + clean_digits(r3));
    assert(clean_digits(r1) == clean_digits(r2));
    assert(clean_digits(r0) == b0 + clean_digits(r1));
    assert(b0 + (b1 + (b2 + (b3 + Seq::<char>::empty()))) =~= code);
}

/// Round trip from the typed form: a barcode written with any separator
/// groups decodes, and encoding its fields gives the barcode back.
pub proof fn lemma_round_trip(
    code: Seq<char>,
    first: Seq<char>,
    second: Seq<char>,
    third: Seq<char>,
    last: Seq<char>,
)
    requires
        is_barcode(code),
        first.len() == 3,
        second.len() == 3,
        third.len() == 3,
        last.len() == 2,
    ensures
        decoded(with_groups(code, first, second, third, last)) is Some,
        joined(decoded(with_groups(code, first, second, third, last)).unwrap()) == code,
{
    lemma_groups_are_dropped(code, first, second, third, last);
    lemma_decode_then_encode(with_groups(code, first, second, third, last));
}

/// A digit string holds no separators, so that dropping them changes
/// nothing.
pub proof fn lemma_digits_have_no_separators(text: Seq<char>)
    requires
        all_digits(text),
    ensures
        without_separators(text) == text,
    decreases text.len(),
{
    if text.len() > 0 {
        lemma_digits_have_no_separators(text.drop_last());
        assert(is_digit(text.last()));
        assert(text.drop_last().push(text.last()) =~= text);
    } else {
        assert(without_separators(text) =~= text);
    }
}

/// Canonical entries are kept as they are: where a text that is typed for a
/// field other than the due date already has the width and the digits of
/// the field, then the digits stored for it, if it is accepted, are the
/// text itself. For the amount, the guide number and the tribute code such
/// a text is always accepted.
pub proof fn lemma_canonical_entry(fields: Seq<Seq<char>>, which: EditableField, text: Seq<char>)
    requires
        well_formed(fields),
        which != EditableField::DueDate,
        text.len() == width_at(which.spec_field().spec_index()),
        all_digits(text),
    ensures
        entry_digits(fields, which, text) is Ok ==> entry_digits(fields, which, text) == Ok::<
            Seq<char>,
            crate::editor::FieldError,
        >(text),
        which == EditableField::Value || which == EditableField::GuideNumber || which
            == EditableField::TributeCode ==> entry_digits(fields, which, text) is Ok,
{
    reveal_with_fuel(pow10, 12);
    lemma_digits_have_no_separators(text);
    lemma_padded_of_value(text);
    assert(is_digit(text[0]));
    assert(unsigned_body(text) == text);
    assert(is_unsigned_text(text));
}

/// The two written forms of a day of the years 0 to 9999 have the stored
/// and the shown shape, and each denotes the day again.
pub proof fn lemma_written_date_is_read_back(year: int, month: int, day: int)
    requires
        0 <= year <= 9999,
        date_exists(year, month, day),
    ensures
        is_stored_shape(written_date(year, month, day, stored_pattern())),
        stored_reading(written_date(year, month, day, stored_pattern())) == Some(
            (year, month, day),
        ),
        is_shown_shape(written_date(year, month, day, shown_pattern())),
        shown_reading(written_date(year, month, day, shown_pattern())) == Some(
            (year, month, day),
        ),
{
    reveal_with_fuel(pow10, 5);
    lemma_patterns_differ();
    lemma_stored_form_shape(year, month, day);
    let y = zero_padded(year as nat, 4);
    let m = zero_padded(month as nat, 2);
    let d = zero_padded(day as nat, 2);
    lemma_zero_padded_shape(year as nat, 4);
    lemma_zero_padded_shape(month as nat, 2);
    lemma_zero_padded_shape(day as nat, 2);
    lemma_value_of_padded(year as nat, 4);
    lemma_value_of_padded(month as nat, 2);
    lemma_value_of_padded(day as nat, 2);
    let stored = written_date(year, month, day, stored_pattern());
    assert(stored.subrange(0, 4) =~= y);
    assert(stored.subrange(4, 6) =~= m);
    assert(stored.subrange(6, 8) =~= d);
    let shown = written_date(year, month, day, shown_pattern());
    assert(shown.subrange(0, 2) =~= d);
    assert(shown.subrange(3, 5) =~= m);
    assert(shown.subrange(6, 10) =~= y);
}

/// Round trip of the due date: the stored digits of a day, written the way
/// they are shown and read again, give the stored digits back.
pub proof fn lemma_due_date_round_trip(stored: Seq<char>)
    requires
        is_stored_shape(stored),
        stored_reading(stored) is Some,
    ensures
        ({
            let (year, month, day) = stored_reading(stored).unwrap();
            let shown = written_date(year, month, day, shown_pattern());
            &&& is_shown_shape(shown)
            &&& shown_reading(shown) == stored_reading(stored)
            &&& written_date(year, month, day, stored_pattern()) == stored
        }),
{
    let (year, month, day) = stored_reading(stored).unwrap();
    lemma_reading_in_range(stored);
    lemma_written_date_is_read_back(year, month, day);
    lemma_patterns_differ();
    let y = stored.subrange(0, 4);
    let m = stored.subrange(4, 6);
    let d = stored.subrange(6, 8);
    assert(all_digits(y)) by {
        assert forall|i: int| 0 <= i < y.len() implies is_digit(#[trigger] y[i]) by {
            assert(y[i] == stored[i]);
        }
    }
    assert(all_digits(m)) by {
        assert forall|i: int| 0 <= i < m.len() implies is_digit(#[trigger] m[i]) by {
            assert(m[i] == stored[i + 4]);
        }
    }
    assert(all_digits(d)) by {
        assert forall|i: int| 0 <= i < d.len() implies is_digit(#[trigger] d[i]) by {
            assert(d[i] == stored[i + 6]);
        }
    }
    lemma_padded_of_value(y);
    lemma_padded_of_value(m);
    lemma_padded_of_value(d);
    assert(written_date(year, month, day, stored_pattern()) =~= stored);
}

/// Round trip of a typed due date: a text of the shown shape that denotes a
/// day is stored as eight digits that denote the same day, and these are
/// shown as the text that was typed.
pub proof fn lemma_typed_date_round_trip(shown: Seq<char>)
    requires
        is_shown_shape(shown),
        shown_reading(shown) is Some,
    ensures
        ({
            let (year, month, day) = shown_reading(shown).unwrap();
            let stored = written_date(year, month, day, stored_pattern());
            &&& is_stored_shape(stored)
            &&& stored_reading(stored) == shown_reading(shown)
            &&& written_date(year, month, day, shown_pattern()) == shown
        }),
{
    let (year, month, day) = shown_reading(shown).unwrap();
    lemma_reading_in_range(shown);
    lemma_written_date_is_read_back(year, month, day);
    lemma_patterns_differ();
    lemma_padded_of_value(shown.subrange(0, 2));
    lemma_padded_of_value(shown.subrange(3, 5));
    lemma_padded_of_value(shown.subrange(6, 10));
    assert(written_date(year, month, day, shown_pattern()) =~= shown);
}

/// An edit touches one field: where a typed text is accepted, the new
/// fields are well formed, and the barcode they spell differs from the old
/// one at most within the edited field, which holds the digits stored for
/// the text.
pub proof fn lemma_edit_changes_one_field(
    fields: Seq<Seq<char>>,
    which: EditableField,
    text: Seq<char>,
)
    requires
        well_formed(fields),
        edited(fields, which, text) is Ok,
    ensures
        ({
            let after = edited(fields, which, text).unwrap();
            let at = which.spec_field().spec_index();
            &&& well_formed(after)
            &&& joined(after).len() == joined(fields).len() == BARCODE_LEN
            &&& field_slice(joined(after), at) == entry_digits(fields, which, text).unwrap()
            &&& forall|k: int|
                0 <= k < BARCODE_LEN && !(offset_at(at) <= k < offset_at(at + 1)) ==> joined(
                    after,
                )[k] == joined(fields)[k]
        }),
{
    let after = edited(fields, which, text).unwrap();
    let at = which.spec_field().spec_index();
    let digits = entry_digits(fields, which, text).unwrap();
    lemma_offsets();
    assert(digits.len() == width_at(at) && all_digits(digits)) by {
        match which {
            EditableField::DueDate => {
                let date = crate::calendar::read_date(text, shown_pattern()).unwrap();
                lemma_stored_form_shape(date.0, date.1, date.2);
            },
            EditableField::Value => {
                lemma_zero_padded_shape(crate::editor::value_entry(text).unwrap(), 11);
            },
            EditableField::GuideNumber => {
                lemma_zero_padded_shape(
                    crate::editor::number_entry(
                        text,
                        crate::editor::MAX_GUIDE_NUMBER as nat,
                    ).unwrap(),
                    7,
                );
            },
            EditableField::Installment => {
                lemma_zero_padded_shape(crate::editor::installment_entry(text).unwrap(), 3);
            },
            EditableField::FiscalYear => {
                lemma_zero_padded_shape(
                    crate::editor::fiscal_year_against(fields, text).unwrap(),
                    2,
                );
            },
            EditableField::TributeCode => {
                lemma_zero_padded_shape(
                    crate::editor::number_entry(
                        text,
                        crate::editor::MAX_TRIBUTE_CODE as nat,
                    ).unwrap(),
                    4,
                );
            },
        }
    }
    assert(well_formed(after)) by {
        assert forall|i: int| 0 <= i < FIELD_COUNT implies (#[trigger] after[i]).len() == width_at(
            i,
        ) && all_digits(after[i]) by {
            if i != at {
                assert(after[i] == fields[i]);
            }
        }
    }
    lemma_join_then_split(fields);
    lemma_join_then_split(after);
    assert(split_layout(joined(after))[at] == after[at]);
    assert forall|k: int|
        0 <= k < BARCODE_LEN && !(offset_at(at) <= k < offset_at(at + 1)) implies joined(after)[k]
        == joined(fields)[k] by {
        crate::layout::lemma_field_at(k);
        let j = crate::layout::field_at(k);
        lemma_offset_step(j);
        if j < at {
            lemma_offset_monotone(j + 1, at);
        } else if j > at {
            lemma_offset_monotone(at + 1, j);
        }
        assert(j != at);
        assert(split_layout(joined(after))[j] == after[j]);
        assert(split_layout(joined(fields))[j] == fields[j]);
        assert(field_slice(joined(after), j)[k - offset_at(j)] == joined(after)[k]);
        assert(field_slice(joined(fields), j)[k - offset_at(j)] == joined(fields)[k]);
    }
}

} // verus!
