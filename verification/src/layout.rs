//! The fixed layout of the 44-digit barcode: ten fields, each of a set width.

use vstd::prelude::*;

verus! {

/// How many digits each of the ten fields has, in barcode order.
pub const LAYOUT: [u8; 10] = [3, 1, 11, 4, 8, 7, 3, 1, 2, 4];

/// The number of fields in a barcode.
pub const FIELD_COUNT: usize = 10;

/// The number of digits in a barcode: the sum of the field widths.
pub const BARCODE_LEN: usize = 44;

/// The number of characters in a barcode as it is typed or pasted, with a
/// separator group after each block of eleven digits.
pub const RAW_LEN: usize = 55;

/// The ten fields of a barcode, in the order in which they are laid out.
#[derive(Clone, Copy, Debug, PartialEq, Eq, Structural)]
pub enum Field {
    /// Bank and segment identifier.
    Segment,
    /// Modulo-10 check digit.
    CheckDigit,
    /// Amount of the guide, in cents.
    Value,
    /// Municipal code.
    MunicipalCode,
    /// Due date, as year, month and day.
    DueDate,
    /// Number of the guide.
    GuideNumber,
    /// Installment number; zero stands for a single installment.
    Installment,
    /// Layout code.
    LayoutCode,
    /// Fiscal year, last two digits.
    FiscalYear,
    /// Tribute code.
    TributeCode,
}

/// The width of the field at position `i`, and zero outside the layout.
pub open spec fn width_at(i: int) -> nat {
    if i == 0 {
        3
    } else if i == 1 {
        1
    } else if i == 2 {
        11
    } else if i == 3 {
        4
    } else if i == 4 {
        8
    } else if i == 5 {
        7
    } else if i == 6 {
        3
    } else if i == 7 {
        1
    } else if i == 8 {
        2
    } else if i == 9 {
        4
    } else {
        0
    }
}

/// Where the field at position `i` starts in the 44 digits: the sum of the
/// widths of the fields before it.
pub open spec fn offset_at(i: int) -> nat
    decreases i,
{
    if i <= 0 {
        0
    } else {
        offset_at(i - 1) + width_at(i - 1)
    }
}

impl Field {
    /// The position of the field in the layout.
    pub open spec fn spec_index(self) -> int {
        match self {
            Field::Segment => 0,
            Field::CheckDigit => 1,
            Field::Value => 2,
            Field::MunicipalCode => 3,
            Field::DueDate => 4,
            Field::GuideNumber => 5,
            Field::Installment => 6,
            Field::LayoutCode => 7,
            Field::FiscalYear => 8,
            Field::TributeCode => 9,
        }
    }

    /// The position of the field in the layout.
    pub fn index(self) -> (i: usize)
        ensures
            i == self.spec_index(),
            i < FIELD_COUNT,
    {
        match self {
            Field::Segment => 0,
            Field::CheckDigit => 1,
            Field::Value => 2,
            Field::MunicipalCode => 3,
            Field::DueDate => 4,
            Field::GuideNumber => 5,
            Field::Installment => 6,
            Field::LayoutCode => 7,
            Field::FiscalYear => 8,
            Field::TributeCode => 9,
        }
    }

    /// The number of digits of the field.
    pub fn width(self) -> (w: usize)
        ensures
            w == width_at(self.spec_index()),
            w == LAYOUT[self.spec_index()],
    {
        LAYOUT[self.index()] as usize
    }
}

/// The width of the field at position `i`, read from the layout table.
pub fn width_of(i: usize) -> (w: usize)
    requires
        i < FIELD_COUNT,
    ensures
        w == width_at(i as int),
        1 <= w <= 11,
{
    LAYOUT[i] as usize
}

/// The widths add up to the length of the barcode, and each field starts
/// where the table says.
pub proof fn lemma_offsets()
    ensures
        offset_at(0) == 0,
        offset_at(1) == 3,
        offset_at(2) == 4,
        offset_at(3) == 15,
        offset_at(4) == 19,
        offset_at(5) == 27,
        offset_at(6) == 34,
        offset_at(7) == 37,
        offset_at(8) == 38,
        offset_at(9) == 40,
        offset_at(10) == BARCODE_LEN,
{
    reveal_with_fuel(offset_at, 11);
}

/// Each field ends where the next one starts, and none reaches beyond the
/// barcode.
pub proof fn lemma_offset_step(i: int)
    requires
        0 <= i < FIELD_COUNT,
    ensures
        offset_at(i + 1) == offset_at(i) + width_at(i),
        offset_at(i + 1) <= BARCODE_LEN,
        1 <= width_at(i) <= 11,
{
    lemma_offsets();
}

/// Every position of the barcode lies in exactly one field.
pub open spec fn field_at(k: int) -> int {
    if k < 3 {
        0
    } else if k < 4 {
        1
    } else if k < 15 {
        2
    } else if k < 19 {
        3
    } else if k < 27 {
        4
    } else if k < 34 {
        5
    } else if k < 37 {
        6
    } else if k < 38 {
        7
    } else if k < 40 {
        8
    } else {
        9
    }
}

/// The field that a position lies in starts at or before it and ends after
/// it.
pub proof fn lemma_field_at(k: int)
    requires
        0 <= k < BARCODE_LEN,
    ensures
        0 <= field_at(k) < FIELD_COUNT,
        offset_at(field_at(k)) <= k < offset_at(field_at(k) + 1),
{
    lemma_offsets();
}

} // verus!
