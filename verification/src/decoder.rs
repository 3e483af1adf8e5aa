//! From the barcode as it is typed or pasted to its ten fields: the
//! separator groups are dropped, and the 44 digits that remain are cut up by
//! the layout.

use vstd::prelude::*;
use vstd::string::*;
use crate::digits::{all_digits, is_digit};
use crate::fields::{well_formed, BarcodeFields};
use crate::layout::{
    field_at, lemma_field_at, lemma_offset_step, lemma_offsets, offset_at, width_at, width_of,
    BARCODE_LEN, FIELD_COUNT,
};
use crate::text::{dividir_string, head_of, tail_of};

verus! {

/// How many characters a separator group has.
pub const GROUP_LEN: u8 = 3;

/// How many digits stand between two separator groups.
pub const BLOCK_LEN: u8 = 11;

/// Why a text is not a barcode.
#[derive(Clone, Copy, Debug, PartialEq, Eq, Structural)]
pub enum BarcodeError {
    /// What is left without the separator groups is not exactly 44 digits.
    InvalidBarcode,
}

/// What is left of `raw` when its separator groups are dropped. The text is
/// consumed from the front: while its remaining length is even, a group of
/// three characters is dropped; while it is odd, a block of eleven is kept.
/// A group or block at the end is as long as what remains.
pub open spec fn clean_digits(raw: Seq<char>) -> Seq<char>
    decreases raw.len(),
{
    if raw.len() == 0 {
        Seq::empty()
    } else if raw.len() % 2 == 0 {
        clean_digits(tail_of(raw, GROUP_LEN as int))
    } else {
        head_of(raw, BLOCK_LEN as int) + clean_digits(tail_of(raw, BLOCK_LEN as int))
    }
}

/// Whether `clean` is the digit string of a barcode: 44 characters, all of
/// them digits.
pub open spec fn is_barcode(clean: Seq<char>) -> bool {
    clean.len() == BARCODE_LEN && all_digits(clean)
}

/// The part of the digit string that belongs to the field at position `i`.
pub open spec fn field_slice(clean: Seq<char>, i: int) -> Seq<char> {
    clean.subrange(offset_at(i) as int, offset_at(i + 1) as int)
}

/// The ten fields that the layout cuts out of a digit string.
pub open spec fn split_layout(clean: Seq<char>) -> Seq<Seq<char>> {
    Seq::new(FIELD_COUNT as nat, |i: int| field_slice(clean, i))
}

/// What decoding a typed or pasted text gives: its fields, if the text
/// without its separator groups is a barcode.
pub open spec fn decoded(raw: Seq<char>) -> Option<Seq<Seq<char>>> {
    if is_barcode(clean_digits(raw)) {
        Some(split_layout(clean_digits(raw)))
    } else {
        None
    }
}

/// Drops the separator groups from a barcode as it was typed or pasted.
pub fn strip_padding(raw: &str) -> (clean: String)
    ensures
        clean@ == clean_digits(raw@),
{
    let mut rest = String::from_str(raw);
    let mut clean = String::new();
    loop
        invariant
            clean@ + clean_digits(rest@) == clean_digits(raw@),
        ensures
            rest@.len() == 0,
        decreases rest@.len(),
    {
        let left: usize = rest.as_str().unicode_len();
        if left == 0 {
            break;
        }
        let ghost before = rest@;
        let ghost kept = clean@;
        if left % 2 == 0 {
            let (_, tail) = dividir_string(rest, GROUP_LEN);
            rest = tail;
        } else {
            let (block, tail) = dividir_string(rest, BLOCK_LEN);
            clean.append(block.as_str());
            rest = tail;
            assert(clean@ + clean_digits(rest@) =~= kept + clean_digits(before));
        }
    }
    assert(clean@ + clean_digits(rest@) =~= clean@);
    clean
}

/// A string of 44 characters whose ten fields hold digits holds digits only.
pub proof fn lemma_fields_cover(clean: Seq<char>)
    requires
        clean.len() == BARCODE_LEN,
        forall|j: int| 0 <= j < FIELD_COUNT ==> all_digits(#[trigger] field_slice(clean, j)),
    ensures
        all_digits(clean),
{
    assert forall|k: int| 0 <= k < clean.len() implies is_digit(#[trigger] clean[k]) by {
        lemma_field_at(k);
        let j = field_at(k);
        lemma_offset_step(j);
        assert(all_digits(field_slice(clean, j)));
        assert(field_slice(clean, j)[k - offset_at(j)] == clean[k]);
    }
}

/// The fields cut out of a barcode are well formed.
pub proof fn lemma_split_well_formed(clean: Seq<char>)
    requires
        is_barcode(clean),
    ensures
        well_formed(split_layout(clean)),
{
    let fields = split_layout(clean);
    assert forall|i: int| 0 <= i < FIELD_COUNT implies (#[trigger] fields[i]).len() == width_at(i)
        && all_digits(fields[i]) by {
        lemma_offset_step(i);
        assert forall|k: int| 0 <= k < fields[i].len() implies is_digit(#[trigger] fields[i][k]) by {
            assert(fields[i][k] == clean[offset_at(i) + k]);
        }
    }
}

/// Cuts a digit string up into the ten fields of the layout. The string has
/// to be a barcode: 44 digits and nothing else.
pub fn split_fields(clean: &str) -> (r: Result<BarcodeFields, BarcodeError>)
    ensures
        r is Ok <==> is_barcode(clean@),
        r is Ok ==> r.unwrap()@ == split_layout(clean@) && well_formed(r.unwrap()@),
{
    let mut rest = String::from_str(clean);
    let mut campos: Vec<String> = Vec::new();
    let mut i: usize = 0;
    proof {
        lemma_offsets();
        assert(rest@ =~= clean@.subrange(0, clean@.len() as int));
    }
    while i < FIELD_COUNT
        invariant
            i <= FIELD_COUNT,
            campos@.len() == i,
            offset_at(i as int) <= clean@.len(),
            rest@ == clean@.subrange(offset_at(i as int) as int, clean@.len() as int),
            forall|j: int|
                0 <= j < i ==> (#[trigger] campos@[j])@ == field_slice(clean@, j) && all_digits(
                    campos@[j]@,
                ),
        decreases FIELD_COUNT - i,
    {
        let width = width_of(i);
        proof {
            lemma_offset_step(i as int);
        }
        let ghost start = offset_at(i as int) as int;
        let (piece, tail) = dividir_string(rest, width as u8);
        if piece.as_str().unicode_len() != width {
            return Err(BarcodeError::InvalidBarcode);
        }
        assert(piece@ =~= field_slice(clean@, i as int));
        assert(tail@ =~= clean@.subrange(offset_at(i + 1) as int, clean@.len() as int));
        if !crate::digits::only_digits(piece.as_str()) {
            proof {
                let k = choose|k: int| 0 <= k < piece@.len() && !is_digit(piece@[k]);
                assert(piece@[k] == clean@[start + k]);
            }
            return Err(BarcodeError::InvalidBarcode);
        }
        campos.push(piece);
        rest = tail;
        i = i + 1;
    }
    if rest.as_str().unicode_len() != 0 {
        return Err(BarcodeError::InvalidBarcode);
    }
    proof {
        assert(clean@.len() == BARCODE_LEN);
        assert forall|j: int| 0 <= j < FIELD_COUNT implies all_digits(
            #[trigger] field_slice(clean@, j),
        ) by {
            assert(campos@[j]@ == field_slice(clean@, j));
        }
        lemma_fields_cover(clean@);
        lemma_split_well_formed(clean@);
        assert(Seq::new(campos@.len(), |i: int| campos@[i]@) =~= split_layout(clean@));
    }
    Ok(BarcodeFields::from_parts(campos))
}

/// Decodes a barcode as it was typed or pasted: drops the separator groups
/// and cuts the digits that remain up into the ten fields.
pub fn decode(raw: &str) -> (r: Result<BarcodeFields, BarcodeError>)
    ensures
        r is Ok <==> decoded(raw@) is Some,
        r is Ok ==> r.unwrap()@ == decoded(raw@).unwrap() && well_formed(r.unwrap()@),
{
    let clean = strip_padding(raw);
    split_fields(clean.as_str())
}

} // verus!
