//! The ten fields of a decoded barcode, each kept as the digits it was read
//! as, and the digit string they spell when put together again.

use vstd::prelude::*;
use vstd::string::*;
use crate::digits::all_digits;
use crate::layout::{offset_at, width_at, Field, BARCODE_LEN, FIELD_COUNT};

verus! {

/// Whether `fields` are the ten fields of a barcode: each of the width that
/// the layout gives it, and made of digits only.
pub open spec fn well_formed(fields: Seq<Seq<char>>) -> bool {
    &&& fields.len() == FIELD_COUNT
    &&& forall|i: int|
        0 <= i < FIELD_COUNT ==> (#[trigger] fields[i]).len() == width_at(i) && all_digits(
            fields[i],
        )
}

/// The first `n` fields written one after the other.
pub open spec fn joined_upto(fields: Seq<Seq<char>>, n: int) -> Seq<char>
    decreases n,
{
    if n <= 0 {
        Seq::empty()
    } else {
        joined_upto(fields, n - 1) + fields[n - 1]
    }
}

/// The digit string that the ten fields spell, in layout order.
pub open spec fn joined(fields: Seq<Seq<char>>) -> Seq<char> {
    joined_upto(fields, FIELD_COUNT as int)
}

/// The first `n` well-formed fields fill the barcode up to the start of field
/// `n`, with digits only.
pub proof fn lemma_joined_upto_shape(fields: Seq<Seq<char>>, n: int)
    requires
        well_formed(fields),
        0 <= n <= FIELD_COUNT,
    ensures
        joined_upto(fields, n).len() == offset_at(n),
        all_digits(joined_upto(fields, n)),
    decreases n,
{
    if n > 0 {
        lemma_joined_upto_shape(fields, n - 1);
        let before = joined_upto(fields, n - 1);
        let whole = joined_upto(fields, n);
        assert(fields[n - 1].len() == width_at(n - 1) && all_digits(fields[n - 1]));
        assert forall|k: int| 0 <= k < whole.len() implies crate::digits::is_digit(
            #[trigger] whole[k],
        ) by {
            if k < before.len() {
                assert(whole[k] == before[k]);
            } else {
                assert(whole[k] == fields[n - 1][k - before.len()]);
            }
        }
    }
}

/// The ten fields of a barcode. A value of this type always holds ten digit
/// strings of the widths that the layout gives.
#[derive(Debug)]
pub struct BarcodeFields {
    campos: [String; 10],
}

impl View for BarcodeFields {
    type V = Seq<Seq<char>>;

    closed spec fn view(&self) -> Seq<Seq<char>> {
        Seq::new(self.campos@.len(), |i: int| self.campos@[i]@)
    }
}

impl BarcodeFields {
    /// What holds of every value of the type.
    #[verifier::type_invariant]
    pub open spec fn inv(self) -> bool {
        well_formed(self@)
    }

    /// Makes the fields from ten digit strings of the right widths.
    pub(crate) fn from_parts(partes: Vec<String>) -> (fields: BarcodeFields)
        requires
            well_formed(Seq::new(partes@.len(), |i: int| partes@[i]@)),
        ensures
            fields@ == Seq::new(partes@.len(), |i: int| partes@[i]@),
            well_formed(fields@),
    {
        let campos: [String; 10] = [
            partes[0].clone(),
            partes[1].clone(),
            partes[2].clone(),
            partes[3].clone(),
            partes[4].clone(),
            partes[5].clone(),
            partes[6].clone(),
            partes[7].clone(),
            partes[8].clone(),
            partes[9].clone(),
        ];
        assert(Seq::new(campos@.len(), |i: int| campos@[i]@) =~= Seq::new(
            partes@.len(),
            |i: int| partes@[i]@,
        ));
        BarcodeFields { campos }
    }

    /// Takes ten strings for the fields, if each is made of digits and has
    /// the width that the layout gives it.
    pub fn from_array(campos: [String; 10]) -> (fields: Option<BarcodeFields>)
        ensures
            fields is Some <==> well_formed(Seq::new(10, |i: int| campos@[i]@)),
            fields matches Some(f) ==> f@ == Seq::new(10, |i: int| campos@[i]@),
    {
        let ghost texts = Seq::new(10, |i: int| campos@[i]@);
        let mut i: usize = 0;
        while i < FIELD_COUNT
            invariant
                i <= FIELD_COUNT,
                texts == Seq::new(10, |i: int| campos@[i]@),
                forall|j: int|
                    0 <= j < i ==> (#[trigger] texts[j]).len() == width_at(j) && all_digits(
                        texts[j],
                    ),
            decreases FIELD_COUNT - i,
        {
            let digits = campos[i].as_str();
            assert(digits@ == texts[i as int]);
            if digits.unicode_len() != crate::layout::width_of(i) || !crate::digits::only_digits(
                digits,
            ) {
                return None;
            }
            i = i + 1;
        }
        assert(Seq::new(campos@.len(), |i: int| campos@[i]@) =~= texts);
        Some(BarcodeFields { campos })
    }

    /// The digits of one field.
    pub fn get(&self, field: Field) -> (digits: &str)
        ensures
            digits@ == self@[field.spec_index()],
            digits@.len() == width_at(field.spec_index()),
            all_digits(digits@),
            well_formed(self@),
    {
        proof {
            use_type_invariant(self);
            assert(self@[field.spec_index()] == self.campos@[field.spec_index()]@);
        }
        self.campos[field.index()].as_str()
    }

    /// The ten digit strings, copied.
    fn clones(&self) -> (campos: [String; 10])
        ensures
            Seq::new(campos@.len(), |i: int| campos@[i]@) == self@,
    {
        let campos: [String; 10] = [
            self.campos[0].clone(),
            self.campos[1].clone(),
            self.campos[2].clone(),
            self.campos[3].clone(),
            self.campos[4].clone(),
            self.campos[5].clone(),
            self.campos[6].clone(),
            self.campos[7].clone(),
            self.campos[8].clone(),
            self.campos[9].clone(),
        ];
        assert(Seq::new(campos@.len(), |i: int| campos@[i]@) =~= self@);
        campos
    }

    /// A copy of the fields.
    pub fn copy(&self) -> (other: BarcodeFields)
        ensures
            other@ == self@,
            well_formed(other@),
    {
        proof {
            use_type_invariant(self);
        }
        let campos: [String; 10] = self.clones();
        BarcodeFields { campos }
    }

    /// Puts new digits in the place of one field and leaves the others as
    /// they are.
    pub(crate) fn put(&mut self, field: Field, digits: String)
        requires
            digits@.len() == width_at(field.spec_index()),
            all_digits(digits@),
        ensures
            final(self)@ == old(self)@.update(field.spec_index(), digits@),
            well_formed(final(self)@),
    {
        proof {
            use_type_invariant(&*self);
        }
        let ghost before = self@;
        let at = field.index();
        let ghost stored = digits@;
        let mut campos: [String; 10] = self.clones();
        campos[at] = digits;
        assert(Seq::new(campos@.len(), |i: int| campos@[i]@) =~= before.update(
            at as int,
            stored,
        ));
        self.campos = campos;
    }

    /// The 44 digits of the barcode: the ten fields one after the other.
    pub fn encode(&self) -> (code: String)
        ensures
            code@ == joined(self@),
            code@.len() == BARCODE_LEN,
            all_digits(code@),
            well_formed(self@),
    {
        proof {
            use_type_invariant(self);
        }
        let mut code = String::new();
        let mut i: usize = 0;
        while i < FIELD_COUNT
            invariant
                i <= FIELD_COUNT,
                code@ == joined_upto(self@, i as int),
            decreases FIELD_COUNT - i,
        {
            code.append(self.campos[i].as_str());
            i = i + 1;
        }
        proof {
            lemma_joined_upto_shape(self@, FIELD_COUNT as int);
            crate::layout::lemma_offsets();
        }
        code
    }
}

} // verus!
