//! Splitting of character strings at a given count.

use vstd::prelude::*;
use vstd::string::*;

verus! {

/// How many characters a split takes from a text of `len` characters when
/// `wanted` are asked for: never more than there are.
pub open spec fn clamped(wanted: int, len: int) -> int {
    if wanted < len {
        wanted
    } else {
        len
    }
}

/// The first `wanted` characters of `s`, or all of `s` if it is shorter.
pub open spec fn head_of(s: Seq<char>, wanted: int) -> Seq<char> {
    s.subrange(0, clamped(wanted, s.len() as int))
}

/// What is left of `s` after its first `wanted` characters.
pub open spec fn tail_of(s: Seq<char>, wanted: int) -> Seq<char> {
    s.subrange(clamped(wanted, s.len() as int), s.len() as int)
}

/// Splits a string after `num_digitos` characters: the piece that was cut
/// off, then the rest. A string shorter than that is returned whole as the
/// piece, with an empty rest.
pub fn dividir_string(str_inicial: String, num_digitos: u8) -> (partes: (String, String))
    ensures
        partes.0@ == head_of(str_inicial@, num_digitos as int),
        partes.1@ == tail_of(str_inicial@, num_digitos as int),
        partes.0@ + partes.1@ == str_inicial@,
{
    let inteiro = str_inicial.as_str();
    let total: usize = inteiro.unicode_len();
    let corte: usize = if (num_digitos as usize) < total {
        num_digitos as usize
    } else {
        total
    };
    let pedaco = inteiro.substring_char(0, corte);
    let resto = inteiro.substring_char(corte, total);
    (String::from_str(pedaco), String::from_str(resto))
}

} // verus!
