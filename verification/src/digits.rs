//! Decimal digits: what a digit string is worth, and how a number is written
//! at a fixed width with zeros on the left.

use vstd::prelude::*;
use vstd::string::*;

verus! {

/// Whether `c` is one of the ten ASCII decimal digits.
pub open spec fn is_digit(c: char) -> bool {
    '0' <= c && c <= '9'
}

/// Whether every character of `s` is a decimal digit.
pub open spec fn all_digits(s: Seq<char>) -> bool {
    forall|i: int| 0 <= i < s.len() ==> is_digit(#[trigger] s[i])
}

/// The number that the digit `c` stands for.
pub open spec fn digit_value(c: char) -> nat {
    (c as int - '0' as int) as nat
}

/// The digit that stands for `d`, for `d` below ten.
pub open spec fn digit_char(d: nat) -> char {
    if d == 0 {
        '0'
    } else if d == 1 {
        '1'
    } else if d == 2 {
        '2'
    } else if d == 3 {
        '3'
    } else if d == 4 {
        '4'
    } else if d == 5 {
        '5'
    } else if d == 6 {
        '6'
    } else if d == 7 {
        '7'
    } else if d == 8 {
        '8'
    } else {
        '9'
    }
}

/// The number that a digit string denotes, most significant digit first.
/// The empty string denotes zero.
pub open spec fn decimal_value(s: Seq<char>) -> nat
    decreases s.len(),
{
    if s.len() == 0 {
        0
    } else {
        10 * decimal_value(s.drop_last()) + digit_value(s.last())
    }
}

/// Ten to the power `n`.
pub open spec fn pow10(n: nat) -> nat
    decreases n,
{
    if n == 0 {
        1
    } else {
        10 * pow10((n - 1) as nat)
    }
}

/// A higher power of ten is no smaller.
pub proof fn lemma_pow10_grows(low: nat, high: nat)
    requires
        low <= high,
    ensures
        pow10(low) <= pow10(high),
        pow10(low) >= 1,
    decreases high,
{
    if low < high {
        lemma_pow10_grows(low, (high - 1) as nat);
    } else if low > 0 {
        lemma_pow10_grows((low - 1) as nat, (high - 1) as nat);
    }
}

/// `v` written with exactly `width` digits, zeros on the left. Digits of `v`
/// beyond that width are dropped.
pub open spec fn zero_padded(v: nat, width: nat) -> Seq<char>
    decreases width,
{
    if width == 0 {
        Seq::empty()
    } else {
        zero_padded(v / 10, (width - 1) as nat).push(digit_char(v % 10))
    }
}

/// Tells whether a character is a decimal digit.
pub fn char_is_digit(c: char) -> (b: bool)
    ensures
        b == is_digit(c),
{
    '0' <= c && c <= '9'
}

/// The value of a decimal digit.
pub fn char_digit_value(c: char) -> (d: u8)
    requires
        is_digit(c),
    ensures
        d as nat == digit_value(c),
        d < 10,
{
    (c as u32 - '0' as u32) as u8
}

/// The one-character text of a digit.
pub fn digit_text(d: u8) -> (t: &'static str)
    requires
        d < 10,
    ensures
        t@ == seq![digit_char(d as nat)],
{
    proof {
        reveal_strlit("0");
        reveal_strlit("1");
        reveal_strlit("2");
        reveal_strlit("3");
        reveal_strlit("4");
        reveal_strlit("5");
        reveal_strlit("6");
        reveal_strlit("7");
        reveal_strlit("8");
        reveal_strlit("9");
    }
    let t = match d {
        0 => "0",
        1 => "1",
        2 => "2",
        3 => "3",
        4 => "4",
        5 => "5",
        6 => "6",
        7 => "7",
        8 => "8",
        _ => "9",
    };
    assert(t@ =~= seq![digit_char(d as nat)]);
    t
}

/// Writes `value` with exactly `width` digits, zeros on the left.
pub fn format_padded(value: u64, width: usize) -> (s: String)
    ensures
        s@ == zero_padded(value as nat, width as nat),
    decreases width,
{
    if width == 0 {
        String::new()
    } else {
        let mut s = format_padded(value / 10, width - 1);
        s.append(digit_text((value % 10) as u8));
        assert(s@ =~= zero_padded(value as nat, width as nat));
        s
    }
}

/// A zero-padded number has the width asked for and holds digits only.
pub proof fn lemma_zero_padded_shape(v: nat, width: nat)
    ensures
        zero_padded(v, width).len() == width,
        all_digits(zero_padded(v, width)),
    decreases width,
{
    if width > 0 {
        lemma_zero_padded_shape(v / 10, (width - 1) as nat);
    }
}

/// Reading back a number written at a width that holds it gives the number.
pub proof fn lemma_value_of_padded(v: nat, width: nat)
    requires
        v < pow10(width),
    ensures
        decimal_value(zero_padded(v, width)) == v,
    decreases width,
{
    if width > 0 {
        let rest = zero_padded(v / 10, (width - 1) as nat);
        lemma_value_of_padded(v / 10, (width - 1) as nat);
        assert(zero_padded(v, width).drop_last() =~= rest);
        assert(zero_padded(v, width).last() == digit_char(v % 10));
    }
}

/// A digit string is worth less than ten to the power of its length, and
/// writing its value at its own length gives the string back.
pub proof fn lemma_padded_of_value(s: Seq<char>)
    requires
        all_digits(s),
    ensures
        decimal_value(s) < pow10(s.len()),
        zero_padded(decimal_value(s), s.len()) == s,
    decreases s.len(),
{
    if s.len() > 0 {
        let front = s.drop_last();
        lemma_padded_of_value(front);
        assert(is_digit(s.last()));
        let v = decimal_value(s);
        assert(v / 10 == decimal_value(front));
        assert(v % 10 == digit_value(s.last()));
        assert(digit_char(v % 10) == s.last());
        assert(zero_padded(v, s.len()) =~= s);
    } else {
        assert(zero_padded(decimal_value(s), s.len()) =~= s);
    }
}

/// Every prefix of a digit string is worth no more than the whole string.
pub proof fn lemma_prefix_value(s: Seq<char>, k: int)
    requires
        0 <= k <= s.len(),
    ensures
        decimal_value(s.subrange(0, k)) <= decimal_value(s),
    decreases s.len() - k,
{
    if k == s.len() {
        assert(s.subrange(0, k) =~= s);
    } else {
        lemma_prefix_value(s.drop_last(), k);
        assert(s.drop_last().subrange(0, k) =~= s.subrange(0, k));
    }
}

/// The digits of an unsigned number text: the text itself, without the plus
/// sign that may stand in front.
pub open spec fn unsigned_body(s: Seq<char>) -> Seq<char> {
    if s.len() > 0 && s[0] == '+' {
        s.subrange(1, s.len() as int)
    } else {
        s
    }
}

/// Whether `s` is an unsigned decimal number: an optional plus sign, then at
/// least one digit and nothing else.
pub open spec fn is_unsigned_text(s: Seq<char>) -> bool {
    unsigned_body(s).len() > 0 && all_digits(unsigned_body(s))
}

/// The number that an unsigned number text denotes.
pub open spec fn unsigned_value(s: Seq<char>) -> nat {
    decimal_value(unsigned_body(s))
}

/// Reads an unsigned decimal number that may not exceed `limit`. Leading
/// zeros are allowed in any number; a sign other than one leading plus,
/// white space, an empty text and a value above `limit` are refused.
pub fn parse_unsigned(text: &str, limit: u64) -> (r: Option<u64>)
    ensures
        r is Some <==> is_unsigned_text(text@) && unsigned_value(text@) <= limit,
        r is Some ==> r.unwrap() as nat == unsigned_value(text@),
{
    let total: usize = text.unicode_len();
    if total == 0 {
        return None;
    }
    let start: usize = if text.get_char(0) == '+' {
        1
    } else {
        0
    };
    if start == total {
        return None;
    }
    let ghost body = unsigned_body(text@);
    assert(body =~= text@.subrange(start as int, total as int));
    let mut acc: u64 = 0;
    let mut i: usize = start;
    while i < total
        invariant
            start <= i <= total,
            total == text@.len(),
            body == text@.subrange(start as int, total as int),
            body == unsigned_body(text@),
            all_digits(body.subrange(0, i - start)),
            acc as nat == decimal_value(body.subrange(0, i - start)),
            acc <= limit,
        decreases total - i,
    {
        let c = text.get_char(i);
        let ghost seen = body.subrange(0, i - start + 1);
        assert(seen.drop_last() =~= body.subrange(0, i - start));
        assert(seen.last() == c);
        if !char_is_digit(c) {
            assert(!is_digit(body[i - start]));
            return None;
        }
        let d = char_digit_value(c);
        let wide: u128 = (acc as u128) * 10 + (d as u128);
        if wide > limit as u128 {
            proof {
                lemma_prefix_value(body, i - start + 1);
            }
            return None;
        }
        assert forall|j: int| 0 <= j < seen.len() implies is_digit(#[trigger] seen[j]) by {
            if j < seen.len() - 1 {
                assert(seen[j] == body.subrange(0, i - start)[j]);
            }
        }
        acc = wide as u64;
        i = i + 1;
    }
    assert(body.subrange(0, i - start) =~= body);
    Some(acc)
}

/// Tells whether a text holds decimal digits only.
pub fn only_digits(text: &str) -> (b: bool)
    ensures
        b == all_digits(text@),
{
    let total: usize = text.unicode_len();
    let mut i: usize = 0;
    while i < total
        invariant
            i <= total,
            total == text@.len(),
            forall|j: int| 0 <= j < i ==> is_digit(#[trigger] text@[j]),
        decreases total - i,
    {
        if !char_is_digit(text.get_char(i)) {
            return false;
        }
        i = i + 1;
    }
    true
}

/// `n` written in decimal without zeros on the left; zero is written "0".
pub open spec fn decimal_text(n: nat) -> Seq<char>
    decreases n,
{
    if n < 10 {
        seq![digit_char(n)]
    } else {
        decimal_text(n / 10).push(digit_char(n % 10))
    }
}

/// Writes a number in decimal without zeros on the left.
pub fn format_number(n: u64) -> (s: String)
    ensures
        s@ == decimal_text(n as nat),
    decreases n,
{
    if n < 10 {
        String::from_str(digit_text(n as u8))
    } else {
        let mut s = format_number(n / 10);
        s.append(digit_text((n % 10) as u8));
        assert(s@ =~= decimal_text(n as nat));
        s
    }
}

/// A digit string without the zeros it starts with. A string of zeros alone
/// becomes empty.
pub open spec fn without_leading_zeros(s: Seq<char>) -> Seq<char>
    decreases s.len(),
{
    if s.len() > 0 && s[0] == '0' {
        without_leading_zeros(s.subrange(1, s.len() as int))
    } else {
        s
    }
}

/// Drops the zeros that a text starts with.
pub fn trim_leading_zeros(text: &str) -> (s: String)
    ensures
        s@ == without_leading_zeros(text@),
{
    let total: usize = text.unicode_len();
    let mut i: usize = 0;
    assert(text@.subrange(0, total as int) =~= text@);
    while i < total && text.get_char(i) == '0'
        invariant
            i <= total,
            total == text@.len(),
            without_leading_zeros(text@) == without_leading_zeros(
                text@.subrange(i as int, total as int),
            ),
        decreases total - i,
    {
        let ghost here = text@.subrange(i as int, total as int);
        assert(here.subrange(1, here.len() as int) =~= text@.subrange(i + 1, total as int));
        i = i + 1;
    }
    String::from_str(text.substring_char(i, total))
}

/// Tells whether a text is an unsigned decimal number.
pub fn is_number(text: &str) -> (b: bool)
    ensures
        b == is_unsigned_text(text@),
{
    let total: usize = text.unicode_len();
    if total == 0 {
        return false;
    }
    let start: usize = if text.get_char(0) == '+' {
        1
    } else {
        0
    };
    if start == total {
        return false;
    }
    let body = text.substring_char(start, total);
    assert(body@ =~= unsigned_body(text@));
    only_digits(body)
}

} // verus!
