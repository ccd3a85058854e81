//! Writing numbers as numerals: a sign where the number is negative, the
//! whole part without leading zeros, a point, and every fractional digit
//! that the type holds.

use vstd::prelude::*;
use vstd::string::StringExecFns;
use crate::decimal::{Decimal, DECIMAL_PLACES};
use crate::level::{
    lemma_pow10_eight, lemma_pow10_positive, magnitude, pow10, power_of_ten, Level, LEVEL_PLACES,
};
use crate::numeral::{
    all_digits, ascii_bytes, digits_value, fraction_part, has_sign, is_digit, is_negative,
    is_numeral, lemma_point_index_is, numeral_atoms, parsed, unsigned_part, whole_part,
    ParseError, MINUS, POINT, ZERO,
};

verus! {

/// The character that writes the digit `d`.
pub open spec fn digit_char(d: int) -> char {
    ('0' as int + d) as char
}

/// The digits of `n`, the highest first, without leading zeros; a single
/// zero for zero.
pub open spec fn decimal_digits(n: nat) -> Seq<char>
    decreases n,
{
    if n < 10 {
        seq![digit_char(n as int)]
    } else {
        decimal_digits(n / 10).push(digit_char((n % 10) as int))
    }
}

/// The lowest `width` digits of `n`, the highest first, with leading zeros.
pub open spec fn fixed_digits(n: nat, width: nat) -> Seq<char>
    decreases width,
{
    if width == 0 {
        Seq::empty()
    } else {
        fixed_digits(n / 10, (width - 1) as nat).push(digit_char((n % 10) as int))
    }
}

/// The numeral of the number `atoms / 10^places`.
pub open spec fn numeral_text(atoms: int, places: nat) -> Seq<char> {
    let size = magnitude(atoms);
    let unit = pow10(places) as int;
    let sign = if atoms < 0 {
        seq!['-']
    } else {
        Seq::empty()
    };
    sign + decimal_digits((size / unit) as nat) + seq!['.'] + fixed_digits(
        (size % unit) as nat,
        places,
    )
}

/// The numeral of one digit.
fn digit_text(d: u128) -> (text: &'static str)
    requires
        d < 10,
    ensures
        text@ == seq![digit_char(d as int)],
{
    proof {
        reveal_strlit("0");
        reveal_strlit("1");
        reveal_strlit("2");
        reveal_strlit("3");
        reveal_strlit("4");
        reveal_strlit("5");
        reveal_strlit("6");
        reveal_strlit("7");
        reveal_strlit("8");
        reveal_strlit("9");
    }
    let text: &'static str = match d {
        0 => "0",
        1 => "1",
        2 => "2",
        3 => "3",
        4 => "4",
        5 => "5",
        6 => "6",
        7 => "7",
        8 => "8",
        _ => "9",
    };
    assert(text@ =~= seq![digit_char(d as int)]);
    text
}

/// Appends the digits of `n` to `out`.
fn push_decimal_digits(out: &mut String, n: u128)
    ensures
        final(out)@ == old(out)@ + decimal_digits(n as nat),
    decreases n,
{
    if n >= 10 {
        push_decimal_digits(out, n / 10);
    }
    out.append(digit_text(n % 10));
    assert(out@ =~= old(out)@ + decimal_digits(n as nat));
}

/// Appends the lowest `width` digits of `n` to `out`.
fn push_fixed_digits(out: &mut String, n: u128, width: u32)
    ensures
        final(out)@ == old(out)@ + fixed_digits(n as nat, width as nat),
    decreases width,
{
    if width > 0 {
        push_fixed_digits(out, n / 10, width - 1);
        out.append(digit_text(n % 10));
    }
    assert(out@ =~= old(out)@ + fixed_digits(n as nat, width as nat));
}

/// The numeral of `atoms / 10^places`.
fn numeral_of(atoms: i128, places: u32) -> (text: String)
    requires
        places <= LEVEL_PLACES,
    ensures
        text@ == numeral_text(atoms as int, places as nat),
        vstd::utf8::is_ascii_chars(text@),
{
    proof {
        lemma_numeral_text_is_ascii(atoms as int, places as nat);
    }
    let size: u128 = if atoms >= 0 {
        atoms as u128
    } else {
        (-(atoms + 1)) as u128 + 1
    };
    let unit: u128 = power_of_ten(places) as u128;
    let mut text: String = String::new();
    if atoms < 0 {
        proof {
            reveal_strlit("-");
        }
        text.append("-");
    }
    let ghost signed = text@;
    push_decimal_digits(&mut text, size / unit);
    proof {
        reveal_strlit(".");
    }
    text.append(".");
    push_fixed_digits(&mut text, size % unit, places);
    proof {
        assert(signed =~= if atoms < 0 {
            seq!['-']
        } else {
            Seq::<char>::empty()
        });
        assert("."@ =~= seq!['.']);
    }
    text
}

impl Decimal {
    /// The numeral of this decimal, with eight fractional digits.
    pub fn to_text(&self) -> (text: String)
        ensures
            text@ == numeral_text(self@, DECIMAL_PLACES as nat),
            vstd::utf8::is_ascii_chars(text@),
    {
        numeral_of(self.atoms as i128, DECIMAL_PLACES)
    }
}

impl Level {
    /// The numeral of this level, with eighteen fractional digits.
    pub fn to_text(&self) -> (text: String)
        ensures
            text@ == numeral_text(self@, LEVEL_PLACES as nat),
            vstd::utf8::is_ascii_chars(text@),
    {
        numeral_of(self.atoms, LEVEL_PLACES)
    }
}

/// A numeral holds one-byte characters only.
pub proof fn lemma_numeral_text_is_ascii(atoms: int, places: nat)
    ensures
        vstd::utf8::is_ascii_chars(numeral_text(atoms, places)),
{
    let size = magnitude(atoms);
    let unit = pow10(places) as int;
    let whole = decimal_digits((size / unit) as nat);
    let fraction = fixed_digits((size % unit) as nat, places);
    lemma_decimal_digits_are_ascii((size / unit) as nat);
    lemma_fixed_digits_are_ascii((size % unit) as nat, places);
    let text = numeral_text(atoms, places);
    let sign_len: int = if atoms < 0 {
        1
    } else {
        0
    };
    assert forall|i: int| 0 <= i < text.len() implies '\0' <= #[trigger] text[i] <= '\u{7f}' by {
        if i < sign_len {
        } else if i < sign_len + whole.len() {
            assert(text[i] == whole[i - sign_len]);
        } else if i == sign_len + whole.len() {
        } else {
            assert(text[i] == fraction[i - sign_len - whole.len() - 1]);
        }
    }
}

proof fn lemma_decimal_digits_are_ascii(n: nat)
    ensures
        vstd::utf8::is_ascii_chars(decimal_digits(n)),
    decreases n,
{
    if n >= 10 {
        lemma_decimal_digits_are_ascii(n / 10);
    }
}

proof fn lemma_fixed_digits_are_ascii(n: nat, width: nat)
    ensures
        vstd::utf8::is_ascii_chars(fixed_digits(n, width)),
    decreases width,
{
    if width > 0 {
        lemma_fixed_digits_are_ascii(n / 10, (width - 1) as nat);
    }
}

/// The digits of a number are digits, and they write that number.
proof fn lemma_decimal_digits_read_back(n: nat)
    ensures
        decimal_digits(n).len() >= 1,
        all_digits(ascii_bytes(decimal_digits(n))),
        digits_value(ascii_bytes(decimal_digits(n))) == n,
    decreases n,
{
    let text = decimal_digits(n);
    let bytes = ascii_bytes(text);
    if n < 10 {
        assert(bytes.len() == 1);
        assert(bytes[0] == ZERO + n);
        assert(bytes.drop_last().len() == 0);
        assert(digits_value(bytes.drop_last()) == 0);
    } else {
        let front = decimal_digits(n / 10);
        lemma_decimal_digits_read_back(n / 10);
        assert(bytes.drop_last() =~= ascii_bytes(front));
        assert(bytes.last() == ZERO + n % 10);
        assert forall|i: int| 0 <= i < bytes.len() implies is_digit(#[trigger] bytes[i]) by {
            if i < front.len() {
                assert(bytes[i] == ascii_bytes(front)[i]);
            }
        }
    }
}

/// Digits of a fixed width are digits, and they write the number as far as
/// the width reaches.
proof fn lemma_fixed_digits_read_back(n: nat, width: nat)
    ensures
        fixed_digits(n, width).len() == width,
        all_digits(ascii_bytes(fixed_digits(n, width))),
        digits_value(ascii_bytes(fixed_digits(n, width))) == n % pow10(width),
    decreases width,
{
    let text = fixed_digits(n, width);
    let bytes = ascii_bytes(text);
    if width == 0 {
        assert(bytes.len() == 0);
        assert(pow10(0) == 1);
    } else {
        let front = fixed_digits(n / 10, (width - 1) as nat);
        lemma_fixed_digits_read_back(n / 10, (width - 1) as nat);
        assert(bytes.drop_last() =~= ascii_bytes(front));
        assert(bytes.last() == ZERO + n % 10);
        assert forall|i: int| 0 <= i < bytes.len() implies is_digit(#[trigger] bytes[i]) by {
            if i < front.len() {
                assert(bytes[i] == ascii_bytes(front)[i]);
            }
        }
        let rest = pow10((width - 1) as nat) as int;
        lemma_pow10_positive((width - 1) as nat);
        vstd::arithmetic::div_mod::lemma_mod_breakdown(n as int, 10, rest);
        assert(pow10(width) == 10 * rest);
    }
}

/// Reading back: the numeral that is written for a decimal is read as that
/// decimal.
pub proof fn lemma_text_reads_back(d: Decimal)
    ensures
        parsed(ascii_bytes(numeral_text(d@, DECIMAL_PLACES as nat))) == Ok::<Decimal, ParseError>(
            d,
        ),
{
    let atoms = d@;
    let size = magnitude(atoms);
    let unit = pow10(8) as int;
    lemma_pow10_eight();
    let whole_text = decimal_digits((size / unit) as nat);
    let fraction_text = fixed_digits((size % unit) as nat, 8);
    let text = numeral_text(atoms, 8);
    let bytes = ascii_bytes(text);
    let whole = ascii_bytes(whole_text);
    let fraction = ascii_bytes(fraction_text);
    lemma_decimal_digits_read_back((size / unit) as nat);
    lemma_fixed_digits_read_back((size % unit) as nat, 8);
    let tail = whole + seq![POINT] + fraction;
    assert(is_digit(whole[0]));
    if atoms < 0 {
        assert(text =~= seq!['-'] + whole_text + seq!['.'] + fraction_text);
        assert(bytes =~= seq![MINUS] + tail);
        assert(bytes[0] == MINUS);
        assert(unsigned_part(bytes) =~= tail);
    } else {
        assert(text =~= whole_text + seq!['.'] + fraction_text);
        assert(bytes =~= tail);
        assert(bytes[0] == whole[0]);
        assert(!has_sign(bytes));
        assert(!is_negative(bytes));
    }
    let body = unsigned_part(bytes);
    assert(body == tail);
    assert forall|j: int| 0 <= j < whole.len() implies #[trigger] body[j] != POINT by {
        assert(body[j] == whole[j]);
        assert(is_digit(whole[j]));
    }
    assert(body[whole.len() as int] == POINT);
    lemma_point_index_is(body, whole.len() as int);
    assert(whole_part(bytes) =~= whole);
    assert(fraction_part(bytes) =~= fraction);
    assert(is_numeral(bytes));
    assert(pow10(0) == 1);
    assert((size % unit) % unit == size % unit) by {
        vstd::arithmetic::div_mod::lemma_mod_twice(size, unit);
    }
    assert((size / unit) * unit + size % unit == size) by {
        vstd::arithmetic::div_mod::lemma_fundamental_div_mod(size, unit);
        vstd::arithmetic::mul::lemma_mul_is_commutative(size / unit, unit);
    }
    assert(digits_value(whole_part(bytes)) == size / unit);
    assert(digits_value(fraction_part(bytes)) == size % unit);
    assert(fraction_part(bytes).len() == 8);
    assert(digits_value(fraction_part(bytes)) * pow10(0) == size % unit) by (nonlinear_arith)
        requires
            digits_value(fraction_part(bytes)) == size % unit,
            pow10(0) == 1,
    ;
    assert(numeral_atoms(bytes) == atoms);
}

} // verus!
