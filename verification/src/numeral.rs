//! Decimal numerals as the exchange and the operator write them: an
//! optional sign, digits, and an optional point followed by digits.

use vstd::prelude::*;
use vstd::string::StringSliceAdditionalSpecFns;
use crate::decimal::{Decimal, ATOMS_PER_UNIT, DECIMAL_PLACES};
use crate::level::{
    lemma_pow10_eight, lemma_pow10_increases, lemma_pow10_split, pow10, power_of_ten,
};

verus! {

/// The byte `+`.
pub const PLUS: u8 = 43;

/// The byte `-`.
pub const MINUS: u8 = 45;

/// The byte `.`.
pub const POINT: u8 = 46;

/// The byte `0`.
pub const ZERO: u8 = 48;

/// The byte `9`.
pub const NINE: u8 = 57;

/// The largest whole part of a decimal: `i64::MAX / 10^8`.
pub const WHOLE_MAX: i128 = 92_233_720_368;

/// Why a text is not the numeral of a decimal.
#[derive(Clone, Copy, Debug, PartialEq, Eq)]
pub enum ParseError {
    /// The text is not a numeral.
    Malformed,
    /// The numeral has more than eight fractional digits.
    TooPrecise,
    /// The number does not fit in a decimal.
    OutOfRange,
}

pub open spec fn is_digit(b: u8) -> bool {
    ZERO <= b <= NINE
}

pub open spec fn all_digits(s: Seq<u8>) -> bool {
    forall|i: int| 0 <= i < s.len() ==> is_digit(#[trigger] s[i])
}

/// The number that the digits `s` write in base ten.
pub open spec fn digits_value(s: Seq<u8>) -> nat
    decreases s.len(),
{
    if s.len() == 0 {
        0
    } else {
        10 * digits_value(s.drop_last()) + (s.last() - ZERO) as nat
    }
}

pub open spec fn has_sign(text: Seq<u8>) -> bool {
    text.len() > 0 && (text[0] == PLUS || text[0] == MINUS)
}

pub open spec fn is_negative(text: Seq<u8>) -> bool {
    text.len() > 0 && text[0] == MINUS
}

/// The text without its sign.
pub open spec fn unsigned_part(text: Seq<u8>) -> Seq<u8> {
    if has_sign(text) {
        text.skip(1)
    } else {
        text
    }
}

/// The number of bytes that stand before the first point of `body`; its
/// length where it holds no point.
pub open spec fn point_index(body: Seq<u8>) -> int
    decreases body.len(),
{
    if body.len() == 0 || body[0] == POINT {
        0
    } else {
        1 + point_index(body.skip(1))
    }
}

/// The bytes of a text of one-byte characters.
pub open spec fn ascii_bytes(text: Seq<char>) -> Seq<u8> {
    Seq::new(text.len(), |i: int| text[i] as u8)
}

/// The bytes before the first point.
pub open spec fn whole_part(text: Seq<u8>) -> Seq<u8> {
    let body = unsigned_part(text);
    body.take(point_index(body))
}

/// The bytes after the first point.
pub open spec fn fraction_part(text: Seq<u8>) -> Seq<u8> {
    let body = unsigned_part(text);
    if point_index(body) < body.len() {
        body.skip(point_index(body) + 1)
    } else {
        Seq::empty()
    }
}

/// Whether `text` is a numeral: an optional sign, then digits with at most
/// one point among them or at either end, and at least one digit.
pub open spec fn is_numeral(text: Seq<u8>) -> bool {
    &&& all_digits(whole_part(text))
    &&& all_digits(fraction_part(text))
    &&& whole_part(text).len() + fraction_part(text).len() > 0
}

/// The number that the numeral `text` writes, in decimal atoms. It is
/// meant for numerals of at most eight fractional digits.
pub open spec fn numeral_atoms(text: Seq<u8>) -> int {
    let fraction = fraction_part(text);
    let size = digits_value(whole_part(text)) * ATOMS_PER_UNIT + digits_value(fraction) * pow10(
        (DECIMAL_PLACES - fraction.len()) as nat,
    );
    if is_negative(text) {
        -size
    } else {
        size
    }
}

/// What reading `text` as a decimal gives.
pub open spec fn parsed(text: Seq<u8>) -> Result<Decimal, ParseError> {
    if !is_numeral(text) {
        Err(ParseError::Malformed)
    } else if fraction_part(text).len() > DECIMAL_PLACES {
        Err(ParseError::TooPrecise)
    } else if !(i64::MIN <= numeral_atoms(text) <= i64::MAX) {
        Err(ParseError::OutOfRange)
    } else {
        Ok(Decimal { atoms: numeral_atoms(text) as i64 })
    }
}

proof fn lemma_point_index_bounds(body: Seq<u8>)
    ensures
        0 <= point_index(body) <= body.len(),
        point_index(body) < body.len() ==> body[point_index(body)] == POINT,
        forall|j: int| 0 <= j < point_index(body) ==> #[trigger] body[j] != POINT,
    decreases body.len(),
{
    if body.len() == 0 || body[0] == POINT {
    } else {
        let rest = body.skip(1);
        lemma_point_index_bounds(rest);
        assert forall|j: int| 0 <= j < point_index(body) implies #[trigger] body[j] != POINT by {
            if j > 0 {
                assert(body[j] == rest[j - 1]);
            }
        }
    }
}

/// Where no point stands before `k`, the first point stands at `k` or
/// later.
proof fn lemma_point_index_at_least(body: Seq<u8>, k: int)
    requires
        0 <= k <= body.len(),
        forall|j: int| 0 <= j < k ==> #[trigger] body[j] != POINT,
    ensures
        point_index(body) >= k,
    decreases body.len(),
{
    if k > 0 {
        let rest = body.skip(1);
        assert(body[0] != POINT);
        assert forall|j: int| 0 <= j < k - 1 implies #[trigger] rest[j] != POINT by {
            assert(rest[j] == body[j + 1]);
        }
        lemma_point_index_at_least(rest, k - 1);
    } else {
        lemma_point_index_bounds(body);
    }
}

/// Where `k` is the place of the first point, or the length of a text
/// without one, `point_index` is `k`.
pub(crate) proof fn lemma_point_index_is(body: Seq<u8>, k: int)
    requires
        0 <= k <= body.len(),
        forall|j: int| 0 <= j < k ==> #[trigger] body[j] != POINT,
        k < body.len() ==> body[k] == POINT,
    ensures
        point_index(body) == k,
{
    lemma_point_index_at_least(body, k);
    lemma_point_index_bounds(body);
    if point_index(body) > k {
        assert(body[k] != POINT);
    }
}

/// Digits write a number below ten to the power of their count.
proof fn lemma_digits_value_bound(s: Seq<u8>)
    requires
        all_digits(s),
    ensures
        digits_value(s) < pow10(s.len()),
    decreases s.len(),
{
    if s.len() > 0 {
        let front = s.drop_last();
        assert forall|i: int| 0 <= i < front.len() implies is_digit(#[trigger] front[i]) by {
            assert(front[i] == s[i]);
        }
        lemma_digits_value_bound(front);
        assert(is_digit(s[s.len() - 1]));
    }
}

/// The value of a digit byte.
fn digit_of(b: u8) -> (d: i128)
    requires
        is_digit(b),
    ensures
        d == b - ZERO,
        0 <= d <= 9,
{
    (b - ZERO) as i128
}

/// Reads a decimal from the bytes of a numeral.
///
/// A numeral is an optional `+` or `-`, then digits with at most one point
/// among them; one digit at least, and no more than eight after the point.
pub fn parse_bytes(text: &[u8]) -> (r: Result<Decimal, ParseError>)
    ensures
        r == parsed(text@),
{
    let n: usize = text.len();
    let ghost body = unsigned_part(text@);
    let negative: bool = n > 0 && text[0] == MINUS;
    let start: usize = if n > 0 && (text[0] == PLUS || text[0] == MINUS) {
        1
    } else {
        0
    };
    assert(body == text@.skip(start as int));
    assert(body.len() == n - start);

    // The whole part: digits up to the first point.
    let mut i: usize = start;
    let mut whole: i128 = 0;
    let mut beyond: bool = false;
    while i < n && text[i] != POINT
        invariant
            start <= i <= n,
            n == text@.len(),
            body == unsigned_part(text@),
            body == text@.skip(start as int),
            forall|j: int| 0 <= j < i - start ==> #[trigger] body[j] != POINT,
            all_digits(body.take(i - start)),
            !beyond ==> whole == digits_value(body.take(i - start)) && 0 <= whole <= WHOLE_MAX,
            beyond ==> digits_value(body.take(i - start)) > WHOLE_MAX,
        decreases n - i,
    {
        let b: u8 = text[i];
        let ghost seen = body.take(i - start);
        let ghost more = body.take(i - start + 1);
        assert(body[i - start] == b);
        assert(more.drop_last() == seen);
        assert(more.last() == b);
        if !(ZERO <= b && b <= NINE) {
            proof {
                lemma_point_index_at_least(body, i - start + 1);
                lemma_point_index_bounds(body);
                assert(whole_part(text@)[i - start] == b);
                assert(!is_digit(whole_part(text@)[i - start]));
            }
            return Err(ParseError::Malformed);
        }
        assert forall|j: int| 0 <= j < more.len() implies is_digit(#[trigger] more[j]) by {
            if j < seen.len() {
                assert(more[j] == seen[j]);
            }
        }
        if !beyond {
            let next: i128 = whole * 10 + digit_of(b);
            if next > WHOLE_MAX {
                beyond = true;
            } else {
                whole = next;
            }
        }
        i = i + 1;
    }
    let point: usize = i;
    proof {
        lemma_point_index_is(body, point - start);
        assert(whole_part(text@) == body.take(point - start));
    }

    // The fraction: the digits after the point.
    let ghost fraction = fraction_part(text@);
    let mut places: usize = 0;
    let mut part: i128 = 0;
    if point < n {
        assert(fraction == body.skip(point - start + 1));
        assert(fraction.len() == n - point - 1);
        let mut j: usize = point + 1;
        while j < n
            invariant
                point < j <= n,
                n == text@.len(),
                start <= point,
                body == text@.skip(start as int),
                fraction == fraction_part(text@),
                fraction == body.skip(point - start + 1),
                places == j - point - 1,
                all_digits(fraction.take(places as int)),
                places <= DECIMAL_PLACES ==> part == digits_value(fraction.take(places as int)),
                0 <= part < ATOMS_PER_UNIT,
            decreases n - j,
        {
            let b: u8 = text[j];
            let ghost seen = fraction.take(places as int);
            let ghost more = fraction.take(places + 1);
            assert(fraction[places as int] == b);
            assert(more.drop_last() == seen);
            assert(more.last() == b);
            if !(ZERO <= b && b <= NINE) {
                assert(!is_digit(fraction[places as int]));
                return Err(ParseError::Malformed);
            }
            assert forall|k: int| 0 <= k < more.len() implies is_digit(#[trigger] more[k]) by {
                if k < seen.len() {
                    assert(more[k] == seen[k]);
                }
            }
            if places < DECIMAL_PLACES as usize {
                proof {
                    lemma_digits_value_bound(more);
                    lemma_pow10_increases(more.len(), DECIMAL_PLACES as nat);
                    lemma_pow10_eight();
                }
                part = part * 10 + digit_of(b);
            }
            places = places + 1;
            j = j + 1;
        }
        assert(fraction.take(places as int) == fraction);
    } else {
        assert(fraction.len() == 0);
        assert(fraction.take(0) == fraction);
    }
    if point - start + places == 0 {
        return Err(ParseError::Malformed);
    }
    if places > DECIMAL_PLACES as usize {
        return Err(ParseError::TooPrecise);
    }
    let scale: i128 = power_of_ten(DECIMAL_PLACES - places as u32);
    proof {
        lemma_digits_value_bound(fraction);
        lemma_pow10_eight();
        lemma_pow10_split(places as nat, (DECIMAL_PLACES - places) as nat);
        assert(0 <= part * scale < 100_000_000) by (nonlinear_arith)
            requires
                0 <= part < pow10(places as nat),
                scale == pow10((8 - places) as nat),
                pow10(places as nat) * pow10((8 - places) as nat) == 100_000_000,
                scale >= 1,
        ;
    }
    if beyond {
        return Err(ParseError::OutOfRange);
    }
    let size: i128 = whole * ATOMS_PER_UNIT as i128 + part * scale;
    let lowest: i128 = i64::MIN as i128;
    let highest: i128 = i64::MAX as i128;
    if negative {
        if -size < lowest {
            Err(ParseError::OutOfRange)
        } else {
            Ok(Decimal { atoms: (-size) as i64 })
        }
    } else {
        if size > highest {
            Err(ParseError::OutOfRange)
        } else {
            Ok(Decimal { atoms: size as i64 })
        }
    }
}

impl Decimal {
    /// Reads a decimal from a numeral, as [`parse_bytes`] does from its
    /// bytes.
    pub fn parse(text: &str) -> (r: Result<Decimal, ParseError>)
        ensures
            r == parsed(text.spec_bytes()),
            text.is_ascii() ==> r == parsed(ascii_bytes(text@)),
    {
        proof {
            if text.is_ascii() {
                vstd::string::is_ascii_spec_bytes(text);
                assert(text.spec_bytes() =~= ascii_bytes(text@));
            }
        }
        parse_bytes(text.as_bytes())
    }
}

} // verus!
