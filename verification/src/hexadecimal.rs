//! The hexadecimal notation: an optional `#`, then three or six hexadecimal
//! digits.

use vstd::prelude::*;
use vstd::string::*;
use crate::color::RGBValue;
use crate::error::ParseError;

verus! {

/// Whether `c` is one of `0`-`9`, `a`-`f`, `A`-`F`.
pub open spec fn is_hex_digit(c: char) -> bool {
    ('0' <= c <= '9') || ('a' <= c <= 'f') || ('A' <= c <= 'F')
}

/// The number that a hexadecimal digit stands for; 0 for any other character.
pub open spec fn hex_digit_value(c: char) -> int {
    if '0' <= c <= '9' {
        c as int - '0' as int
    } else if 'a' <= c <= 'f' {
        c as int - 'a' as int + 10
    } else if 'A' <= c <= 'F' {
        c as int - 'A' as int + 10
    } else {
        0
    }
}

/// Whether every character of `s` is a hexadecimal digit.
pub open spec fn all_hex(s: Seq<char>) -> bool {
    forall|i: int| 0 <= i < s.len() ==> is_hex_digit(#[trigger] s[i])
}

/// The byte written by the two digits `high` and `low`.
pub open spec fn pair_value(high: char, low: char) -> int {
    16 * hex_digit_value(high) + hex_digit_value(low)
}

/// The error of `hex::decode`, carried through unread.
#[verifier::external_type_specification]
#[verifier::external_body]
pub struct ExFromHexError(hex::FromHexError);

/// Calls `hex::decode`. It succeeds exactly on an even number of ASCII codes
/// of hexadecimal digits, and then each byte of the result is written by one
/// pair of digits, the high digit first.
#[verifier::external_body]
fn decode_pairs(digits: &[u8]) -> (r: Result<Vec<u8>, hex::FromHexError>)
    ensures
        r is Ok <==> (digits@.len() % 2 == 0 && forall|i: int|
            0 <= i < digits@.len() ==> is_hex_digit(#[trigger] digits@[i] as char)),
        r matches Ok(bytes) ==> bytes@.len() * 2 == digits@.len() && forall|k: int|
            0 <= k < bytes@.len() ==> (#[trigger] bytes@[k]) as int == pair_value(
                digits@[2 * k] as char,
                digits@[2 * k + 1] as char,
            ),
{
    hex::decode(digits)
}

/// `s` without one leading `#`, where it has one.
pub open spec fn strip_hash(s: Seq<char>) -> Seq<char> {
    if s.len() > 0 && s[0] == '#' {
        s.skip(1)
    } else {
        s
    }
}

/// `s` with each character written twice.
pub open spec fn doubled(s: Seq<char>) -> Seq<char> {
    Seq::new(2 * s.len(), |i: int| s[i / 2])
}

/// The six digits that `s` stands for: what follows the optional `#` where
/// that is six hexadecimal digits, or three, which are then doubled.
pub open spec fn six_digits(s: Seq<char>) -> Option<Seq<char>> {
    let body = strip_hash(s);
    if !all_hex(body) {
        None
    } else if body.len() == 6 {
        Some(body)
    } else if body.len() == 3 {
        Some(doubled(body))
    } else {
        None
    }
}

/// The colour written by six hexadecimal digits: red, green and blue, two
/// digits each.
pub open spec fn color_of_digits(d: Seq<char>) -> RGBValue {
    RGBValue {
        red: pair_value(d[0], d[1]) as u8,
        green: pair_value(d[2], d[3]) as u8,
        blue: pair_value(d[4], d[5]) as u8,
    }
}

/// The colour that `s` denotes in hexadecimal notation, if it denotes one.
pub open spec fn hex_color(s: Seq<char>) -> Option<RGBValue> {
    match six_digits(s) {
        Some(d) => Some(color_of_digits(d)),
        None => None,
    }
}

/// Reads a colour in hexadecimal notation: an optional `#`, then either six
/// hexadecimal digits or three, each of which then counts twice. Anything
/// else is `InvalidFormat`.
pub fn hex_valid(s: &str) -> (r: Result<RGBValue, ParseError>)
    ensures
        r == match hex_color(s@) {
            Some(c) => Ok::<RGBValue, ParseError>(c),
            None => Err(ParseError::InvalidFormat),
        },
{
    broadcast use is_ascii_spec_bytes;

    if !s.is_ascii() {
        proof {
            let i = choose|i: int| 0 <= i < s@.len() && !('\0' <= #[trigger] s@[i] <= '\u{7f}');
            if s@[0] == '#' {
                assert(strip_hash(s@)[i - 1] == s@[i]);
            }
        }
        return Err(ParseError::InvalidFormat);
    }
    let bytes = s.as_bytes();
    let start: usize = if bytes.len() > 0 && bytes[0] == 0x23 { 1 } else { 0 };
    let count: usize = bytes.len() - start;
    let ghost body = strip_hash(s@);
    assert(body.len() == count);
    assert(forall|i: int| 0 <= i < count ==> bytes@[start + i] as char == #[trigger] body[i]);
    if count != 3 && count != 6 {
        return Err(ParseError::InvalidFormat);
    }
    let mut digits: Vec<u8> = Vec::new();
    let mut i: usize = 0;
    while i < 6
        invariant
            i <= 6,
            count == 3 || count == 6,
            start <= 1,
            start + count == bytes@.len(),
            digits@.len() == i,
            forall|j: int|
                0 <= j < i ==> #[trigger] digits@[j] == bytes@[start + (if count == 3 {
                    j / 2
                } else {
                    j
                })],
        decreases 6 - i,
    {
        let offset: usize = if count == 3 { i / 2 } else { i };
        digits.push(bytes[start + offset]);
        i += 1;
    }
    let ghost six = if count == 3 { doubled(body) } else { body };
    assert(forall|j: int| 0 <= j < 6 ==> #[trigger] digits@[j] as char == six[j]);
    assert(all_hex(body) <==> all_hex(six)) by {
        if all_hex(six) && count == 3 {
            assert forall|j: int| 0 <= j < 3 implies is_hex_digit(#[trigger] body[j]) by {
                assert(six[2 * j] == body[j]);
            }
        }
    }
    match decode_pairs(digits.as_slice()) {
        Ok(v) => {
            assert(all_hex(six)) by {
                assert forall|j: int| 0 <= j < 6 implies is_hex_digit(#[trigger] six[j]) by {
                    assert(is_hex_digit(digits@[j] as char));
                }
            }
            assert(v@[0] as int == pair_value(six[0], six[1]));
            assert(v@[1] as int == pair_value(six[2], six[3]));
            assert(v@[2] as int == pair_value(six[4], six[5]));
            Ok(RGBValue { red: v[0], green: v[1], blue: v[2] })
        },
        Err(_) => {
            assert(!all_hex(six)) by {
                if all_hex(six) {
                    assert forall|j: int| 0 <= j < 6 implies is_hex_digit(
                        #[trigger] digits@[j] as char,
                    ) by {
                        assert(is_hex_digit(six[j]));
                    }
                }
            }
            Err(ParseError::InvalidFormat)
        },
    }
}

/// Two hexadecimal digits write a number from 0 to 255.
pub proof fn lemma_pair_is_byte(high: char, low: char)
    ensures
        0 <= pair_value(high, low) <= 255,
{
}

/// Six hexadecimal digits, with or without a `#` before them, denote the
/// colour whose components are the three pairs of digits, taken in order.
pub proof fn lemma_six_digits_in_pairs(s: Seq<char>)
    requires
        strip_hash(s).len() == 6,
        all_hex(strip_hash(s)),
    ensures
        hex_color(s) matches Some(c) && {
            let d = strip_hash(s);
            &&& c.red as int == pair_value(d[0], d[1])
            &&& c.green as int == pair_value(d[2], d[3])
            &&& c.blue as int == pair_value(d[4], d[5])
        },
{
    let d = strip_hash(s);
    lemma_pair_is_byte(d[0], d[1]);
    lemma_pair_is_byte(d[2], d[3]);
    lemma_pair_is_byte(d[4], d[5]);
}

/// Three hexadecimal digits denote the same colour as the six digits in which
/// each of them is written twice, with a `#` before them as without.
pub proof fn lemma_short_form_doubles(s: Seq<char>)
    requires
        s.len() == 3,
        all_hex(s),
    ensures
        hex_color(s) matches Some(c) && {
            &&& c.red as int == pair_value(s[0], s[0])
            &&& c.green as int == pair_value(s[1], s[1])
            &&& c.blue as int == pair_value(s[2], s[2])
        },
        hex_color(s) == hex_color(doubled(s)),
        hex_color(seq!['#'] + s) == hex_color(s),
        hex_color(seq!['#'] + doubled(s)) == hex_color(s),
{
    let d = doubled(s);
    assert(all_hex(d)) by {
        assert forall|i: int| 0 <= i < d.len() implies is_hex_digit(#[trigger] d[i]) by {
            assert(is_hex_digit(s[i / 2]));
        }
    }
    assert(is_hex_digit(s[0]));
    assert(is_hex_digit(d[0]));
    assert(strip_hash(s) == s);
    assert(strip_hash(d) == d);
    assert(strip_hash(seq!['#'] + s) =~= s);
    assert(strip_hash(seq!['#'] + d) =~= d);
    lemma_pair_is_byte(s[0], s[0]);
    lemma_pair_is_byte(s[1], s[1]);
    lemma_pair_is_byte(s[2], s[2]);
}

} // verus!
