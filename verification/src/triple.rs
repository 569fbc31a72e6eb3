//! The notation `rgb(<r>,<g>,<b>)`: three decimal components between the
//! brackets, separated by commas, with optional white space around each.

use vstd::prelude::*;
use vstd::slice::*;
use crate::color::RGBValue;
use crate::decimal::{
    all_decimal, byte_of_text, decimal_text, lemma_text_reads_back, parse_byte,
};
use crate::error::ParseError;
use crate::text::{
    fields, free_of, joined, lemma_fields_of_joined, lemma_trimmed_keeps, split, to_chars, trim,
    trimmed, views,
};

verus! {

/// Whether `s` starts with `rgb(` and ends with a `)` behind that.
pub open spec fn is_framed(s: Seq<char>) -> bool {
    &&& s.len() >= 5
    &&& s[0] == 'r'
    &&& s[1] == 'g'
    &&& s[2] == 'b'
    &&& s[3] == '('
    &&& s.last() == ')'
}

/// What stands between `rgb(` and the closing `)`.
pub open spec fn interior(s: Seq<char>) -> Seq<char> {
    s.subrange(4, s.len() - 1)
}

/// The component that one field writes, once the white space around it is
/// taken away.
pub open spec fn component(field: Seq<char>) -> Option<u8> {
    byte_of_text(trimmed(field))
}

/// What `s` denotes in the notation `rgb(<r>,<g>,<b>)`. The text must be
/// framed and hold at least three fields between its commas, else its format
/// is invalid. The first three fields must each write a number from 0 to 255,
/// else a number is invalid. Fields after the third are not looked at.
pub open spec fn rgb_color(s: Seq<char>) -> Result<RGBValue, ParseError> {
    if !is_framed(s) {
        Err(ParseError::InvalidFormat)
    } else {
        let parts = fields(interior(s), ',');
        if parts.len() < 3 {
            Err(ParseError::InvalidFormat)
        } else {
            match (component(parts[0]), component(parts[1]), component(parts[2])) {
                (Some(red), Some(green), Some(blue)) => Ok(RGBValue { red, green, blue }),
                _ => Err(ParseError::InvalidNumber),
            }
        }
    }
}

/// Reads a colour in the notation `rgb(<r>,<g>,<b>)`.
pub fn rgb_valid(s: &str) -> (r: Result<RGBValue, ParseError>)
    ensures
        r == rgb_color(s@),
{
    let chars = to_chars(s);
    let n: usize = chars.len();
    if n < 5 || chars[0] != 'r' || chars[1] != 'g' || chars[2] != 'b' || chars[3] != '('
        || chars[n - 1] != ')' {
        return Err(ParseError::InvalidFormat);
    }
    let inner = slice_subrange(chars.as_slice(), 4, n - 1);
    let parts = split(inner, ',');
    assert(views(parts@).len() == parts@.len());
    if parts.len() < 3 {
        return Err(ParseError::InvalidFormat);
    }
    assert(views(parts@)[0] == parts@[0]@);
    assert(views(parts@)[1] == parts@[1]@);
    assert(views(parts@)[2] == parts@[2]@);
    let red = parse_byte(trim(parts[0]));
    let green = parse_byte(trim(parts[1]));
    let blue = parse_byte(trim(parts[2]));
    match (red, green, blue) {
        (Some(red), Some(green), Some(blue)) => Ok(RGBValue { red, green, blue }),
        _ => Err(ParseError::InvalidNumber),
    }
}

/// The components of `color` in decimal notation, separated by commas.
pub open spec fn components_text(color: RGBValue) -> Seq<char> {
    decimal_text(color.red as nat) + seq![','] + decimal_text(color.green as nat) + seq![',']
        + decimal_text(color.blue as nat)
}

/// `color` written in the notation `rgb(<r>,<g>,<b>)`.
pub open spec fn rgb_text(color: RGBValue) -> Seq<char> {
    seq!['r', 'g', 'b', '('] + components_text(color) + seq![')']
}

/// A colour written in the notation `rgb(<r>,<g>,<b>)`, its components in
/// decimal, is read back as the same colour.
pub proof fn lemma_written_color_reads_back(color: RGBValue)
    ensures
        rgb_color(rgb_text(color)) == Ok::<RGBValue, ParseError>(color),
{
    let red = decimal_text(color.red as nat);
    let green = decimal_text(color.green as nat);
    let blue = decimal_text(color.blue as nat);
    let parts = seq![red, green, blue];
    let s = rgb_text(color);
    lemma_text_reads_back(color.red as nat);
    lemma_text_reads_back(color.green as nat);
    lemma_text_reads_back(color.blue as nat);
    assert forall|k: int| 0 <= k < parts.len() implies free_of(#[trigger] parts[k], ',') by {
        assert(all_decimal(parts[k]));
    }
    assert(joined(parts, ',') =~= components_text(color)) by {
        reveal_with_fuel(joined, 3);
        assert(parts.skip(1) =~= seq![green, blue]);
        assert(parts.skip(1).skip(1) =~= seq![blue]);
    }
    assert(interior(s) =~= components_text(color));
    lemma_fields_of_joined(parts, ',');
    assert forall|k: int| 0 <= k < parts.len() implies trimmed(#[trigger] parts[k])
        == parts[k] by {
        assert(all_decimal(parts[k]));
        lemma_trimmed_keeps(parts[k]);
    }
    assert(trimmed(parts[0]) == red);
    assert(trimmed(parts[1]) == green);
    assert(trimmed(parts[2]) == blue);
}

} // verus!
