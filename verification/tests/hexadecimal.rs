use color_namer::color::RGBValue;
use color_namer::error::ParseError;
use color_namer::hexadecimal::hex_valid;

fn rgb(red: u8, green: u8, blue: u8) -> RGBValue {
    RGBValue { red, green, blue }
}

#[test]
fn hex_with_hash_is_read_in_pairs() {
    assert_eq!(hex_valid("#ff0080"), Ok(rgb(255, 0, 128)));
}

#[test]
fn hex_without_hash_is_read_in_pairs() {
    assert_eq!(hex_valid("ff0080"), Ok(rgb(255, 0, 128)));
    assert_eq!(hex_valid("000000"), Ok(rgb(0, 0, 0)));
    assert_eq!(hex_valid("0a141e"), Ok(rgb(10, 20, 30)));
}

#[test]
fn hex_digits_of_either_case() {
    assert_eq!(hex_valid("FF0080"), Ok(rgb(255, 0, 128)));
    assert_eq!(hex_valid("#AbCdEf"), Ok(rgb(0xab, 0xcd, 0xef)));
    assert_eq!(hex_valid("#abcdef"), hex_valid("#ABCDEF"));
}

#[test]
fn hex_short_form_doubles_each_digit() {
    assert_eq!(hex_valid("f0a"), Ok(rgb(0xff, 0x00, 0xaa)));
    assert_eq!(hex_valid("f0a"), hex_valid("ff00aa"));
    assert_eq!(hex_valid("#f0a"), hex_valid("#ff00aa"));
    assert_eq!(hex_valid("#123"), Ok(rgb(0x11, 0x22, 0x33)));
}

#[test]
fn hex_every_short_form_equals_its_long_form() {
    let digits: Vec<char> = "0123456789abcdefABCDEF".chars().collect();
    for &a in &digits {
        for &b in &digits {
            for &c in &digits {
                let short = format!("{}{}{}", a, b, c);
                let long = format!("{}{}{}{}{}{}", a, a, b, b, c, c);
                let value = |d: char| d.to_digit(16).unwrap() as u8;
                let expected = rgb(17 * value(a), 17 * value(b), 17 * value(c));
                assert_eq!(hex_valid(&short), Ok(expected));
                assert_eq!(hex_valid(&long), Ok(expected));
                assert_eq!(hex_valid(&format!("#{}", short)), Ok(expected));
            }
        }
    }
}

#[test]
fn hex_six_digits_give_back_the_bytes_written() {
    let samples: [u8; 9] = [0, 1, 9, 10, 15, 16, 127, 128, 255];
    for &r in &samples {
        for &g in &samples {
            for &b in &samples {
                let lower = format!("{:02x}{:02x}{:02x}", r, g, b);
                let upper = format!("#{:02X}{:02X}{:02X}", r, g, b);
                assert_eq!(hex_valid(&lower), Ok(rgb(r, g, b)));
                assert_eq!(hex_valid(&upper), Ok(rgb(r, g, b)));
            }
        }
    }
}

#[test]
fn hex_rejects_what_is_no_digit() {
    assert_eq!(hex_valid("xyz"), Err(ParseError::InvalidFormat));
    assert_eq!(hex_valid("ff008g"), Err(ParseError::InvalidFormat));
    assert_eq!(hex_valid("#ff 080"), Err(ParseError::InvalidFormat));
    assert_eq!(hex_valid(" ff0080"), Err(ParseError::InvalidFormat));
    assert_eq!(hex_valid("ff0080 "), Err(ParseError::InvalidFormat));
    assert_eq!(hex_valid("0xff00"), Err(ParseError::InvalidFormat));
    assert_eq!(hex_valid("+f0080"), Err(ParseError::InvalidFormat));
}

#[test]
fn hex_rejects_other_lengths() {
    assert_eq!(hex_valid("ff00"), Err(ParseError::InvalidFormat));
    assert_eq!(hex_valid(""), Err(ParseError::InvalidFormat));
    assert_eq!(hex_valid("#"), Err(ParseError::InvalidFormat));
    assert_eq!(hex_valid("f"), Err(ParseError::InvalidFormat));
    assert_eq!(hex_valid("ff"), Err(ParseError::InvalidFormat));
    assert_eq!(hex_valid("ff008"), Err(ParseError::InvalidFormat));
    assert_eq!(hex_valid("ff00800"), Err(ParseError::InvalidFormat));
    assert_eq!(hex_valid("#ff00800"), Err(ParseError::InvalidFormat));
    assert_eq!(hex_valid("ff0080ff0080"), Err(ParseError::InvalidFormat));
}

#[test]
fn hex_strips_one_hash_only() {
    assert_eq!(hex_valid("##fff"), Err(ParseError::InvalidFormat));
    assert_eq!(hex_valid("##ffffff"), Err(ParseError::InvalidFormat));
    assert_eq!(hex_valid("fff#"), Err(ParseError::InvalidFormat));
    assert_eq!(hex_valid("#ff#"), Err(ParseError::InvalidFormat));
}

#[test]
fn hex_rejects_text_beyond_ascii() {
    assert_eq!(hex_valid("ffé"), Err(ParseError::InvalidFormat));
    assert_eq!(hex_valid("é"), Err(ParseError::InvalidFormat));
    assert_eq!(hex_valid("#ffffé"), Err(ParseError::InvalidFormat));
    assert_eq!(hex_valid("ｆｆｆ"), Err(ParseError::InvalidFormat));
    assert_eq!(hex_valid("\u{ff11}\u{ff12}\u{ff13}"), Err(ParseError::InvalidFormat));
}
