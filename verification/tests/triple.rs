use color_namer::color::RGBValue;
use color_namer::error::ParseError;
use color_namer::triple::rgb_valid;

fn rgb(red: u8, green: u8, blue: u8) -> RGBValue {
    RGBValue { red, green, blue }
}

#[test]
fn rgb_with_spaces_after_commas() {
    assert_eq!(rgb_valid("rgb(10, 20, 30)"), Ok(rgb(10, 20, 30)));
}

#[test]
fn rgb_without_spaces() {
    assert_eq!(rgb_valid("rgb(255,128,0)"), Ok(rgb(255, 128, 0)));
    assert_eq!(rgb_valid("rgb(0,0,0)"), Ok(rgb(0, 0, 0)));
    assert_eq!(rgb_valid("rgb(255,255,255)"), Ok(rgb(255, 255, 255)));
}

#[test]
fn rgb_with_two_fields_is_no_triple() {
    assert_eq!(rgb_valid("rgb(10,20)"), Err(ParseError::InvalidFormat));
    assert_eq!(rgb_valid("rgb(10)"), Err(ParseError::InvalidFormat));
    assert_eq!(rgb_valid("rgb()"), Err(ParseError::InvalidFormat));
    assert_eq!(rgb_valid("rgb(x,y)"), Err(ParseError::InvalidFormat));
}

#[test]
fn rgb_component_over_255_is_no_number() {
    assert_eq!(rgb_valid("rgb(10,20,300)"), Err(ParseError::InvalidNumber));
    assert_eq!(rgb_valid("rgb(256,0,0)"), Err(ParseError::InvalidNumber));
    assert_eq!(rgb_valid("rgb(0,1000,0)"), Err(ParseError::InvalidNumber));
    assert_eq!(
        rgb_valid("rgb(0,0,99999999999999999999999999)"),
        Err(ParseError::InvalidNumber)
    );
}

#[test]
fn rgb_needs_its_frame() {
    assert_eq!(rgb_valid("10,20,30"), Err(ParseError::InvalidFormat));
    assert_eq!(rgb_valid("(10,20,30)"), Err(ParseError::InvalidFormat));
    assert_eq!(rgb_valid("rgb(10,20,30"), Err(ParseError::InvalidFormat));
    assert_eq!(rgb_valid("rgb 10,20,30)"), Err(ParseError::InvalidFormat));
    assert_eq!(rgb_valid("RGB(10,20,30)"), Err(ParseError::InvalidFormat));
    assert_eq!(rgb_valid(" rgb(10,20,30)"), Err(ParseError::InvalidFormat));
    assert_eq!(rgb_valid("rgb(10,20,30) "), Err(ParseError::InvalidFormat));
    assert_eq!(rgb_valid("rgba(10,20,30)"), Err(ParseError::InvalidFormat));
    assert_eq!(rgb_valid(""), Err(ParseError::InvalidFormat));
    assert_eq!(rgb_valid("rgb"), Err(ParseError::InvalidFormat));
    assert_eq!(rgb_valid("rgb("), Err(ParseError::InvalidFormat));
    assert_eq!(rgb_valid(")"), Err(ParseError::InvalidFormat));
}

#[test]
fn rgb_format_is_judged_before_numbers() {
    assert_eq!(rgb_valid("rgb(300,x)"), Err(ParseError::InvalidFormat));
    assert_eq!(rgb_valid("rgb(300,x,1"), Err(ParseError::InvalidFormat));
}

#[test]
fn rgb_ignores_fields_after_the_third() {
    assert_eq!(rgb_valid("rgb(1,2,3,4)"), Ok(rgb(1, 2, 3)));
    assert_eq!(rgb_valid("rgb(1,2,3,)"), Ok(rgb(1, 2, 3)));
    assert_eq!(rgb_valid("rgb(1,2,3,not a number,é)"), Ok(rgb(1, 2, 3)));
    assert_eq!(rgb_valid("rgb(1,2,3,999)"), Ok(rgb(1, 2, 3)));
}

#[test]
fn rgb_trims_white_space_around_each_component() {
    assert_eq!(rgb_valid("rgb( 1 ,\t2\t,\n3\r\n)"), Ok(rgb(1, 2, 3)));
    assert_eq!(rgb_valid("rgb(   7,8   ,   9   )"), Ok(rgb(7, 8, 9)));
    assert_eq!(rgb_valid("rgb(\u{a0}1\u{2003},\u{3000}2,3\u{85})"), Ok(rgb(1, 2, 3)));
}

#[test]
fn rgb_white_space_inside_a_number_is_no_number() {
    assert_eq!(rgb_valid("rgb(1 0,20,30)"), Err(ParseError::InvalidNumber));
    assert_eq!(rgb_valid("rgb(10,2\t0,30)"), Err(ParseError::InvalidNumber));
}

#[test]
fn rgb_empty_or_blank_component_is_no_number() {
    assert_eq!(rgb_valid("rgb(,,)"), Err(ParseError::InvalidNumber));
    assert_eq!(rgb_valid("rgb(1,,3)"), Err(ParseError::InvalidNumber));
    assert_eq!(rgb_valid("rgb(1,2,)"), Err(ParseError::InvalidNumber));
    assert_eq!(rgb_valid("rgb(1, ,3)"), Err(ParseError::InvalidNumber));
}

#[test]
fn rgb_component_that_is_no_integer() {
    assert_eq!(rgb_valid("rgb(a,b,c)"), Err(ParseError::InvalidNumber));
    assert_eq!(rgb_valid("rgb(1.5,2,3)"), Err(ParseError::InvalidNumber));
    assert_eq!(rgb_valid("rgb(-1,2,3)"), Err(ParseError::InvalidNumber));
    assert_eq!(rgb_valid("rgb(-0,2,3)"), Err(ParseError::InvalidNumber));
    assert_eq!(rgb_valid("rgb(0x10,2,3)"), Err(ParseError::InvalidNumber));
    assert_eq!(rgb_valid("rgb(1_0,2,3)"), Err(ParseError::InvalidNumber));
    assert_eq!(rgb_valid("rgb(1,2,3%)"), Err(ParseError::InvalidNumber));
    assert_eq!(rgb_valid("rgb(1,2,\u{661})"), Err(ParseError::InvalidNumber));
    assert_eq!(rgb_valid("rgb(+,2,3)"), Err(ParseError::InvalidNumber));
    assert_eq!(rgb_valid("rgb(++1,2,3)"), Err(ParseError::InvalidNumber));
}

#[test]
fn rgb_accepts_a_plus_sign_and_leading_zeros() {
    assert_eq!(rgb_valid("rgb(+1,002,0000000000000000000000003)"), Ok(rgb(1, 2, 3)));
    assert_eq!(rgb_valid("rgb(+255,+0,00)"), Ok(rgb(255, 0, 0)));
}

#[test]
fn rgb_closing_bracket_is_the_last_character_only() {
    assert_eq!(rgb_valid("rgb(1,2,3))"), Err(ParseError::InvalidNumber));
    assert_eq!(rgb_valid("rgb(1,2,3),4)"), Err(ParseError::InvalidNumber));
    assert_eq!(rgb_valid("rgb(1,2,3,))"), Ok(rgb(1, 2, 3)));
}

#[test]
fn rgb_every_component_value_is_read() {
    for v in 0..=255u8 {
        let text = format!("rgb({}, {} ,{})", v, 255 - v, v / 2);
        assert_eq!(rgb_valid(&text), Ok(rgb(v, 255 - v, v / 2)));
    }
}

#[test]
fn rgb_agrees_with_the_standard_library_on_each_field() {
    let fields = [
        "0", "7", "255", "256", "+5", "-5", "", " ", " 12 ", "1 2", "007", "٣", "12a", "+", "\t9\n",
        "\u{2000}42\u{200a}", "\u{200b}42", "2e2", "99", "100", "260", "0255",
    ];
    for a in fields.iter() {
        for b in fields.iter() {
            let text = format!("rgb({},{},{})", a, b, "1");
            let expected = match (a.trim().parse::<u8>(), b.trim().parse::<u8>()) {
                (Ok(red), Ok(green)) => Ok(rgb(red, green, 1)),
                _ => Err(ParseError::InvalidNumber),
            };
            assert_eq!(rgb_valid(&text), expected, "{:?}", text);
        }
    }
}
