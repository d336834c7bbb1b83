//! Separators, assignments and numbers.

use thol_sprites_mini_parser::parser::error::ParseError;
use thol_sprites_mini_parser::parser::types::{ColorRGB, Number, Position};
use thol_sprites_mini_parser::parser::{
    is_decimal_literal, parse_assignment, parse_index_list, parse_number, parse_sprite_color,
    parse_sprite_position, separator,
};

fn number(literal: &str) -> Number {
    Number(literal.to_string())
}

#[test]
fn separator_is_a_line_feed_or_a_comma() {
    let mut line_feed = "\nrot=0";
    assert_eq!(separator(&mut line_feed), Ok(()));
    assert_eq!(line_feed, "rot=0");
    let mut comma = ",invisWorn=0";
    assert_eq!(separator(&mut comma), Ok(()));
    assert_eq!(comma, "invisWorn=0");
}

#[test]
fn separator_takes_a_carriage_return_with_its_line_feed() {
    let mut input = "\r\nrot=0";
    assert_eq!(separator(&mut input), Ok(()));
    assert_eq!(input, "rot=0");
}

#[test]
fn separator_takes_one_separator_only() {
    let mut input = "\n\nrot=0";
    assert_eq!(separator(&mut input), Ok(()));
    assert_eq!(input, "\nrot=0");
}

#[test]
fn separator_is_missing() {
    let mut input = "rot=0";
    assert_eq!(separator(&mut input), Err(ParseError::MissingSeparator));
    assert_eq!(input, "rot=0");
    let mut lone_return = "\rrot=0";
    assert_eq!(separator(&mut lone_return), Err(ParseError::MissingSeparator));
    let mut empty = "";
    assert_eq!(separator(&mut empty), Err(ParseError::MissingSeparator));
}

#[test]
fn number_keeps_its_literal() {
    let mut input = "-23.000000,rest";
    assert_eq!(parse_number(&mut input), Ok(number("-23.000000")));
    assert_eq!(input, ",rest");
}

#[test]
fn number_value_of_a_literal() {
    let mut input = "-23.000000";
    let parsed = parse_number(&mut input).unwrap();
    assert_eq!(parsed.as_str(), "-23.000000");
    assert_eq!(parsed.as_str().parse::<f64>(), Ok(-23.0));
}

#[test]
fn number_of_a_flag_is_a_number() {
    let mut input = "0\ninvisCont=0";
    assert_eq!(parse_number(&mut input), Ok(number("0")));
    assert_eq!(input, "\ninvisCont=0");
}

#[test]
fn number_stops_where_the_literal_ends() {
    let mut input = "123K-01";
    assert_eq!(parse_number(&mut input), Ok(number("123")));
    assert_eq!(input, "K-01");
    let mut fraction = "0.5x";
    assert_eq!(parse_number(&mut fraction), Ok(number("0.5")));
    assert_eq!(fraction, "x");
}

#[test]
fn number_is_malformed() {
    let mut input = "abc";
    assert_eq!(parse_number(&mut input), Err(ParseError::MalformedNumber));
    assert_eq!(input, "abc");
    let mut empty = "";
    assert_eq!(parse_number(&mut empty), Err(ParseError::MalformedNumber));
    let mut sign_only = "-";
    assert_eq!(parse_number(&mut sign_only), Err(ParseError::MalformedNumber));
    assert_eq!(sign_only, "-");
}

#[test]
fn number_default_is_zero() {
    assert_eq!(Number::default(), number("0"));
    assert_eq!(Number::default().as_str().parse::<f64>(), Ok(0.0));
}

#[test]
fn assignment_reads_key_and_value() {
    let mut input = "rot=0.500000\nhFlip=0";
    assert_eq!(parse_assignment(&mut input, "rot", parse_number), Ok(number("0.500000")));
    assert_eq!(input, "\nhFlip=0");
}

#[test]
fn assignment_with_an_index_list() {
    let mut input = "bodyIndex=4,9,12,1";
    assert_eq!(parse_assignment(&mut input, "bodyIndex", parse_index_list), Ok(vec![4, 9, 12, 1]));
    assert_eq!(input, "");
}

#[test]
fn assignment_key_is_unexpected() {
    let mut input = "rot=0.5";
    assert_eq!(parse_assignment(&mut input, "pos", parse_number), Err(ParseError::UnexpectedKey));
    assert_eq!(input, "rot=0.5");
}

#[test]
fn assignment_key_is_matched_to_the_letter() {
    let mut upper = "ROT=0.5";
    assert_eq!(parse_assignment(&mut upper, "rot", parse_number), Err(ParseError::UnexpectedKey));
    let mut spaced = " rot=0.5";
    assert_eq!(parse_assignment(&mut spaced, "rot", parse_number), Err(ParseError::UnexpectedKey));
    let mut space_before_equals = "rot =0.5";
    assert_eq!(
        parse_assignment(&mut space_before_equals, "rot", parse_number),
        Err(ParseError::UnexpectedKey)
    );
    assert_eq!(space_before_equals, "rot =0.5");
    let mut longer_key = "rotation=0.5";
    assert_eq!(
        parse_assignment(&mut longer_key, "rot", parse_number),
        Err(ParseError::UnexpectedKey)
    );
}

#[test]
fn assignment_gives_the_error_of_its_value() {
    let mut input = "rot=x";
    assert_eq!(parse_assignment(&mut input, "rot", parse_number), Err(ParseError::MalformedNumber));
    assert_eq!(input, "x");
}

#[test]
fn assignment_calls_its_value_once_on_the_text_behind_the_key() {
    let mut calls = 0;
    let mut seen = String::new();
    let mut input = "key=rest of it";
    let result = parse_assignment(&mut input, "key", |text: &mut &str| {
        calls += 1;
        seen.push_str(text);
        *text = &text[5..];
        Ok::<u8, ParseError>(7)
    });
    assert_eq!(result, Ok(7));
    assert_eq!(calls, 1);
    assert_eq!(seen, "rest of it");
    assert_eq!(input, "of it");
}

#[test]
fn assignment_leaves_the_text_where_its_value_left_it() {
    let mut input = "key=rest of it";
    let result = parse_assignment(&mut input, "key", |text: &mut &str| {
        *text = &text[8..];
        Err::<u8, ParseError>(ParseError::MalformedCode)
    });
    assert_eq!(result, Err(ParseError::MalformedCode));
    assert_eq!(input, "it");
}

#[test]
fn assignment_does_not_call_its_value_without_the_key() {
    let mut calls = 0;
    let mut input = "other=1";
    let result = parse_assignment(&mut input, "key", |_text: &mut &str| {
        calls += 1;
        Ok::<u8, ParseError>(7)
    });
    assert_eq!(result, Err(ParseError::UnexpectedKey));
    assert_eq!(calls, 0);
    assert_eq!(input, "other=1");
    let mut no_equals = "key 1";
    let result = parse_assignment(&mut no_equals, "key", |_text: &mut &str| {
        calls += 1;
        Ok::<u8, ParseError>(7)
    });
    assert_eq!(result, Err(ParseError::UnexpectedKey));
    assert_eq!(calls, 0);
    assert_eq!(no_equals, "key 1");
}

#[test]
fn position_of_a_sprite() {
    let mut input = "pos=40.000000,-23.000000\nrot=0";
    assert_eq!(
        parse_sprite_position(&mut input),
        Ok(Position { x: number("40.000000"), y: number("-23.000000") })
    );
    assert_eq!(input, "\nrot=0");
}

#[test]
fn position_needs_a_comma() {
    let mut input = "pos=40.000000\n-23.000000";
    assert_eq!(parse_sprite_position(&mut input), Err(ParseError::MissingComma));
    assert_eq!(input, "40.000000\n-23.000000");
    let mut other = "rot=1,2";
    assert_eq!(parse_sprite_position(&mut other), Err(ParseError::UnexpectedKey));
    assert_eq!(other, "rot=1,2");
}

#[test]
fn color_of_a_sprite() {
    let mut input = "1.000000,0.500000,0.250000\n";
    assert_eq!(
        parse_sprite_color(&mut input),
        Ok(ColorRGB { r: number("1.000000"), g: number("0.500000"), b: number("0.250000") })
    );
    assert_eq!(input, "\n");
}

#[test]
fn color_needs_three_numbers() {
    let mut two = "1.000000,0.500000";
    assert_eq!(parse_sprite_color(&mut two), Err(ParseError::MissingComma));
    assert_eq!(two, "1.000000,0.500000");
    let mut third_missing = "1.000000,0.500000,";
    assert_eq!(parse_sprite_color(&mut third_missing), Err(ParseError::MalformedNumber));
}

#[test]
fn number_forms_of_a_decimal_literal() {
    let reads = |text: &str, literal: &str, rest: &str, value: f64| {
        let mut input = text;
        let parsed = parse_number(&mut input).unwrap();
        assert_eq!(parsed.as_str(), literal);
        assert_eq!(input, rest);
        assert!(is_decimal_literal(parsed.as_str()));
        assert_eq!(parsed.as_str().parse::<f64>(), Ok(value));
    };
    reads("5", "5", "", 5.0);
    reads("+5,", "+5", ",", 5.0);
    reads("-0.000000\n", "-0.000000", "\n", -0.0);
    reads("007.50", "007.50", "", 7.5);
    reads("12.5.7", "12.5", ".7", 12.5);
    reads("5.", "5.", "", 5.0);
    reads("5.x", "5.", "x", 5.0);
    reads(".5", ".5", "", 0.5);
    reads("-.25,", "-.25", ",", -0.25);
    reads("+7.\n", "+7.", "\n", 7.0);
    reads("1..2", "1.", ".2", 1.0);
    reads("1,2", "1", ",2", 1.0);
    reads("3x", "3", "x", 3.0);
    reads("3.25inf", "3.25", "inf", 3.25);
    reads("123456789012345678901234567890.5", "123456789012345678901234567890.5", "", 1.2345678901234568e29);
}

#[test]
fn number_is_decimal_and_nothing_else() {
    let texts = [
        "nan", "NaN;", "inf", "-Infinity!", "infinity", "infin", "+inf", "1e5", "1E+5x", "1.5e3",
        "1e", "1e+", "1ex", "1.e2", ".5e1", "+.5e-3", ".", "-.", "+.x", "-nan", "+", "-", "e5",
        " 1", "١", "",
    ];
    for text in texts {
        let mut input = text;
        assert_eq!(parse_number(&mut input), Err(ParseError::MalformedNumber));
        assert_eq!(input, text);
    }
}

#[test]
fn decimal_literals() {
    for text in ["0", "-1", "+1", "40.000000", "-23.000000", "007", "0.5", "5.", ".5", "-5.", "+.5"] {
        assert!(is_decimal_literal(text));
    }
    for text in [
        "", "-", "+", ".", "-.", "+.", "..", "1e5", "inf", "nan", "1 ", " 1", "1.2.3", "1..", "..1",
        "--1", "1.-2", "١",
    ] {
        assert!(!is_decimal_literal(text));
    }
}

#[test]
fn assignment_with_a_key_that_is_no_ascii() {
    let mut input = "größe=1.5 m";
    assert_eq!(parse_assignment(&mut input, "größe", parse_number), Ok(number("1.5")));
    assert_eq!(input, " m");
    let mut other = "grösse=1.5";
    assert_eq!(parse_assignment(&mut other, "größe", parse_number), Err(ParseError::UnexpectedKey));
    let mut empty_key = "=2";
    assert_eq!(parse_assignment(&mut empty_key, "", parse_number), Ok(number("2")));
}
