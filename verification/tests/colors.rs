use marker_tracker::colors::{parse_color_range, ColorRange};
use marker_tracker::error::ConfigurationError;

fn parse(text: &str) -> Result<ColorRange, ConfigurationError> {
    parse_color_range(text.as_bytes())
}

#[test]
fn six_numbers_are_a_colour_range() {
    assert_eq!(parse("0,100,100,10,255,255"), Ok(ColorRange { low: [0, 100, 100], high: [10, 255, 255] }));
    assert_eq!(parse("1,2,3,4,5,6"), Ok(ColorRange { low: [1, 2, 3], high: [4, 5, 6] }));
}

#[test]
fn numbers_may_have_a_sign_and_leading_zeros() {
    assert_eq!(parse("-1,+2,003,-0,+0,0000000000000000000042"), Ok(ColorRange { low: [-1, 2, 3], high: [0, 0, 42] }));
    assert_eq!(
        parse("2147483647,-2147483648,+2147483647,1,1,1"),
        Ok(ColorRange { low: [i32::MAX, i32::MIN, i32::MAX], high: [1, 1, 1] })
    );
}

#[test]
fn what_follows_a_sixth_comma_is_not_read() {
    assert_eq!(parse("1,2,3,4,5,6,"), Ok(ColorRange { low: [1, 2, 3], high: [4, 5, 6] }));
    assert_eq!(parse("1,2,3,4,5,6,seven, 8\n"), Ok(ColorRange { low: [1, 2, 3], high: [4, 5, 6] }));
}

#[test]
fn fewer_than_six_numbers_are_malformed() {
    for text in ["", "1", "1,2,3,4,5", "1,2,3,4,5,", ",,,,,", "1,2,3,,5,6", ",1,2,3,4,5"] {
        assert_eq!(parse(text), Err(ConfigurationError::MalformedColorRange), "{:?}", text);
    }
}

#[test]
fn spaces_line_ends_and_other_bytes_are_malformed() {
    for text in [
        "1,2,3,4,5,6\n",
        "1, 2,3,4,5,6",
        " 1,2,3,4,5,6",
        "1,2,3,4,5,6 ",
        "1,2,3,4,5,0x6",
        "1,2,3,4,5,6.0",
        "1;2;3;4;5;6",
        "1,2,3,4,5,--6",
        "1,2,3,4,5,+-6",
        "1,2,3,4,5,6-",
        "1,2,3,4,5,+",
        "-,2,3,4,5,6",
        "a,2,3,4,5,6",
        "1,2,3,4,5,six",
    ] {
        assert_eq!(parse(text), Err(ConfigurationError::MalformedColorRange), "{:?}", text);
    }
    assert_eq!(parse_color_range(&[49, 44, 50, 44, 51, 44, 52, 44, 53, 44, 0xc3, 0xa9]), Err(ConfigurationError::MalformedColorRange));
    assert_eq!(parse_color_range(&[49, 44, 50, 44, 51, 44, 52, 44, 53, 44, 47]), Err(ConfigurationError::MalformedColorRange));
    assert_eq!(parse_color_range(&[49, 44, 50, 44, 51, 44, 52, 44, 53, 44, 58]), Err(ConfigurationError::MalformedColorRange));
}

#[test]
fn numbers_beyond_the_range_are_malformed() {
    for text in [
        "2147483648,2,3,4,5,6",
        "-2147483649,2,3,4,5,6",
        "1,2,3,4,5,99999999999999999999999999999999",
        "1,2,3,4,5,-99999999999999999999999999999999",
        "1,2,3,4,5,21474836470",
        "1,2,3,4,5,+2147483648",
    ] {
        assert_eq!(parse(text), Err(ConfigurationError::MalformedColorRange), "{:?}", text);
    }
}
