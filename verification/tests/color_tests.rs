use hardware_monitor::color::{hex_to_rgb, ColorParseError};

#[test]
fn parses_valid_hex_color() {
    assert_eq!(hex_to_rgb("#4BC0C0"), Ok([75, 192, 192]));
    assert_eq!(hex_to_rgb("#000000"), Ok([0, 0, 0]));
    assert_eq!(hex_to_rgb("#ffffff"), Ok([255, 255, 255]));
    assert_eq!(hex_to_rgb("#FF6384"), Ok([255, 99, 132]));
}

#[test]
fn rejects_missing_hash() {
    assert_eq!(hex_to_rgb("4BC0C0"), Err(ColorParseError::InvalidFormat));
}

#[test]
fn rejects_non_hex_digits() {
    assert_eq!(hex_to_rgb("#ZZZZZZ"), Err(ColorParseError::InvalidValue));
    assert_eq!(hex_to_rgb("#12345G"), Err(ColorParseError::InvalidValue));
}

#[test]
fn rejects_wrong_length() {
    assert_eq!(hex_to_rgb("#FFF"), Err(ColorParseError::InvalidFormat));
    assert_eq!(hex_to_rgb(""), Err(ColorParseError::InvalidFormat));
    assert_eq!(hex_to_rgb("#FFFFFFF"), Err(ColorParseError::InvalidFormat));
}

#[test]
fn color_error_messages() {
    assert_eq!(ColorParseError::InvalidFormat.message(), "Invalid hex format");
    assert_eq!(ColorParseError::InvalidValue.message(), "Invalid hex value");
}
