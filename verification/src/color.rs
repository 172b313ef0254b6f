//! Parsing of `#RRGGBB` hex color strings into their three byte channels.

use vstd::prelude::*;

verus! {

/// Why a color string was rejected: the wrong shape (length or missing
/// leading `#`), or a non-hex digit in one of the six value positions.
#[derive(Clone, Copy, Debug, PartialEq, Eq, Structural)]
pub enum ColorParseError {
    InvalidFormat,
    InvalidValue,
}

impl ColorParseError {
    /// A human-readable description of the rejection.
    pub fn message(&self) -> (r: String)
        ensures
            *self is InvalidFormat ==> r@ == "Invalid hex format"@,
            *self is InvalidValue ==> r@ == "Invalid hex value"@,
    {
        match self {
            ColorParseError::InvalidFormat => "Invalid hex format".to_owned(),
            ColorParseError::InvalidValue => "Invalid hex value".to_owned(),
        }
    }
}

/// Whether a character is a hexadecimal digit, in either case.
pub open spec fn is_hex_digit(c: char) -> bool {
    ('0' <= c && c <= '9') || ('a' <= c && c <= 'f') || ('A' <= c && c <= 'F')
}

/// The value of a hexadecimal digit character.
pub open spec fn hex_val(c: char) -> nat {
    if '0' <= c && c <= '9' {
        (c as u32 - '0' as u32) as nat
    } else if 'a' <= c && c <= 'f' {
        (c as u32 - 'a' as u32 + 10) as nat
    } else {
        (c as u32 - 'A' as u32 + 10) as nat
    }
}

/// The byte two hexadecimal digit characters spell.
pub open spec fn hex_byte(hi: char, lo: char) -> nat {
    16 * hex_val(hi) + hex_val(lo)
}

/// The exact shape a color string must have: seven characters, a leading
/// `#`, then six hexadecimal digits.
pub open spec fn valid_hex_color(s: Seq<char>) -> bool {
    &&& s.len() == 7
    &&& s[0] == '#'
    &&& forall|i: int| 1 <= i < 7 ==> is_hex_digit(#[trigger] s[i])
}

/// The three channel bytes a valid color string denotes.
pub open spec fn hex_color_bytes(s: Seq<char>) -> Seq<u8> {
    seq![
        hex_byte(s[1], s[2]) as u8,
        hex_byte(s[3], s[4]) as u8,
        hex_byte(s[5], s[6]) as u8,
    ]
}

/// The value of one hexadecimal digit character, or `None` for any other
/// character.
fn hex_digit_value(c: char) -> (r: Option<u8>)
    ensures
        r is Some <==> is_hex_digit(c),
        r matches Some(v) ==> v == hex_val(c) && v < 16,
{
    if '0' <= c && c <= '9' {
        Some((c as u8) - ('0' as u8))
    } else if 'a' <= c && c <= 'f' {
        Some((c as u8) - ('a' as u8) + 10)
    } else if 'A' <= c && c <= 'F' {
        Some((c as u8) - ('A' as u8) + 10)
    } else {
        None
    }
}

/// Parse a `#RRGGBB` color string into its red, green and blue bytes.
/// A string of the wrong shape is rejected as `InvalidFormat`; one of the
/// right shape holding a non-hex digit is rejected as `InvalidValue`.
pub fn hex_to_rgb(hex: &str) -> (r: Result<[u8; 3], ColorParseError>)
    ensures
        r is Ok <==> valid_hex_color(hex@),
        r matches Ok(rgb) ==> rgb@ == hex_color_bytes(hex@),
        r matches Err(e) ==> (e is InvalidFormat <==> !(hex@.len() == 7 && hex@[0] == '#')),
{
    if hex.unicode_len() != 7 {
        return Err(ColorParseError::InvalidFormat);
    }
    if hex.get_char(0) != '#' {
        return Err(ColorParseError::InvalidFormat);
    }
    let d1 = hex_digit_value(hex.get_char(1));
    let d2 = hex_digit_value(hex.get_char(2));
    let d3 = hex_digit_value(hex.get_char(3));
    let d4 = hex_digit_value(hex.get_char(4));
    let d5 = hex_digit_value(hex.get_char(5));
    let d6 = hex_digit_value(hex.get_char(6));
    match (d1, d2, d3, d4, d5, d6) {
        (Some(h1), Some(h2), Some(h3), Some(h4), Some(h5), Some(h6)) => {
            let rgb: [u8; 3] = [16 * h1 + h2, 16 * h3 + h4, 16 * h5 + h6];
            proof {
                assert(rgb@ =~= hex_color_bytes(hex@));
            }
            Ok(rgb)
        },
        _ => Err(ColorParseError::InvalidValue),
    }
}

} // verus!
