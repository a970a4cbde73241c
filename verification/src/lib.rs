//! Parsing of sRGB colors from hexadecimal and CSS `rgb()` notation.
//!
//! A [`Color`] is an immutable triple of 8-bit channels (red, green, blue).
//! Colors can be read from a `#rrggbb` hex string, from a CSS `rgb(r, g, b)`
//! string, or from an arbitrary string that is dispatched on its prefix and
//! falls back to black. The floating-point luminance and contrast math that
//! usually accompanies these parsers lives outside this library, since it is
//! not expressible here.

use vstd::prelude::*;

pub mod css;
pub mod hex;

verus! {

/// An RGB color: three 8-bit channels, in the order red, green, blue.
///
/// Equality and ordering are component-wise (lexicographic red, then green,
/// then blue). A color is a plain value: once built it is never mutated.
#[derive(Clone, Copy, Debug, PartialEq, Eq, Structural, PartialOrd, Ord, Hash)]
pub struct Color(pub u8, pub u8, pub u8);

/// Whether `s` opens with the `#` of hex notation.
pub open spec fn has_hex_prefix(s: Seq<char>) -> bool {
    s.len() >= 1 && s[0] == '#'
}

/// Whether `s` opens with the `rgb(` of CSS notation.
pub open spec fn has_css_rgb_prefix(s: Seq<char>) -> bool {
    s.len() >= 4 && s[0] == 'r' && s[1] == 'g' && s[2] == 'b' && s[3] == '('
}

/// The color an arbitrary string denotes: hex notation when it opens with
/// `#` (black when that notation is malformed), CSS notation when it opens
/// with `rgb(`, and black otherwise.
pub open spec fn spec_parse_any(s: Seq<char>) -> Color {
    if has_hex_prefix(s) {
        if hex::hex_well_formed(s) {
            hex::spec_from_hex(s)
        } else {
            Color(0, 0, 0)
        }
    } else if has_css_rgb_prefix(s) {
        css::spec_from_css_rgb(s)
    } else {
        Color(0, 0, 0)
    }
}

impl From<&str> for Color {
    /// Dispatch on the prefix of `value`, as [`spec_parse_any`] states.
    ///
    /// Malformed hex notation gets black, the same silent default as every
    /// unrecognized input; [`Color::try_from_hex`] reports it as an error
    /// instead.
    fn from(value: &str) -> Self {
        let n = value.unicode_len();
        if n >= 1 && value.get_char(0) == '#' {
            match Self::try_from_hex(value) {
                Ok(c) => c,
                Err(_) => Color(0, 0, 0),
            }
        } else if n >= 4 && value.get_char(0) == 'r' && value.get_char(1) == 'g'
            && value.get_char(2) == 'b' && value.get_char(3) == '(' {
            Self::from_css_rgb(value)
        } else {
            Color(0, 0, 0)
        }
    }
}

impl vstd::std_specs::convert::FromSpecImpl<&str> for Color {
    open spec fn obeys_from_spec() -> bool {
        true
    }

    open spec fn from_spec(v: &str) -> Color {
        spec_parse_any(v@)
    }
}

} // verus!
