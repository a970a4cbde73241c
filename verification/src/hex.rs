//! Hexadecimal color notation: `#rrggbb`.
//!
//! The reader drops the leading character (the `#`), then takes three
//! two-character pairs. When the input runs out before a pair is complete,
//! the missing characters default to `'f'`, so `"#1"` reads as `"#1fffff"`
//! and `"#"` alone reads as white. A pair whose characters are not both
//! hexadecimal digits is a hard error: [`Color::try_from_hex`] reports it as
//! [`InvalidHexDigit`], and [`Color::from_hex`] rules such inputs out by
//! precondition.

use crate::Color;
use vstd::prelude::*;

verus! {

/// Error of [`Color::try_from_hex`]: a channel pair held a character that is
/// not a hexadecimal digit, or the input was empty.
#[derive(Clone, Copy, Debug, PartialEq, Eq, Structural)]
pub struct InvalidHexDigit;

/// Whether `c` is a hexadecimal digit: `0-9`, `a-f` or `A-F`.
pub open spec fn is_hex_digit(c: char) -> bool {
    ||| ('0' as u32) <= (c as u32) <= ('9' as u32)
    ||| ('a' as u32) <= (c as u32) <= ('f' as u32)
    ||| ('A' as u32) <= (c as u32) <= ('F' as u32)
}

/// The numeric value of the hexadecimal digit `c`, in `[0, 16)`.
pub open spec fn hex_digit_value(c: char) -> u8
    recommends
        is_hex_digit(c),
{
    if ('0' as u32) <= (c as u32) <= ('9' as u32) {
        ((c as u32) - ('0' as u32)) as u8
    } else if ('a' as u32) <= (c as u32) <= ('f' as u32) {
        ((c as u32) - ('a' as u32) + 10) as u8
    } else {
        ((c as u32) - ('A' as u32) + 10) as u8
    }
}

/// The hexadecimal digit `c` stands for, or `None` when `c` is no such digit.
fn hex_digit(c: char) -> (r: Option<u8>)
    ensures
        r is Some <==> is_hex_digit(c),
        r is Some ==> r->Some_0 == hex_digit_value(c) && r->Some_0 < 16,
{
    let v = c as u32;
    if ('0' as u32) <= v && v <= ('9' as u32) {
        Some((v - ('0' as u32)) as u8)
    } else if ('a' as u32) <= v && v <= ('f' as u32) {
        Some((v - ('a' as u32) + 10) as u8)
    } else if ('A' as u32) <= v && v <= ('F' as u32) {
        Some((v - ('A' as u32) + 10) as u8)
    } else {
        None
    }
}

/// The character of the pair position `i` of the input `s` (the whole string,
/// leading `#` included): the input character at `i`, or `'f'` once the input
/// has run out.
pub open spec fn pair_char(s: Seq<char>, i: int) -> char {
    if i < s.len() {
        s[i]
    } else {
        'f'
    }
}

/// Whether channel `k` (0 red, 1 green, 2 blue) of the input `s` is a valid
/// pair: both of its characters, after the `'f'` fallback, are hex digits.
pub open spec fn channel_ok(s: Seq<char>, k: int) -> bool {
    is_hex_digit(pair_char(s, 1 + 2 * k)) && is_hex_digit(pair_char(s, 2 + 2 * k))
}

/// The value of channel `k` of the input `s`, read as a base-16 pair.
pub open spec fn channel_value(s: Seq<char>, k: int) -> u8
    recommends
        channel_ok(s, k),
{
    (hex_digit_value(pair_char(s, 1 + 2 * k)) * 16 + hex_digit_value(pair_char(s, 2 + 2 * k))) as u8
}

/// Whether the hex input `s` parses: it has a first character to drop, and
/// all three channel pairs are valid hex after the `'f'` fallback.
pub open spec fn hex_well_formed(s: Seq<char>) -> bool {
    &&& s.len() >= 1
    &&& channel_ok(s, 0)
    &&& channel_ok(s, 1)
    &&& channel_ok(s, 2)
}

/// The color a well-formed hex input `s` denotes.
pub open spec fn spec_from_hex(s: Seq<char>) -> Color
    recommends
        hex_well_formed(s),
{
    Color(channel_value(s, 0), channel_value(s, 1), channel_value(s, 2))
}

impl Color {
    /// Channel `k` of the hex input `s`, or `None` when its pair is not hex.
    fn hex_channel(s: &str, k: usize) -> (r: Option<u8>)
        requires
            k < 3,
        ensures
            r is Some <==> channel_ok(s@, k as int),
            r is Some ==> r->Some_0 == channel_value(s@, k as int),
    {
        let n = s.unicode_len();
        let i = 1 + 2 * k;
        let c1 = if i < n {
            s.get_char(i)
        } else {
            'f'
        };
        let c2 = if i + 1 < n {
            s.get_char(i + 1)
        } else {
            'f'
        };
        match (hex_digit(c1), hex_digit(c2)) {
            (Some(d1), Some(d2)) => Some(d1 * 16 + d2),
            _ => None,
        }
    }

    /// Read a color from a hex string (leading `#` included), reporting a
    /// typed error on the inputs [`Color::from_hex`] rules out: an empty
    /// input, or a pair that is not hexadecimal.
    pub fn try_from_hex(hex: &str) -> (r: Result<Color, InvalidHexDigit>)
        ensures
            r is Ok <==> hex_well_formed(hex@),
            r is Ok ==> r->Ok_0 == spec_from_hex(hex@),
    {
        if hex.unicode_len() == 0 {
            return Err(InvalidHexDigit);
        }
        match (Self::hex_channel(hex, 0), Self::hex_channel(hex, 1), Self::hex_channel(hex, 2)) {
            (Some(r), Some(g), Some(b)) => Ok(Color(r, g, b)),
            _ => Err(InvalidHexDigit),
        }
    }

    /// Get a color from a hex string. (hashtag sign included)
    ///
    /// The first character is dropped unread; missing trailing digits default
    /// to `'f'`. Inputs with a non-hexadecimal pair are ruled out by the
    /// precondition; [`Color::try_from_hex`] accepts every input instead.
    pub fn from_hex(hex: &str) -> (c: Color)
        requires
            hex_well_formed(hex@),
        ensures
            c == spec_from_hex(hex@),
    {
        match Self::try_from_hex(hex) {
            Ok(c) => c,
            // unreachable: the precondition makes try_from_hex return Ok
            Err(_) => Color(0, 0, 0),
        }
    }
}

/// The lowercase hexadecimal digit character for a value in `[0, 16)`.
pub open spec fn spec_hex_digit_char(d: u8) -> char
    recommends
        d < 16,
{
    if d == 0 {
        '0'
    } else if d == 1 {
        '1'
    } else if d == 2 {
        '2'
    } else if d == 3 {
        '3'
    } else if d == 4 {
        '4'
    } else if d == 5 {
        '5'
    } else if d == 6 {
        '6'
    } else if d == 7 {
        '7'
    } else if d == 8 {
        '8'
    } else if d == 9 {
        '9'
    } else if d == 10 {
        'a'
    } else if d == 11 {
        'b'
    } else if d == 12 {
        'c'
    } else if d == 13 {
        'd'
    } else if d == 14 {
        'e'
    } else {
        'f'
    }
}

/// The six-digit lowercase hex notation of the channels `(r, g, b)`,
/// leading `#` included.
pub open spec fn spec_format_hex(r: u8, g: u8, b: u8) -> Seq<char> {
    seq![
        '#',
        spec_hex_digit_char(r / 16),
        spec_hex_digit_char(r % 16),
        spec_hex_digit_char(g / 16),
        spec_hex_digit_char(g % 16),
        spec_hex_digit_char(b / 16),
        spec_hex_digit_char(b % 16),
    ]
}

/// The digit character named by [`spec_hex_digit_char`] is a hex digit and
/// reads back as the value it was made from.
proof fn lemma_hex_digit_char_value(d: u8)
    requires
        d < 16,
    ensures
        is_hex_digit(spec_hex_digit_char(d)),
        hex_digit_value(spec_hex_digit_char(d)) == d,
{
}

impl Color {
    /// The one-character string of the lowercase hex digit for `d`.
    fn hex_digit_str(d: u8) -> (s: &'static str)
        requires
            d < 16,
        ensures
            s@ == seq![spec_hex_digit_char(d)],
    {
        let s: &'static str = if d == 0 {
            "0"
        } else if d == 1 {
            "1"
        } else if d == 2 {
            "2"
        } else if d == 3 {
            "3"
        } else if d == 4 {
            "4"
        } else if d == 5 {
            "5"
        } else if d == 6 {
            "6"
        } else if d == 7 {
            "7"
        } else if d == 8 {
            "8"
        } else if d == 9 {
            "9"
        } else if d == 10 {
            "a"
        } else if d == 11 {
            "b"
        } else if d == 12 {
            "c"
        } else if d == 13 {
            "d"
        } else if d == 14 {
            "e"
        } else {
            "f"
        };
        proof {
            reveal_strlit("0");
            reveal_strlit("1");
            reveal_strlit("2");
            reveal_strlit("3");
            reveal_strlit("4");
            reveal_strlit("5");
            reveal_strlit("6");
            reveal_strlit("7");
            reveal_strlit("8");
            reveal_strlit("9");
            reveal_strlit("a");
            reveal_strlit("b");
            reveal_strlit("c");
            reveal_strlit("d");
            reveal_strlit("e");
            reveal_strlit("f");
            assert(s@ =~= seq![spec_hex_digit_char(d)]);
        }
        s
    }

    /// Write the channels `(r, g, b)` as six-digit lowercase hex notation,
    /// leading `#` included. [`Color::from_hex`] reads the result back as
    /// `Color(r, g, b)`: see [`lemma_hex_round_trip`].
    pub fn format_hex(r: u8, g: u8, b: u8) -> (s: String)
        ensures
            s@ == spec_format_hex(r, g, b),
    {
        let mut s = String::new();
        s.append("#");
        s.append(Self::hex_digit_str(r / 16));
        s.append(Self::hex_digit_str(r % 16));
        s.append(Self::hex_digit_str(g / 16));
        s.append(Self::hex_digit_str(g % 16));
        s.append(Self::hex_digit_str(b / 16));
        s.append(Self::hex_digit_str(b % 16));
        proof {
            reveal_strlit("#");
            assert(s@ =~= spec_format_hex(r, g, b));
        }
        s
    }
}

/// Round trip: the hex notation of any channel triple is well formed and
/// parses back to exactly that color.
pub proof fn lemma_hex_round_trip(r: u8, g: u8, b: u8)
    ensures
        hex_well_formed(spec_format_hex(r, g, b)),
        spec_from_hex(spec_format_hex(r, g, b)) == Color(r, g, b),
{
    lemma_hex_digit_char_value(r / 16);
    lemma_hex_digit_char_value(r % 16);
    lemma_hex_digit_char_value(g / 16);
    lemma_hex_digit_char_value(g % 16);
    lemma_hex_digit_char_value(b / 16);
    lemma_hex_digit_char_value(b % 16);
    assert(r == r / 16 * 16 + r % 16);
    assert(g == g / 16 * 16 + g % 16);
    assert(b == b / 16 * 16 + b % 16);
}

} // verus!
