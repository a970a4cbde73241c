use colormath::hex::InvalidHexDigit;
use colormath::Color;

#[test]
fn from_css_rgb() {
    assert_eq!(Color::from("rgb(255,255, 0)"), Color(255, 255, 0))
}

#[test]
fn from_hex() {
    assert_eq!(Color::from("#ffff00"), Color(255, 255, 0))
}

#[test]
fn hex_white_and_black() {
    assert_eq!(Color::from_hex("#ffffff"), Color(255, 255, 255));
    assert_eq!(Color::from_hex("#000000"), Color(0, 0, 0));
}

#[test]
fn hex_mixed_case() {
    assert_eq!(Color::from_hex("#FF00Aa"), Color(255, 0, 170));
}

#[test]
fn hex_missing_digits_default_to_f() {
    assert_eq!(Color::from_hex("#"), Color(255, 255, 255));
    assert_eq!(Color::from_hex("#1"), Color(31, 255, 255));
    assert_eq!(Color::from_hex("#12345"), Color(18, 52, 95));
}

#[test]
fn hex_trailing_characters_ignored() {
    assert_eq!(Color::from_hex("#123456789"), Color(18, 52, 86));
}

#[test]
fn try_from_hex_ok() {
    assert_eq!(Color::try_from_hex("#010203"), Ok(Color(1, 2, 3)));
}

#[test]
fn try_from_hex_rejects_non_hex() {
    assert_eq!(Color::try_from_hex("#zz0000"), Err(InvalidHexDigit));
    assert_eq!(Color::try_from_hex("#12345x"), Err(InvalidHexDigit));
    assert_eq!(Color::try_from_hex(""), Err(InvalidHexDigit));
}

#[test]
fn format_hex_exact() {
    assert_eq!(Color::format_hex(18, 52, 86), "#123456");
    assert_eq!(Color::format_hex(255, 255, 0), "#ffff00");
    assert_eq!(Color::format_hex(0, 0, 0), "#000000");
}

#[test]
fn hex_round_trip() {
    let samples: [u8; 7] = [0, 1, 15, 16, 127, 170, 255];
    for &r in &samples {
        for &g in &samples {
            for &b in &samples {
                let s = Color::format_hex(r, g, b);
                assert_eq!(Color::from_hex(&s), Color(r, g, b));
            }
        }
    }
}

#[test]
fn css_trailing_comma_stores_blue() {
    assert_eq!(Color::from_css_rgb("rgb(1,2,3,)"), Color(1, 2, 3));
}

#[test]
fn css_blue_left_pending_stays_zero() {
    assert_eq!(Color::from_css_rgb("rgb( 10 , 20 , 30 )"), Color(10, 20, 0));
}

#[test]
fn css_malformed_components_default_to_zero() {
    assert_eq!(Color::from_css_rgb("rgb(300,12,x,)"), Color(0, 12, 0));
    assert_eq!(Color::from_css_rgb("rgb(,,,)"), Color(0, 0, 0));
    assert_eq!(Color::from_css_rgb("rgb(+5,256,08,)"), Color(5, 0, 8));
    assert_eq!(Color::from_css_rgb("rgb(-5,++1,2 4,)"), Color(0, 0, 24));
}

#[test]
fn from_unrecognized_defaults_to_black() {
    assert_eq!(Color::from("blue"), Color(0, 0, 0));
    assert_eq!(Color::from(""), Color(0, 0, 0));
    assert_eq!(Color::from("rgb"), Color(0, 0, 0));
}

#[test]
fn from_malformed_hex_defaults_to_black() {
    assert_eq!(Color::from("#zz0000"), Color(0, 0, 0));
}

#[test]
fn color_ordering_is_lexicographic() {
    assert!(Color(0, 0, 0) < Color(0, 0, 1));
    assert!(Color(0, 0, 255) < Color(0, 1, 0));
    assert!(Color(0, 255, 255) < Color(1, 0, 0));
    assert!(Color(1, 2, 3) == Color(1, 2, 3));
}
