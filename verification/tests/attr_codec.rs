//! The attribute codec: round trips, conversions, colour codes.

use caca::Color;
use caca::attr::{Attr, AttrColor, AttrParts, STYLE_BOLD, STYLE_UNDERLINE};

#[test]
fn roundtrip_named_colors() {
    let p = AttrParts {
        fg: AttrColor::Ansi(Color::LightRed),
        bg: AttrColor::Ansi(Color::Blue),
        styles: STYLE_BOLD,
    };
    let a = Attr::from_parts(&p).unwrap();
    assert_eq!(a.parts(), Some(p));
}

#[test]
fn roundtrip_rgb_colors() {
    let p = AttrParts {
        fg: AttrColor::Rgb(0xf53),
        bg: AttrColor::Rgb(0x0a0),
        styles: STYLE_UNDERLINE,
    };
    let a = Attr::from_parts(&p).unwrap();
    assert_eq!(a.parts(), Some(p));
}

#[test]
fn roundtrip_sentinels() {
    let p = AttrParts {
        fg: AttrColor::Ansi(Color::Default),
        bg: AttrColor::Ansi(Color::Transparent),
        styles: 0,
    };
    let a = Attr::from_parts(&p).unwrap();
    assert_eq!(a.parts(), Some(p));
}

#[test]
fn from_parts_rejects_wide_rgb() {
    let p = AttrParts { fg: AttrColor::Rgb(0x1000), bg: AttrColor::Ansi(Color::Black), styles: 0 };
    assert_eq!(Attr::from_parts(&p), Err(caca::error::Error::InvalidColor));
}

#[test]
fn from_parts_rejects_bad_styles() {
    let p = AttrParts {
        fg: AttrColor::Ansi(Color::Black),
        bg: AttrColor::Ansi(Color::Black),
        styles: 16,
    };
    assert_eq!(Attr::from_parts(&p), Err(caca::error::Error::InvalidColor));
}

#[test]
fn ansi_codes() {
    let p = AttrParts {
        fg: AttrColor::Ansi(Color::Yellow),
        bg: AttrColor::Ansi(Color::Green),
        styles: 0,
    };
    let a = Attr::from_parts(&p).unwrap();
    assert_eq!(a.ansi_fg(), 0x0e);
    assert_eq!(a.ansi_bg(), 0x02);
    assert_eq!(a.ansi(), 0x2e);
}

#[test]
fn ansi_nearest_for_rgb() {
    // Pure bright red: red channel at full, so base red plus bright.
    let p = AttrParts { fg: AttrColor::Rgb(0xf00), bg: AttrColor::Rgb(0x555), styles: 0 };
    let a = Attr::from_parts(&p).unwrap();
    assert_eq!(a.ansi_fg(), 0x0c);
    assert_eq!(a.ansi_bg(), 0x00);
}

#[test]
fn rgb12_of_named_and_rgb() {
    let p = AttrParts { fg: AttrColor::Ansi(Color::White), bg: AttrColor::Rgb(0x123), styles: 0 };
    let a = Attr::from_parts(&p).unwrap();
    assert_eq!(a.rgb12_fg(), 0xfff);
    assert_eq!(a.rgb12_bg(), 0x123);
}

#[test]
fn rgb12_sentinel_mapping() {
    let p = AttrParts {
        fg: AttrColor::Ansi(Color::Default),
        bg: AttrColor::Ansi(Color::Default),
        styles: 0,
    };
    let a = Attr::from_parts(&p).unwrap();
    // Default maps to light gray in the foreground, black in the background.
    assert_eq!(a.rgb12_fg(), 0xaaa);
    assert_eq!(a.rgb12_bg(), 0x000);
}

#[test]
fn argb64_nibbles() {
    let p = AttrParts {
        fg: AttrColor::Rgb(0x89a),
        bg: AttrColor::Ansi(Color::Transparent),
        styles: 0,
    };
    let a = Attr::from_parts(&p).unwrap();
    let v = a.argb64();
    assert_eq!(v.fg_a, 0xf);
    assert_eq!(v.fg_r, 0x8);
    assert_eq!(v.fg_g, 0x9);
    assert_eq!(v.fg_b, 0xa);
    assert_eq!(v.bg_a, 0x0);
    assert_eq!(v.bg_r, 0x0);
}

#[test]
fn default_attr_is_default_on_transparent() {
    let a = Attr::default();
    let p = a.parts().unwrap();
    assert_eq!(p.fg, AttrColor::Ansi(Color::Default));
    assert_eq!(p.bg, AttrColor::Ansi(Color::Transparent));
    assert_eq!(p.styles, 0);
}

#[test]
fn malformed_value_decodes_to_none() {
    // A colour field of 0x3fff has both the RGB tag and its unused bit set.
    let a = Attr::new(0x3fff << 4);
    assert_eq!(a.parts(), None);
}

#[test]
fn color_codes_roundtrip() {
    assert_eq!(Color::from_code(0x0c), Ok(Color::LightRed));
    assert_eq!(Color::from_code(0x10), Ok(Color::Default));
    assert_eq!(Color::from_code(0x20), Ok(Color::Transparent));
    assert_eq!(Color::from_code(0x11), Err(caca::error::Error::InvalidColor));
    assert_eq!(Color::LightRed.to_code(), 0x0c);
}

#[test]
fn raw_value_roundtrip() {
    let a = Attr::new(0x12345678);
    assert_eq!(a.value(), 0x12345678);
}

#[test]
fn error_messages_are_specific() {
    assert_eq!(caca::error::Error::InvalidSize.message(), "invalid size");
    assert_eq!(caca::error::Error::InvalidMaskSize.message(), "invalid mask size");
    assert_eq!(caca::error::Error::Unknown(3).message(), "unknown error");
}
