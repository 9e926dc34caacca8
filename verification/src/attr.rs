//! The packed cell attribute and its codec.
//!
//! An attribute is one opaque 32-bit value holding a foreground colour, a
//! background colour and a set of style flags.  Layout (version 1):
//!
//! * bits 0..=3: style flags (bold `0x1`, italics `0x2`, underline `0x4`,
//!   blink `0x8`);
//! * bits 4..=17: the foreground colour field (14 bits);
//! * bits 18..=31: the background colour field (14 bits).
//!
//! A colour field either holds a named-colour code (`Color::spec_code`,
//! always below `0x2000`) or, with bit 13 set and bit 12 clear, a 12-bit
//! RGB value in its low 12 bits.  Every other field value is malformed and
//! never produced by the encoder.

use vstd::prelude::*;

use crate::Color;
use crate::error::Error;

verus! {

pub const STYLE_BOLD: u8 = 0x1;

pub const STYLE_ITALICS: u8 = 0x2;

pub const STYLE_UNDERLINE: u8 = 0x4;

pub const STYLE_BLINK: u8 = 0x8;

/// One colour half of an attribute: a named colour or a 12-bit RGB value.
#[derive(Debug, Copy, Clone, PartialEq, Eq, Structural)]
pub enum AttrColor {
    Ansi(Color),
    Rgb(u16),
}

impl AttrColor {
    /// A 12-bit RGB value must fit in 12 bits.
    pub open spec fn valid(self) -> bool {
        match self {
            AttrColor::Ansi(_) => true,
            AttrColor::Rgb(rgb) => rgb < 0x1000,
        }
    }

    /// The 14-bit colour field this colour encodes to.
    pub open spec fn spec_field(self) -> u32 {
        match self {
            AttrColor::Ansi(c) => c.spec_code(),
            AttrColor::Rgb(rgb) => 0x2000u32 | rgb as u32,
        }
    }
}

/// The decomposed form of an attribute.
#[derive(Debug, Copy, Clone, PartialEq, Eq, Structural)]
pub struct AttrParts {
    pub fg: AttrColor,
    pub bg: AttrColor,
    /// The style flags, a bit-set of the four `STYLE_*` constants.
    pub styles: u8,
}

impl AttrParts {
    pub open spec fn valid(self) -> bool {
        self.fg.valid() && self.bg.valid() && self.styles < 16
    }
}

/// What a colour field decodes to; malformed fields decode to `None`.
pub open spec fn spec_field_decode(f: u32) -> Option<AttrColor> {
    if f & 0x2000 != 0 {
        if f & 0x1000 == 0 {
            Some(AttrColor::Rgb((f & 0xfff) as u16))
        } else {
            None
        }
    } else {
        if f == 0x00 {
            Some(AttrColor::Ansi(Color::Black))
        } else if f == 0x01 {
            Some(AttrColor::Ansi(Color::Blue))
        } else if f == 0x02 {
            Some(AttrColor::Ansi(Color::Green))
        } else if f == 0x03 {
            Some(AttrColor::Ansi(Color::Cyan))
        } else if f == 0x04 {
            Some(AttrColor::Ansi(Color::Red))
        } else if f == 0x05 {
            Some(AttrColor::Ansi(Color::Magenta))
        } else if f == 0x06 {
            Some(AttrColor::Ansi(Color::Brown))
        } else if f == 0x07 {
            Some(AttrColor::Ansi(Color::LightGray))
        } else if f == 0x08 {
            Some(AttrColor::Ansi(Color::DarkGray))
        } else if f == 0x09 {
            Some(AttrColor::Ansi(Color::LightBlue))
        } else if f == 0x0a {
            Some(AttrColor::Ansi(Color::LightGreen))
        } else if f == 0x0b {
            Some(AttrColor::Ansi(Color::LightCyan))
        } else if f == 0x0c {
            Some(AttrColor::Ansi(Color::LightRed))
        } else if f == 0x0d {
            Some(AttrColor::Ansi(Color::LightMagenta))
        } else if f == 0x0e {
            Some(AttrColor::Ansi(Color::Yellow))
        } else if f == 0x0f {
            Some(AttrColor::Ansi(Color::White))
        } else if f == 0x10 {
            Some(AttrColor::Ansi(Color::Default))
        } else if f == 0x20 {
            Some(AttrColor::Ansi(Color::Transparent))
        } else {
            None
        }
    }
}

/// The packed attribute value of a decomposed attribute.
pub open spec fn spec_encode(p: AttrParts) -> u32 {
    (p.styles as u32) | (p.fg.spec_field() << 4) | (p.bg.spec_field() << 18)
}

/// The decomposed form of a packed attribute value, if it is well formed.
pub open spec fn spec_decode(a: u32) -> Option<AttrParts> {
    let styles = (a & 0xf) as u8;
    let ff = (a >> 4) & 0x3fff;
    let bf = (a >> 18) & 0x3fff;
    match (spec_field_decode(ff), spec_field_decode(bf)) {
        (Some(fg), Some(bg)) => Some(AttrParts { fg, bg, styles }),
        _ => None,
    }
}

/// A packed cell attribute.
#[derive(Debug, Copy, Clone, PartialEq, Eq, Structural)]
pub struct Attr(u32);

impl View for Attr {
    type V = u32;

    closed spec fn view(&self) -> u32 {
        self.0
    }
}

/// The packed value of the default attribute: default foreground on a
/// transparent background, no styles.
pub open spec fn spec_default_attr() -> u32 {
    (0x10u32 << 4) | (0x20u32 << 18)
}

impl Default for Attr {
    /// The default attribute: default foreground, transparent background,
    /// no styles.
    fn default() -> (r: Attr)
        ensures
            r@ == spec_default_attr(),
    {
        Attr((0x10u32 << 4) | (0x20u32 << 18))
    }
}

impl Attr {
    /// Wraps a raw packed value.
    pub fn new(raw: u32) -> (a: Attr)
        ensures
            a@ == raw,
    {
        Attr(raw)
    }

    /// The raw packed value.
    pub fn value(&self) -> (r: u32)
        ensures
            r == self@,
    {
        self.0
    }

    /// Recomposes an attribute from its parts; rejects parts that do not
    /// fit the layout (an RGB value of 12 bits or more, style bits beyond
    /// the four defined flags) with `InvalidColor`.
    pub fn from_parts(p: &AttrParts) -> (r: Result<Attr, Error>)
        ensures
            r is Ok <==> p.valid(),
            r matches Ok(a) ==> a@ == spec_encode(*p),
    {
        let fg_ok = match p.fg {
            AttrColor::Ansi(_) => true,
            AttrColor::Rgb(rgb) => rgb < 0x1000,
        };
        let bg_ok = match p.bg {
            AttrColor::Ansi(_) => true,
            AttrColor::Rgb(rgb) => rgb < 0x1000,
        };
        if !fg_ok || !bg_ok || p.styles >= 16 {
            return Err(Error::InvalidColor);
        }
        let ff = field_encode(&p.fg);
        let bf = field_encode(&p.bg);
        Ok(Attr((p.styles as u32) | (ff << 4) | (bf << 18)))
    }

    /// Decomposes the attribute; a malformed value yields `None`.
    pub fn parts(&self) -> (r: Option<AttrParts>)
        ensures
            r == spec_decode(self@),
    {
        let styles = (self.0 & 0xf) as u8;
        let ff = (self.0 >> 4) & 0x3fff;
        let bf = (self.0 >> 18) & 0x3fff;
        let fg = field_decode(ff);
        let bg = field_decode(bf);
        match (fg, bg) {
            (Some(fg), Some(bg)) => Some(AttrParts { fg, bg, styles }),
            _ => None,
        }
    }

    /// Both colours packed into one byte: the foreground's ANSI nibble in
    /// the low half, the background's in the high half.  Sentinel and
    /// malformed foregrounds map to light gray (`0x7`), backgrounds to
    /// black (`0x0`).
    pub fn ansi(&self) -> (r: u8)
        ensures
            r == spec_ansi(self@),
    {
        let fa = self.ansi_fg();
        let ba = self.ansi_bg();
        let fg_n = if fa < 16 { fa } else { 7 };
        let bg_n = if ba < 16 { ba } else { 0 };
        fg_n | (bg_n << 4)
    }

    /// The foreground as an ANSI code: the palette index for a named
    /// colour, `0x10` for default, `0x20` for transparent, the nearest
    /// palette index for an RGB colour, `0` for a malformed field.
    pub fn ansi_fg(&self) -> (r: u8)
        ensures
            r == spec_field_ansi((self@ >> 4) & 0x3fff),
    {
        field_ansi((self.0 >> 4) & 0x3fff)
    }

    /// The background as an ANSI code, mapped as `ansi_fg` maps the
    /// foreground.
    pub fn ansi_bg(&self) -> (r: u8)
        ensures
            r == spec_field_ansi((self@ >> 18) & 0x3fff),
    {
        field_ansi((self.0 >> 18) & 0x3fff)
    }

    /// The foreground as a 12-bit RGB value; named colours go through the
    /// palette table, default maps to light gray (`0xaaa`).
    pub fn rgb12_fg(&self) -> (r: u16)
        ensures
            r == spec_field_rgb12((self@ >> 4) & 0x3fff, false),
    {
        field_rgb12((self.0 >> 4) & 0x3fff, false)
    }

    /// The background as a 12-bit RGB value; named colours go through the
    /// palette table, default and transparent map to black (`0x000`).
    pub fn rgb12_bg(&self) -> (r: u16)
        ensures
            r == spec_field_rgb12((self@ >> 18) & 0x3fff, true),
    {
        field_rgb12((self.0 >> 18) & 0x3fff, true)
    }

    /// Both colours split into ARGB nibbles.  Alpha is `0xf` except for a
    /// transparent colour, whose alpha is `0x0`.
    pub fn argb64(&self) -> (r: Argb)
        ensures
            r == spec_argb64(self@),
    {
        let ff = (self.0 >> 4) & 0x3fff;
        let bf = (self.0 >> 18) & 0x3fff;
        let frgb = field_rgb12(ff, false);
        let brgb = field_rgb12(bf, true);
        Argb {
            bg_a: if bf == 0x20 { 0x0 } else { 0xf },
            bg_r: ((brgb >> 8) & 0xf) as u8,
            bg_g: ((brgb >> 4) & 0xf) as u8,
            bg_b: (brgb & 0xf) as u8,
            fg_a: if ff == 0x20 { 0x0 } else { 0xf },
            fg_r: ((frgb >> 8) & 0xf) as u8,
            fg_g: ((frgb >> 4) & 0xf) as u8,
            fg_b: (frgb & 0xf) as u8,
        }
    }
}

/// The colours of an attribute split into 4-bit ARGB channels, each held
/// in the low nibble of its byte.
#[derive(Debug, Copy, Clone, Default, PartialEq, Eq, Structural)]
pub struct Argb {
    pub bg_a: u8,
    pub bg_r: u8,
    pub bg_g: u8,
    pub bg_b: u8,
    pub fg_a: u8,
    pub fg_r: u8,
    pub fg_g: u8,
    pub fg_b: u8,
}

/// The 12-bit RGB value of a named-colour code.  The sixteen palette
/// entries follow the classic CGA palette; the default and transparent
/// sentinels map to light gray for a foreground and black for a
/// background; malformed codes map to black.
pub open spec fn spec_named_rgb12(code: u32, is_bg: bool) -> u16 {
    if code == 0x00 {
        0x000
    } else if code == 0x01 {
        0x00a
    } else if code == 0x02 {
        0x0a0
    } else if code == 0x03 {
        0x0aa
    } else if code == 0x04 {
        0xa00
    } else if code == 0x05 {
        0xa0a
    } else if code == 0x06 {
        0xa50
    } else if code == 0x07 {
        0xaaa
    } else if code == 0x08 {
        0x555
    } else if code == 0x09 {
        0x55f
    } else if code == 0x0a {
        0x5f5
    } else if code == 0x0b {
        0x5ff
    } else if code == 0x0c {
        0xf55
    } else if code == 0x0d {
        0xf5f
    } else if code == 0x0e {
        0xff5
    } else if code == 0x0f {
        0xfff
    } else if code == 0x10 || code == 0x20 {
        if is_bg {
            0x000
        } else {
            0xaaa
        }
    } else {
        0x000
    }
}

/// The 12-bit RGB value of a 14-bit colour field.
pub open spec fn spec_field_rgb12(f: u32, is_bg: bool) -> u16 {
    if f & 0x2000 != 0 {
        if f & 0x1000 == 0 {
            (f & 0xfff) as u16
        } else {
            0x000
        }
    } else {
        spec_named_rgb12(f, is_bg)
    }
}

/// The nearest ANSI palette index of a 12-bit RGB value: one bit per
/// channel at or above half intensity (red `4`, green `2`, blue `1`),
/// plus the brightness bit (`8`) when any channel reaches `0xc`.
pub open spec fn spec_ansi_of_rgb12(v: u16) -> u8 {
    let r = (v >> 8) & 0xf;
    let g = (v >> 4) & 0xf;
    let b = v & 0xf;
    let base = (if r >= 8 {
        4u8
    } else {
        0u8
    }) | (if g >= 8 {
        2u8
    } else {
        0u8
    }) | (if b >= 8 {
        1u8
    } else {
        0u8
    });
    if r >= 0xc || g >= 0xc || b >= 0xc {
        base | 8
    } else {
        base
    }
}

/// The ANSI code of a 14-bit colour field.
pub open spec fn spec_field_ansi(f: u32) -> u8 {
    if f & 0x2000 != 0 {
        if f & 0x1000 == 0 {
            spec_ansi_of_rgb12((f & 0xfff) as u16)
        } else {
            0
        }
    } else if f <= 0x10 || f == 0x20 {
        f as u8
    } else {
        0
    }
}

/// The attribute with foreground and background colour fields swapped
/// and style bits kept.
pub open spec fn spec_invert_attr(a: u32) -> u32 {
    (a & 0xf) | (((a >> 18) & 0x3fff) << 4) | (((a >> 4) & 0x3fff) << 18)
}

/// Swapping foreground and background twice restores the attribute.
pub proof fn lemma_invert_attr_involution(a: u32)
    ensures
        spec_invert_attr(spec_invert_attr(a)) == a,
{
    let b = spec_invert_attr(a);
    assert((b & 0xf) | (((b >> 18) & 0x3fff) << 4) | (((b >> 4) & 0x3fff) << 18) == a)
        by (bit_vector)
        requires
            b == (a & 0xf) | (((a >> 18) & 0x3fff) << 4) | (((a >> 4) & 0x3fff) << 18),
    ;
}

/// The packed fg/bg ANSI byte of a whole attribute value.
pub open spec fn spec_ansi(a: u32) -> u8 {
    let fa = spec_field_ansi((a >> 4) & 0x3fff);
    let ba = spec_field_ansi((a >> 18) & 0x3fff);
    let fg_n = if fa < 16 {
        fa
    } else {
        7u8
    };
    let bg_n = if ba < 16 {
        ba
    } else {
        0u8
    };
    fg_n | (bg_n << 4)
}

/// The ARGB nibbles of a whole attribute value.
pub open spec fn spec_argb64(a: u32) -> Argb {
    let ff = (a >> 4) & 0x3fff;
    let bf = (a >> 18) & 0x3fff;
    let frgb = spec_field_rgb12(ff, false);
    let brgb = spec_field_rgb12(bf, true);
    Argb {
        bg_a: if bf == 0x20 {
            0x0
        } else {
            0xf
        },
        bg_r: ((brgb >> 8) & 0xf) as u8,
        bg_g: ((brgb >> 4) & 0xf) as u8,
        bg_b: (brgb & 0xf) as u8,
        fg_a: if ff == 0x20 {
            0x0
        } else {
            0xf
        },
        fg_r: ((frgb >> 8) & 0xf) as u8,
        fg_g: ((frgb >> 4) & 0xf) as u8,
        fg_b: (frgb & 0xf) as u8,
    }
}

/// Computes the ANSI code of one colour field.
fn field_ansi(f: u32) -> (r: u8)
    ensures
        r == spec_field_ansi(f),
{
    if f & 0x2000 != 0 {
        if f & 0x1000 == 0 {
            let v = (f & 0xfff) as u16;
            let red = (v >> 8) & 0xf;
            let g = (v >> 4) & 0xf;
            let b = v & 0xf;
            let base = (if red >= 8 {
                4u8
            } else {
                0u8
            }) | (if g >= 8 {
                2u8
            } else {
                0u8
            }) | (if b >= 8 {
                1u8
            } else {
                0u8
            });
            if red >= 0xc || g >= 0xc || b >= 0xc {
                base | 8
            } else {
                base
            }
        } else {
            0
        }
    } else if f <= 0x10 || f == 0x20 {
        f as u8
    } else {
        0
    }
}

/// Computes the 12-bit RGB value of one colour field.
fn field_rgb12(f: u32, is_bg: bool) -> (r: u16)
    ensures
        r == spec_field_rgb12(f, is_bg),
{
    if f & 0x2000 != 0 {
        if f & 0x1000 == 0 {
            (f & 0xfff) as u16
        } else {
            0x000
        }
    } else if f == 0x00 {
        0x000
    } else if f == 0x01 {
        0x00a
    } else if f == 0x02 {
        0x0a0
    } else if f == 0x03 {
        0x0aa
    } else if f == 0x04 {
        0xa00
    } else if f == 0x05 {
        0xa0a
    } else if f == 0x06 {
        0xa50
    } else if f == 0x07 {
        0xaaa
    } else if f == 0x08 {
        0x555
    } else if f == 0x09 {
        0x55f
    } else if f == 0x0a {
        0x5f5
    } else if f == 0x0b {
        0x5ff
    } else if f == 0x0c {
        0xf55
    } else if f == 0x0d {
        0xf5f
    } else if f == 0x0e {
        0xff5
    } else if f == 0x0f {
        0xfff
    } else if f == 0x10 || f == 0x20 {
        if is_bg {
            0x000
        } else {
            0xaaa
        }
    } else {
        0x000
    }
}

/// Encodes one colour into its 14-bit field.
fn field_encode(c: &AttrColor) -> (f: u32)
    requires
        c.valid(),
    ensures
        f == c.spec_field(),
{
    match c {
        AttrColor::Ansi(col) => col.to_code(),
        AttrColor::Rgb(rgb) => 0x2000u32 | (*rgb as u32),
    }
}

/// Decodes one 14-bit colour field.
fn field_decode(f: u32) -> (r: Option<AttrColor>)
    ensures
        r == spec_field_decode(f),
{
    if f & 0x2000 != 0 {
        if f & 0x1000 == 0 {
            Some(AttrColor::Rgb((f & 0xfff) as u16))
        } else {
            None
        }
    } else if f & 0x2000 == 0 && (f <= 0x10 || f == 0x20) {
        match Color::from_code(f) {
            Ok(c) => {
                proof {
                    lemma_field_decode_named(f, c);
                }
                Some(AttrColor::Ansi(c))
            },
            Err(_) => None,
        }
    } else {
        None
    }
}

/// A named-colour code below `0x2000` decodes back to that colour.
proof fn lemma_field_decode_named(f: u32, c: Color)
    requires
        Color::valid_code(f),
        c.spec_code() == f,
    ensures
        spec_field_decode(f) == Some(AttrColor::Ansi(c)),
{
    assert(f & 0x2000 == 0) by (bit_vector)
        requires
            f <= 0x20,
    ;
}


/// The converse round trip: a packed value that decodes at all is
/// exactly the encoding of what it decodes to.
pub proof fn lemma_attr_roundtrip_converse(a: u32, p: AttrParts)
    requires
        spec_decode(a) == Some(p),
    ensures
        p.valid(),
        spec_encode(p) == a,
{
    let styles = (a & 0xf) as u8;
    let ff = (a >> 4) & 0x3fff;
    let bf = (a >> 18) & 0x3fff;
    assert(a & 0xf < 16 && ff < 0x4000 && bf < 0x4000) by (bit_vector)
        requires
            ff == (a >> 4) & 0x3fff,
            bf == (a >> 18) & 0x3fff,
    ;
    lemma_field_decode_valid(ff);
    lemma_field_decode_valid(bf);
    assert((styles as u32) | (ff << 4) | (bf << 18) == a) by (bit_vector)
        requires
            styles == (a & 0xf) as u8,
            ff == (a >> 4) & 0x3fff,
            bf == (a >> 18) & 0x3fff,
    ;
}

/// A field that decodes at all is valid and re-encodes to itself.
proof fn lemma_field_decode_valid(f: u32)
    requires
        f < 0x4000,
        spec_field_decode(f) is Some,
    ensures
        spec_field_decode(f)->0.valid(),
        spec_field_decode(f)->0.spec_field() == f,
{
    if f & 0x2000 != 0 {
        assert(f & 0x1000 == 0);
        assert((f & 0xfff) < 0x1000 && (0x2000u32 | (f & 0xfff)) == f) by (bit_vector)
            requires
                f < 0x4000,
                f & 0x2000 != 0,
                f & 0x1000 == 0,
        ;
    }
}

/// Encoding then decoding restores every valid decomposed attribute
/// exactly: `decode(encode(p)) == p`.
pub proof fn lemma_attr_roundtrip(p: AttrParts)
    requires
        p.valid(),
    ensures
        spec_decode(spec_encode(p)) == Some(p),
{
    let s = p.styles as u32;
    let ff = p.fg.spec_field();
    let bf = p.bg.spec_field();
    lemma_field_valid(p.fg);
    lemma_field_valid(p.bg);
    let a = spec_encode(p);
    assert((a & 0xf) == s && ((a >> 4) & 0x3fff) == ff && ((a >> 18) & 0x3fff) == bf) by (bit_vector)
        requires
            a == s | (ff << 4) | (bf << 18),
            s < 16,
            ff < 0x4000,
            bf < 0x4000,
    ;
    lemma_field_roundtrip(p.fg);
    lemma_field_roundtrip(p.bg);
}

/// The field of a valid colour fits in 14 bits.
proof fn lemma_field_valid(c: AttrColor)
    requires
        c.valid(),
    ensures
        c.spec_field() < 0x4000,
{
    match c {
        AttrColor::Ansi(_) => {},
        AttrColor::Rgb(rgb) => {
            let r = rgb as u32;
            assert((0x2000u32 | r) < 0x4000) by (bit_vector)
                requires
                    r < 0x1000,
            ;
        },
    }
}

/// Field encoding then field decoding restores every valid colour.
proof fn lemma_field_roundtrip(c: AttrColor)
    requires
        c.valid(),
    ensures
        spec_field_decode(c.spec_field()) == Some(c),
{
    match c {
        AttrColor::Ansi(col) => {
            lemma_field_decode_named(col.spec_code(), col);
        },
        AttrColor::Rgb(rgb) => {
            let r = rgb as u32;
            let f = 0x2000u32 | r;
            assert(f & 0x2000 != 0 && f & 0x1000 == 0 && (f & 0xfff) == r) by (bit_vector)
                requires
                    f == 0x2000u32 | r,
                    r < 0x1000,
            ;
        },
    }
}

} // verus!
