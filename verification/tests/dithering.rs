//! The dithering engine: configuration validation and conversion.

use caca::dither::{Antialias, Dither, DitherAlgorithm, DitherCharset, DitherColor};
use caca::error::Error;
use caca::{Boundaries, Canvas, Point, Rectangle};

fn gray_dither(w: i32, h: i32) -> Dither {
    // An 8-bit gray bitmap: one byte per pixel, no channel masks.
    Dither::new(8, w, h, w, 0, 0, 0, 0).unwrap()
}

fn canvas(w: usize, h: usize) -> Canvas {
    Canvas::new(&Boundaries { width: w, height: h }).unwrap()
}

#[test]
fn new_validates_depth() {
    assert_eq!(Dither::new(7, 4, 4, 4, 0, 0, 0, 0).err().unwrap(), Error::InvalidDitherParams);
    assert!(Dither::new(8, 4, 4, 4, 0, 0, 0, 0).is_ok());
    assert!(Dither::new(32, 4, 4, 16, 0xff0000, 0xff00, 0xff, 0xff000000).is_ok());
}

#[test]
fn new_validates_dimensions_and_pitch() {
    assert_eq!(Dither::new(8, 0, 4, 4, 0, 0, 0, 0).err().unwrap(), Error::InvalidDitherParams);
    assert_eq!(Dither::new(8, 4, -1, 4, 0, 0, 0, 0).err().unwrap(), Error::InvalidDitherParams);
    // The stride must hold a whole row.
    assert_eq!(Dither::new(32, 4, 4, 8, 0, 0, 0, 0).err().unwrap(), Error::InvalidDitherParams);
}

#[test]
fn new_rejects_overlapping_masks() {
    assert_eq!(
        Dither::new(16, 4, 4, 8, 0xf0, 0xf8, 0x0f, 0).err().unwrap(),
        Error::InvalidDitherParams
    );
    // The alpha mask must not overlap a colour mask either.
    assert_eq!(
        Dither::new(8, 4, 4, 4, 0x1, 0x2, 0x4, 0x1).err().unwrap(),
        Error::InvalidDitherParams
    );
}

#[test]
fn new_rejects_masks_beyond_depth() {
    assert_eq!(
        Dither::new(8, 4, 4, 4, 0xf00, 0, 0, 0).err().unwrap(),
        Error::InvalidDitherParams
    );
}

#[test]
fn parameter_setters_validate_ranges() {
    let mut d = gray_dither(4, 4);
    assert_eq!(d.brightness(), 1000);
    assert_eq!(d.gamma(), 1000);
    assert_eq!(d.contrast(), 1000);
    assert_eq!(d.set_brightness(2001), Err(Error::InvalidBrightness));
    assert_eq!(d.set_brightness(-1), Err(Error::InvalidBrightness));
    assert!(d.set_brightness(500).is_ok());
    assert_eq!(d.brightness(), 500);
    assert_eq!(d.set_gamma(0), Err(Error::InvalidGamma));
    assert_eq!(d.set_gamma(-3), Err(Error::InvalidGamma));
    // Any positive gamma is accepted.
    assert!(d.set_gamma(10001).is_ok());
    assert!(d.set_gamma(2200).is_ok());
    assert_eq!(d.gamma(), 2200);
    assert_eq!(d.set_contrast(-5), Err(Error::InvalidContrast));
    assert!(d.set_contrast(1500).is_ok());
    assert_eq!(d.contrast(), 1500);
}

#[test]
fn enum_setters_store_their_value() {
    let mut d = gray_dither(4, 4);
    d.set_antialias(Antialias::Off).unwrap();
    assert_eq!(d.antialias().unwrap(), Antialias::Off);
    d.set_color(DitherColor::Mono).unwrap();
    assert_eq!(d.color().unwrap(), DitherColor::Mono);
    d.set_charset(DitherCharset::Shades).unwrap();
    assert_eq!(d.charset().unwrap(), DitherCharset::Shades);
    d.set_algorithm(DitherAlgorithm::Fstein).unwrap();
    assert_eq!(d.algorithm().unwrap(), DitherAlgorithm::Fstein);
}

#[test]
fn palette_validation() {
    let mut d = gray_dither(4, 4);
    let good = vec![0u32; 256];
    let short = vec![0u32; 255];
    let wide = {
        let mut v = vec![0u32; 256];
        v[3] = 0x1000;
        v
    };
    assert_eq!(
        d.set_palette(&short, &good, &good, &good),
        Err(Error::InvalidDitherParams)
    );
    assert_eq!(
        d.set_palette(&wide, &good, &good, &good),
        Err(Error::InvalidDitherParams)
    );
    assert!(d.set_palette(&good, &good, &good, &good).is_ok());
}

#[test]
fn convert_needs_enough_pixels() {
    let d = gray_dither(4, 4);
    let mut c = canvas(4, 4);
    let few = vec![128u8; 15];
    assert_eq!(
        d.convert(&few, &mut c, &Rectangle { x: 0, y: 0, width: 4, height: 4 }),
        Err(Error::InvalidDitherParams)
    );
}

#[test]
fn uniform_gray_plain_mono_gives_uniform_output() {
    let mut d = gray_dither(8, 8);
    d.set_algorithm(DitherAlgorithm::Off).unwrap();
    d.set_color(DitherColor::Mono).unwrap();
    let pixels = vec![150u8; 64];
    let mut c = canvas(8, 4);
    d.convert(&pixels, &mut c, &Rectangle { x: 0, y: 0, width: 8, height: 4 }).unwrap();
    let first = c.get_char(&Point { x: 0, y: 0 });
    for y in 0..4i32 {
        for x in 0..8i32 {
            assert_eq!(c.get_char(&Point { x, y }), first);
            // Mono mode writes white on black.
            assert_eq!(c.get_attr(&Point { x, y }).value(), 0x0f << 4);
        }
    }
}

#[test]
fn error_diffusion_varies_uniform_input() {
    let mut d = gray_dither(8, 8);
    d.set_algorithm(DitherAlgorithm::Fstein).unwrap();
    d.set_color(DitherColor::Mono).unwrap();
    d.set_contrast(1500).unwrap();
    let pixels = vec![150u8; 64];
    let mut c = canvas(8, 4);
    d.convert(&pixels, &mut c, &Rectangle { x: 0, y: 0, width: 8, height: 4 }).unwrap();
    let first = c.get_char(&Point { x: 0, y: 0 });
    let mut differs = false;
    for y in 0..4i32 {
        for x in 0..8i32 {
            if c.get_char(&Point { x, y }) != first {
                differs = true;
            }
        }
    }
    assert!(differs);
}

#[test]
fn convert_leaves_outside_cells_alone() {
    let d = gray_dither(4, 4);
    let pixels = vec![255u8; 16];
    let mut c = canvas(8, 8);
    c.put_char(&Point { x: 7, y: 7 }, 'k' as u32);
    d.convert(&pixels, &mut c, &Rectangle { x: 1, y: 1, width: 3, height: 3 }).unwrap();
    assert_eq!(c.get_char(&Point { x: 7, y: 7 }), 'k' as u32);
    assert_eq!(c.get_char(&Point { x: 0, y: 0 }), 0);
    // Full white lands on the densest ASCII ramp glyph.
    assert_eq!(c.get_char(&Point { x: 1, y: 1 }), '@' as u32);
}

#[test]
fn ordered_dither_stays_in_ramp() {
    let mut d = gray_dither(8, 8);
    d.set_algorithm(DitherAlgorithm::Ordered4).unwrap();
    d.set_charset(DitherCharset::Shades).unwrap();
    let pixels = vec![100u8; 64];
    let mut c = canvas(8, 8);
    d.convert(&pixels, &mut c, &Rectangle { x: 0, y: 0, width: 8, height: 8 }).unwrap();
    let ramp = [0x20u32, 0x2591, 0x2592, 0x2593, 0x2588];
    for y in 0..8i32 {
        for x in 0..8i32 {
            let ch = c.get_char(&Point { x, y });
            assert!(ramp.contains(&ch));
        }
    }
}

#[test]
fn rgb_masks_feed_the_colour_modes() {
    // 32-bit pixels, classic channel layout.
    let d = Dither::new(32, 2, 2, 8, 0x00ff0000, 0x0000ff00, 0x000000ff, 0).unwrap();
    // Four bright red pixels, little endian.
    let mut pixels = Vec::new();
    for _ in 0..4 {
        pixels.push(0u8);
        pixels.push(0u8);
        pixels.push(200u8);
        pixels.push(0u8);
    }
    let mut c = canvas(2, 2);
    d.convert(&pixels, &mut c, &Rectangle { x: 0, y: 0, width: 2, height: 2 }).unwrap();
    // Full16 mode picks the bright red palette entry: base red with the
    // brightness bit.
    assert_eq!(c.get_attr(&Point { x: 0, y: 0 }).value(), 0x0c << 4);
}

#[test]
fn enum_names_roundtrip() {
    assert_eq!(Antialias::Prefilter.to_string(), "prefilter");
    assert_eq!(Antialias::from_str("none").unwrap(), Antialias::Off);
    assert_eq!(Antialias::from_str("default").unwrap(), Antialias::Prefilter);
    assert_eq!(Antialias::from_str("blur"), Err(Error::InvalidAntialias));
    assert_eq!(DitherColor::Sixteen.to_string(), "16");
    assert_eq!(DitherColor::from_str("fullgray").unwrap(), DitherColor::FullGray);
    assert_eq!(DitherColor::from_str("default").unwrap(), DitherColor::Full16);
    assert_eq!(DitherColor::from_str("plaid"), Err(Error::InvalidColor));
    assert_eq!(DitherCharset::Blocks.to_string(), "blocks");
    assert_eq!(DitherCharset::from_str("shades").unwrap(), DitherCharset::Shades);
    assert_eq!(DitherCharset::from_str("runes"), Err(Error::InvalidCharset));
    assert_eq!(DitherAlgorithm::Fstein.to_string(), "fstein");
    assert_eq!(DitherAlgorithm::from_str("ordered8").unwrap(), DitherAlgorithm::Ordered8);
    assert_eq!(DitherAlgorithm::from_str("magic"), Err(Error::InvalidAlgorithm));
}

#[test]
fn enum_names_parse_case_insensitively() {
    assert_eq!(DitherAlgorithm::from_str("NONE").unwrap(), DitherAlgorithm::Off);
    assert_eq!(DitherAlgorithm::from_str("FStein").unwrap(), DitherAlgorithm::Fstein);
    assert_eq!(DitherColor::from_str("FullGray").unwrap(), DitherColor::FullGray);
    assert_eq!(DitherCharset::from_str("ASCII").unwrap(), DitherCharset::Ascii);
    assert_eq!(Antialias::from_str("Prefilter").unwrap(), Antialias::Prefilter);
    assert_eq!(Antialias::from_str("DEFAULT").unwrap(), Antialias::Prefilter);
}

#[test]
fn error_diffusion_first_two_cells() {
    // Uniform gray 152 with the neutral tone curve: the first cell has
    // no incoming error and lands on shade ramp position 2; its
    // quantisation error pushes the second cell to position 3.
    let mut d = gray_dither(8, 8);
    d.set_algorithm(DitherAlgorithm::Fstein).unwrap();
    d.set_charset(DitherCharset::Shades).unwrap();
    let pixels = vec![152u8; 64];
    let mut c = canvas(8, 4);
    d.convert(&pixels, &mut c, &Rectangle { x: 0, y: 0, width: 8, height: 4 }).unwrap();
    assert_eq!(c.get_char(&Point { x: 0, y: 0 }), 0x2592);
    assert_eq!(c.get_char(&Point { x: 1, y: 0 }), 0x2593);
}
