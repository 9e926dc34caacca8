//! The dithering engine: converts a bitmap (a raw pixel buffer plus a
//! format description) into character cells.
//!
//! Fractional parameters (brightness, gamma, contrast) are fixed-point
//! values in thousandths, so `1000` is the neutral setting.

use vstd::prelude::*;

use crate::MAX_DIM;
use crate::canvas::imax;
use crate::canvas::imin;
use crate::error::Error;
use vstd::string::StrSliceExecFns;

verus! {

/// Widest bitmap edge the engine accepts.
pub const MAX_BITMAP_DIM: u32 = 0x100000;

/// Antialiasing mode: `Prefilter` averages a small neighbourhood of the
/// sampled pixel before quantisation.
#[derive(Debug, Copy, Clone, PartialEq, Eq, Structural)]
pub enum Antialias {
    Off,
    Prefilter,
}

impl Default for Antialias {
    fn default() -> (r: Antialias)
        ensures
            r == Antialias::Prefilter,
    {
        Antialias::Prefilter
    }
}

/// Colour depth of the dithered output.
#[derive(Debug, Copy, Clone, PartialEq, Eq, Structural)]
pub enum DitherColor {
    Mono,
    Gray,
    Height,
    Sixteen,
    FullGray,
    Full8,
    Full16,
}

impl Default for DitherColor {
    fn default() -> (r: DitherColor)
        ensures
            r == DitherColor::Full16,
    {
        DitherColor::Full16
    }
}

/// Which glyph ramp the output cells are drawn from.
#[derive(Debug, Copy, Clone, PartialEq, Eq, Structural)]
pub enum DitherCharset {
    Ascii,
    Shades,
    Blocks,
}

impl Default for DitherCharset {
    fn default() -> (r: DitherCharset)
        ensures
            r == DitherCharset::Ascii,
    {
        DitherCharset::Ascii
    }
}

/// How quantisation rounding is decided per cell.
#[derive(Debug, Copy, Clone, PartialEq, Eq, Structural)]
pub enum DitherAlgorithm {
    Off,
    Ordered2,
    Ordered4,
    Ordered8,
    Random,
    Fstein,
}

/// A dithering configuration bound to one bitmap format.
pub struct Dither {
    pub bpp: u32,
    pub width: u32,
    pub height: u32,
    pub pitch: u32,
    pub rmask: u32,
    pub gmask: u32,
    pub bmask: u32,
    pub amask: u32,
    /// Brightness in thousandths, `0 ..= 2000`.
    pub brightness: i32,
    /// Gamma in thousandths, any positive value.
    pub gamma: i32,
    /// Contrast in thousandths, `0 ..= 2000`.
    pub contrast: i32,
    pub antialias: Antialias,
    pub color: DitherColor,
    pub charset: DitherCharset,
    pub algorithm: DitherAlgorithm,
    /// Palette planes for index-mode bitmaps; each either empty (unset)
    /// or 256 entries of 12-bit values.
    pub pal_r: Vec<u32>,
    pub pal_g: Vec<u32>,
    pub pal_b: Vec<u32>,
    pub pal_a: Vec<u32>,
}

/// The format parameters a dither can be created with: a byte-aligned
/// depth, positive dimensions, a row stride that holds a row, and
/// channel masks (alpha included) that fit the depth without any two
/// overlapping.  The bounds on the dimensions (`MAX_BITMAP_DIM` per
/// edge) and on the stride (`2^28` bytes) are implementation limits
/// that keep every pixel offset inside `usize`.
pub open spec fn spec_format_ok(
    bpp: int,
    width: int,
    height: int,
    pitch: int,
    rmask: u32,
    gmask: u32,
    bmask: u32,
    amask: u32,
) -> bool {
    &&& (bpp == 8 || bpp == 16 || bpp == 24 || bpp == 32)
    &&& 1 <= width <= MAX_BITMAP_DIM
    &&& 1 <= height <= MAX_BITMAP_DIM
    &&& width * (bpp / 8) <= pitch <= 0x10000000
    &&& rmask & gmask == 0
    &&& rmask & bmask == 0
    &&& gmask & bmask == 0
    &&& rmask & amask == 0
    &&& gmask & amask == 0
    &&& bmask & amask == 0
    &&& (bpp == 32 || ((rmask >> (bpp as u32)) == 0 && (gmask >> (bpp as u32)) == 0 && (bmask
        >> (bpp as u32)) == 0 && (amask >> (bpp as u32)) == 0))
}

impl Dither {
    /// Configuration invariant: a valid format, parameters in their
    /// documented domains, palette planes unset or full.
    pub open spec fn wf(self) -> bool {
        &&& spec_format_ok(
            self.bpp as int,
            self.width as int,
            self.height as int,
            self.pitch as int,
            self.rmask,
            self.gmask,
            self.bmask,
            self.amask,
        )
        &&& 0 <= self.brightness <= 2000
        &&& 1 <= self.gamma
        &&& 0 <= self.contrast <= 2000
        &&& (self.pal_r.len() == 0 || self.pal_r.len() == 256)
        &&& self.pal_g.len() == self.pal_r.len()
        &&& self.pal_b.len() == self.pal_r.len()
        &&& self.pal_a.len() == self.pal_r.len()
        &&& forall|k: int|
            0 <= k < self.pal_r.len() ==> (#[trigger] self.pal_r@[k]) < 0x1000 && self.pal_g@[k]
                < 0x1000 && self.pal_b@[k] < 0x1000 && self.pal_a@[k] < 0x1000
    }

    /// A fresh dither for the given bitmap format with neutral
    /// parameters.  Fails with `InvalidDitherParams` when the depth is
    /// not 8, 16, 24 or 32 bits, a dimension is out of range, the
    /// stride cannot hold a row, a mask overflows the depth, or any
    /// two of the four channel masks overlap.
    pub fn new(
        bpp: i32,
        width: i32,
        height: i32,
        pitch: i32,
        rmask: u32,
        gmask: u32,
        bmask: u32,
        amask: u32,
    ) -> (r: Result<Dither, Error>)
        ensures
            r is Ok <==> spec_format_ok(
                bpp as int,
                width as int,
                height as int,
                pitch as int,
                rmask,
                gmask,
                bmask,
                amask,
            ),
            r matches Err(e) ==> e == Error::InvalidDitherParams,
            r matches Ok(d) ==> {
                &&& d.wf()
                &&& d.bpp == bpp
                &&& d.width == width
                &&& d.height == height
                &&& d.pitch == pitch
                &&& d.rmask == rmask && d.gmask == gmask && d.bmask == bmask && d.amask == amask
                &&& d.brightness == 1000 && d.gamma == 1000 && d.contrast == 1000
                &&& d.antialias == Antialias::Prefilter
                &&& d.color == DitherColor::Full16
                &&& d.charset == DitherCharset::Ascii
                &&& d.algorithm == DitherAlgorithm::Off
                &&& d.pal_r.len() == 0
            },
    {
        let depth_ok = bpp == 8 || bpp == 16 || bpp == 24 || bpp == 32;
        if !depth_ok {
            return Err(Error::InvalidDitherParams);
        }
        if width < 1 || width > MAX_BITMAP_DIM as i32 || height < 1 || height > MAX_BITMAP_DIM
            as i32 {
            return Err(Error::InvalidDitherParams);
        }
        let bytes = (bpp / 8) as i64;
        proof {
            assert((width as int) * (bytes as int) <= 0x400000 && (width as int) * (bytes as int)
                >= 0) by (nonlinear_arith)
                requires
                    1 <= width as int <= 0x100000,
                    0 <= bytes as int <= 4,
            ;
        }
        if (pitch as i64) < (width as i64) * bytes || pitch > 0x10000000 {
            return Err(Error::InvalidDitherParams);
        }
        if rmask & gmask != 0 || rmask & bmask != 0 || gmask & bmask != 0 {
            return Err(Error::InvalidDitherParams);
        }
        if rmask & amask != 0 || gmask & amask != 0 || bmask & amask != 0 {
            return Err(Error::InvalidDitherParams);
        }
        if bpp != 32 {
            let sh = bpp as u32;
            if (rmask >> sh) != 0 || (gmask >> sh) != 0 || (bmask >> sh) != 0 || (amask >> sh)
                != 0 {
                return Err(Error::InvalidDitherParams);
            }
        }
        Ok(
            Dither {
                bpp: bpp as u32,
                width: width as u32,
                height: height as u32,
                pitch: pitch as u32,
                rmask,
                gmask,
                bmask,
                amask,
                brightness: 1000,
                gamma: 1000,
                contrast: 1000,
                antialias: Antialias::Prefilter,
                color: DitherColor::Full16,
                charset: DitherCharset::Ascii,
                algorithm: DitherAlgorithm::Off,
                pal_r: Vec::new(),
                pal_g: Vec::new(),
                pal_b: Vec::new(),
                pal_a: Vec::new(),
            },
        )
    }

    /// Installs a 256-entry palette of 12-bit channel values, used when
    /// the bitmap's colour masks are all zero (index mode).  Fails with
    /// `InvalidDitherParams` when a plane is not 256 entries long or an
    /// entry exceeds 12 bits.
    pub fn set_palette(&mut self, red: &[u32], green: &[u32], blue: &[u32], alpha: &[u32]) -> (r:
        Result<(), Error>)
        requires
            old(self).wf(),
        ensures
            final(self).wf(),
            r is Ok <==> (red@.len() == 256 && green@.len() == 256 && blue@.len() == 256
                && alpha@.len() == 256 && (forall|k: int|
                0 <= k < 256 ==> (#[trigger] red@[k]) < 0x1000 && green@[k] < 0x1000 && blue@[k]
                    < 0x1000 && alpha@[k] < 0x1000)),
            r matches Err(e) ==> e == Error::InvalidDitherParams && *final(self) == *old(self),
            r is Ok ==> final(self).pal_r@ == red@ && final(self).pal_g@ == green@
                && final(self).pal_b@ == blue@ && final(self).pal_a@ == alpha@,
            r is Ok ==> *final(self) == (Dither {
                pal_r: final(self).pal_r,
                pal_g: final(self).pal_g,
                pal_b: final(self).pal_b,
                pal_a: final(self).pal_a,
                ..*old(self)
            }),
    {
        if red.len() != 256 || green.len() != 256 || blue.len() != 256 || alpha.len() != 256 {
            return Err(Error::InvalidDitherParams);
        }
        let mut i: usize = 0;
        while i < 256
            invariant
                *self == *old(self),
                old(self).wf(),
                i <= 256,
                red@.len() == 256,
                green@.len() == 256,
                blue@.len() == 256,
                alpha@.len() == 256,
                forall|k: int|
                    0 <= k < i ==> (#[trigger] red@[k]) < 0x1000 && green@[k] < 0x1000
                        && blue@[k] < 0x1000 && alpha@[k] < 0x1000,
            decreases 256 - i,
        {
            if red[i] >= 0x1000 || green[i] >= 0x1000 || blue[i] >= 0x1000 || alpha[i] >= 0x1000 {
                return Err(Error::InvalidDitherParams);
            }
            i += 1;
        }
        let mut pr: Vec<u32> = Vec::new();
        let mut pg: Vec<u32> = Vec::new();
        let mut pb: Vec<u32> = Vec::new();
        let mut pa: Vec<u32> = Vec::new();
        let mut j: usize = 0;
        while j < 256
            invariant
                j <= 256,
                red@.len() == 256,
                green@.len() == 256,
                blue@.len() == 256,
                alpha@.len() == 256,
                pr@ == red@.take(j as int),
                pg@ == green@.take(j as int),
                pb@ == blue@.take(j as int),
                pa@ == alpha@.take(j as int),
            decreases 256 - j,
        {
            pr.push(red[j]);
            pg.push(green[j]);
            pb.push(blue[j]);
            pa.push(alpha[j]);
            proof {
                assert(pr@ =~= red@.take(j + 1));
                assert(pg@ =~= green@.take(j + 1));
                assert(pb@ =~= blue@.take(j + 1));
                assert(pa@ =~= alpha@.take(j + 1));
            }
            j += 1;
        }
        proof {
            assert(pr@ =~= red@);
            assert(pg@ =~= green@);
            assert(pb@ =~= blue@);
            assert(pa@ =~= alpha@);
        }
        self.pal_r = pr;
        self.pal_g = pg;
        self.pal_b = pb;
        self.pal_a = pa;
        Ok(())
    }

    /// Sets the brightness, in thousandths; rejects values outside
    /// `0 ..= 2000` with `InvalidBrightness`.
    pub fn set_brightness(&mut self, brightness: i32) -> (r: Result<(), Error>)
        requires
            old(self).wf(),
        ensures
            final(self).wf(),
            r is Ok <==> 0 <= brightness <= 2000,
            r matches Err(e) ==> e == Error::InvalidBrightness && *final(self) == *old(self),
            r is Ok ==> *final(self) == (Dither { brightness, ..*old(self) }),
    {
        if brightness < 0 || brightness > 2000 {
            return Err(Error::InvalidBrightness);
        }
        self.brightness = brightness;
        Ok(())
    }

    /// The current brightness in thousandths.
    pub fn brightness(&self) -> (r: i32)
        ensures
            r == self.brightness,
    {
        self.brightness
    }

    /// Sets the gamma, in thousandths; rejects non-positive values with
    /// `InvalidGamma`.
    pub fn set_gamma(&mut self, gamma: i32) -> (r: Result<(), Error>)
        requires
            old(self).wf(),
        ensures
            final(self).wf(),
            r is Ok <==> gamma >= 1,
            r matches Err(e) ==> e == Error::InvalidGamma && *final(self) == *old(self),
            r is Ok ==> *final(self) == (Dither { gamma, ..*old(self) }),
    {
        if gamma < 1 {
            return Err(Error::InvalidGamma);
        }
        self.gamma = gamma;
        Ok(())
    }

    /// The current gamma in thousandths.
    pub fn gamma(&self) -> (r: i32)
        ensures
            r == self.gamma,
    {
        self.gamma
    }

    /// Sets the contrast, in thousandths; rejects values outside
    /// `0 ..= 2000` with `InvalidContrast`.
    pub fn set_contrast(&mut self, contrast: i32) -> (r: Result<(), Error>)
        requires
            old(self).wf(),
        ensures
            final(self).wf(),
            r is Ok <==> 0 <= contrast <= 2000,
            r matches Err(e) ==> e == Error::InvalidContrast && *final(self) == *old(self),
            r is Ok ==> *final(self) == (Dither { contrast, ..*old(self) }),
    {
        if contrast < 0 || contrast > 2000 {
            return Err(Error::InvalidContrast);
        }
        self.contrast = contrast;
        Ok(())
    }

    /// The current contrast in thousandths.
    pub fn contrast(&self) -> (r: i32)
        ensures
            r == self.contrast,
    {
        self.contrast
    }

    /// Sets the antialiasing mode; every variant is valid.
    pub fn set_antialias(&mut self, antialias: Antialias) -> (r: Result<(), Error>)
        requires
            old(self).wf(),
        ensures
            final(self).wf(),
            r is Ok,
            *final(self) == (Dither { antialias, ..*old(self) }),
    {
        self.antialias = antialias;
        Ok(())
    }

    /// The current antialiasing mode.
    pub fn antialias(&self) -> (r: Result<Antialias, Error>)
        ensures
            r == Ok::<Antialias, Error>(self.antialias),
    {
        Ok(self.antialias)
    }

    /// Sets the output colour mode; every variant is valid.
    pub fn set_color(&mut self, color: DitherColor) -> (r: Result<(), Error>)
        requires
            old(self).wf(),
        ensures
            final(self).wf(),
            r is Ok,
            *final(self) == (Dither { color, ..*old(self) }),
    {
        self.color = color;
        Ok(())
    }

    /// The current output colour mode.
    pub fn color(&self) -> (r: Result<DitherColor, Error>)
        ensures
            r == Ok::<DitherColor, Error>(self.color),
    {
        Ok(self.color)
    }

    /// Sets the glyph ramp; every variant is valid.
    pub fn set_charset(&mut self, charset: DitherCharset) -> (r: Result<(), Error>)
        requires
            old(self).wf(),
        ensures
            final(self).wf(),
            r is Ok,
            *final(self) == (Dither { charset, ..*old(self) }),
    {
        self.charset = charset;
        Ok(())
    }

    /// The current glyph ramp.
    pub fn charset(&self) -> (r: Result<DitherCharset, Error>)
        ensures
            r == Ok::<DitherCharset, Error>(self.charset),
    {
        Ok(self.charset)
    }

    /// Sets the dithering algorithm; every variant is valid.
    pub fn set_algorithm(&mut self, algorithm: DitherAlgorithm) -> (r: Result<(), Error>)
        requires
            old(self).wf(),
        ensures
            final(self).wf(),
            r is Ok,
            *final(self) == (Dither { algorithm, ..*old(self) }),
    {
        self.algorithm = algorithm;
        Ok(())
    }

    /// The current dithering algorithm.
    pub fn algorithm(&self) -> (r: Result<DitherAlgorithm, Error>)
        ensures
            r == Ok::<DitherAlgorithm, Error>(self.algorithm),
    {
        Ok(self.algorithm)
    }
}

/// Clamps a value into `0 ..= 255`.
pub open spec fn spec_clamp255(v: int) -> int {
    if v < 0 {
        0
    } else if v > 255 {
        255
    } else {
        v
    }
}

/// The little-endian pixel value of `nb` bytes at `off`.
pub open spec fn spec_pixel(data: Seq<u8>, off: int, nb: int) -> u32 {
    if nb == 1 {
        data[off] as u32
    } else if nb == 2 {
        (data[off] as u32) | ((data[off + 1] as u32) << 8)
    } else if nb == 3 {
        (data[off] as u32) | ((data[off + 1] as u32) << 8) | ((data[off + 2] as u32) << 16)
    } else {
        (data[off] as u32) | ((data[off + 1] as u32) << 8) | ((data[off + 2] as u32) << 16) | ((
        data[off + 3] as u32) << 24)
    }
}

/// A masked channel scaled to `0 ..= 255` (`0` for an absent mask).
pub open spec fn spec_channel(p: u32, mask: u32, shift: u32, maxv: u32) -> int {
    if mask == 0 || maxv == 0 {
        0
    } else {
        let v = ((p & mask) >> shift) as int;
        if v * 255 / (maxv as int) > 255 {
            255
        } else {
            v * 255 / (maxv as int)
        }
    }
}

/// The shift of a channel mask: the position of its lowest set bit.
pub open spec fn mask_shift_ok(mask: u32, shift: u32, maxv: u32) -> bool {
    if mask == 0 {
        shift == 0 && maxv == 0
    } else {
        shift < 32 && maxv == mask >> shift && maxv & 1 == 1 && mask == maxv << shift && maxv >= 1
    }
}

/// The red, green and blue values (`0 ..= 255` each) the dither reads
/// for source pixel `(sx, sy)`.  With all colour masks zero the bitmap
/// is an index or gray bitmap: the pixel's low byte either looks up the
/// palette or is used directly.
pub open spec fn spec_rgb(
    d: Dither,
    data: Seq<u8>,
    rsh: u32,
    rmx: u32,
    gsh: u32,
    gmx: u32,
    bsh: u32,
    bmx: u32,
    sx: int,
    sy: int,
) -> (int, int, int) {
    let nb = d.bpp as int / 8;
    let p = spec_pixel(data, sy * (d.pitch as int) + sx * nb, nb);
    if d.rmask == 0 && d.gmask == 0 && d.bmask == 0 {
        let idx = (p & 0xff) as int;
        if d.pal_r.len() == 256 {
            (
                (d.pal_r@[idx] as int) * 255 / 0xfff,
                (d.pal_g@[idx] as int) * 255 / 0xfff,
                (d.pal_b@[idx] as int) * 255 / 0xfff,
            )
        } else {
            let g = (p & 0xff) as int;
            (g, g, g)
        }
    } else {
        (
            spec_channel(p, d.rmask, rsh, rmx),
            spec_channel(p, d.gmask, gsh, gmx),
            spec_channel(p, d.bmask, bsh, bmx),
        )
    }
}

/// Rec. 601 luminance of an RGB triple.
pub open spec fn spec_luma(r: int, g: int, b: int) -> int {
    (299 * r + 587 * g + 114 * b) / 1000
}

/// The fixed-point tone curve: brightness, then contrast about the
/// midpoint, then a gamma-like midtone lift, each clamped to a byte.
/// (Every division is on a non-negative dividend.)
pub open spec fn spec_tone(d: Dither, l: int) -> int {
    let t1 = spec_clamp255(l * (d.brightness as int) / 1000);
    let t2 = spec_clamp255(
        if t1 >= 128 {
            128 + (t1 - 128) * (d.contrast as int) / 1000
        } else {
            128 - (128 - t1) * (d.contrast as int) / 1000
        },
    );
    if d.gamma >= 1000 {
        spec_clamp255(t2 + ((d.gamma as int) - 1000) * ((255 - t2) * t2) / 255000)
    } else {
        spec_clamp255(t2 - (1000 - (d.gamma as int)) * ((255 - t2) * t2) / 255000)
    }
}

/// The 2 by 2 ordered-dither base matrix.
pub open spec fn spec_bayer2(i: int, j: int) -> int {
    if i == 0 && j == 0 {
        0
    } else if i == 1 && j == 0 {
        2
    } else if i == 0 && j == 1 {
        3
    } else {
        1
    }
}

/// The ordered-dither matrix of side `n` (2, 4 or 8), built by the
/// standard recurrence; entries lie in `0 .. n*n`.
pub open spec fn spec_bayer(n: int, i: int, j: int) -> int
    decreases n,
{
    if n <= 2 {
        spec_bayer2(i, j)
    } else {
        4 * spec_bayer(n / 2, i % (n / 2), j % (n / 2)) + spec_bayer2(i / (n / 2), j / (n / 2))
    }
}

/// The deterministic coordinate noise used by the `Random` algorithm.
pub open spec fn spec_noise(x: int, y: int) -> int {
    (x * 40503 + y * 30103) % 256
}

/// The luminance actually quantised at cell `(x, y)`: the toned value
/// perturbed by the algorithm's threshold pattern.
pub open spec fn spec_adjust(d: Dither, l: int, x: int, y: int) -> int {
    match d.algorithm {
        DitherAlgorithm::Off => l,
        DitherAlgorithm::Ordered2 => spec_clamp255(l + spec_bayer(2, x % 2, y % 2) * 256 / 4 - 96),
        DitherAlgorithm::Ordered4 => spec_clamp255(
            l + spec_bayer(4, x % 4, y % 4) * 256 / 16 - 120,
        ),
        DitherAlgorithm::Ordered8 => spec_clamp255(
            l + spec_bayer(8, x % 8, y % 8) * 256 / 64 - 126,
        ),
        DitherAlgorithm::Random => spec_clamp255(l + spec_noise(x, y) - 128),
        DitherAlgorithm::Fstein => l,
    }
}

/// How many glyphs a charset's ramp holds.
pub open spec fn spec_ramp_len(cs: DitherCharset) -> int {
    match cs {
        DitherCharset::Ascii => 10,
        DitherCharset::Shades => 5,
        DitherCharset::Blocks => 5,
    }
}

/// The glyph at position `i` of a charset's density ramp.
pub open spec fn spec_ramp(cs: DitherCharset, i: int) -> u32 {
    match cs {
        DitherCharset::Ascii => {
            if i <= 0 {
                0x20
            } else if i == 1 {
                0x2e
            } else if i == 2 {
                0x3a
            } else if i == 3 {
                0x2d
            } else if i == 4 {
                0x3d
            } else if i == 5 {
                0x2b
            } else if i == 6 {
                0x2a
            } else if i == 7 {
                0x23
            } else if i == 8 {
                0x25
            } else {
                0x40
            }
        },
        DitherCharset::Shades => {
            if i <= 0 {
                0x20
            } else if i == 1 {
                0x2591
            } else if i == 2 {
                0x2592
            } else if i == 3 {
                0x2593
            } else {
                0x2588
            }
        },
        DitherCharset::Blocks => {
            if i <= 0 {
                0x20
            } else if i == 1 {
                0x2582
            } else if i == 2 {
                0x2584
            } else if i == 3 {
                0x2586
            } else {
                0x2588
            }
        },
    }
}

/// True when `c` is one of the charset's ramp glyphs.
pub open spec fn in_ramp(cs: DitherCharset, c: u32) -> bool {
    exists|i: int| 0 <= i < spec_ramp_len(cs) && spec_ramp(cs, i) == c
}

/// The foreground ANSI code of an output cell, from its RGB triple:
/// white for mono, light gray for the gray modes, a 3-bit palette index
/// for the 8-colour modes and a 4-bit index (with a brightness bit) for
/// the 16-colour modes.
pub open spec fn spec_fg(mode: DitherColor, r: int, g: int, b: int) -> u32 {
    match mode {
        DitherColor::Mono => 0x0f,
        DitherColor::Gray => 0x07,
        DitherColor::FullGray => 0x07,
        DitherColor::Height => (if r >= 128 {
            4int
        } else {
            0int
        } + if g >= 128 {
            2int
        } else {
            0int
        } + if b >= 128 {
            1int
        } else {
            0int
        }) as u32,
        DitherColor::Full8 => (if r >= 128 {
            4int
        } else {
            0int
        } + if g >= 128 {
            2int
        } else {
            0int
        } + if b >= 128 {
            1int
        } else {
            0int
        }) as u32,
        DitherColor::Sixteen => ((if r >= 128 {
            4int
        } else {
            0int
        } + if g >= 128 {
            2int
        } else {
            0int
        } + if b >= 128 {
            1int
        } else {
            0int
        }) + if r >= 192 || g >= 192 || b >= 192 {
            8int
        } else {
            0int
        }) as u32,
        DitherColor::Full16 => ((if r >= 128 {
            4int
        } else {
            0int
        } + if g >= 128 {
            2int
        } else {
            0int
        } + if b >= 128 {
            1int
        } else {
            0int
        }) + if r >= 192 || g >= 192 || b >= 192 {
            8int
        } else {
            0int
        }) as u32,
    }
}

/// The source pixel sampled for output cell `(x, y)` of the target
/// rectangle `rect`.
pub open spec fn spec_src_x(d: Dither, rect: crate::Rectangle, x: int) -> int {
    (x - rect.x) * (d.width as int) / (rect.width as int)
}

pub open spec fn spec_src_y(d: Dither, rect: crate::Rectangle, y: int) -> int {
    (y - rect.y) * (d.height as int) / (rect.height as int)
}

/// The luminance sampled for an output cell: the sample pixel itself,
/// or (with prefiltering) the average of it and its right, lower and
/// diagonal neighbours, clamped at the bitmap edge.
pub open spec fn spec_sample(
    d: Dither,
    data: Seq<u8>,
    rsh: u32,
    rmx: u32,
    gsh: u32,
    gmx: u32,
    bsh: u32,
    bmx: u32,
    sx: int,
    sy: int,
) -> int {
    let rgb = spec_rgb(d, data, rsh, rmx, gsh, gmx, bsh, bmx, sx, sy);
    let l00 = spec_luma(rgb.0, rgb.1, rgb.2);
    match d.antialias {
        Antialias::Off => l00,
        Antialias::Prefilter => {
            let sx1 = if sx + 1 < d.width as int {
                sx + 1
            } else {
                sx
            };
            let sy1 = if sy + 1 < d.height as int {
                sy + 1
            } else {
                sy
            };
            let p10 = spec_rgb(d, data, rsh, rmx, gsh, gmx, bsh, bmx, sx1, sy);
            let p01 = spec_rgb(d, data, rsh, rmx, gsh, gmx, bsh, bmx, sx, sy1);
            let p11 = spec_rgb(d, data, rsh, rmx, gsh, gmx, bsh, bmx, sx1, sy1);
            (l00 + spec_luma(p10.0, p10.1, p10.2) + spec_luma(p01.0, p01.1, p01.2) + spec_luma(
                p11.0,
                p11.1,
                p11.2,
            )) / 4
        },
    }
}

/// The character an output cell receives under every algorithm except
/// error diffusion: the ramp glyph indexed by the adjusted luminance.
pub open spec fn spec_cell_char(
    d: Dither,
    data: Seq<u8>,
    rsh: u32,
    rmx: u32,
    gsh: u32,
    gmx: u32,
    bsh: u32,
    bmx: u32,
    rect: crate::Rectangle,
    x: int,
    y: int,
) -> u32 {
    let sx = spec_src_x(d, rect, x);
    let sy = spec_src_y(d, rect, y);
    let l = spec_tone(d, spec_sample(d, data, rsh, rmx, gsh, gmx, bsh, bmx, sx, sy));
    let adj = spec_adjust(d, l, x, y);
    spec_ramp(d.charset, adj * spec_ramp_len(d.charset) / 256)
}

/// Splits a channel mask into its shift and its shifted maximum.
pub fn mask_decompose(mask: u32) -> (r: (u32, u32))
    ensures
        mask_shift_ok(mask, r.0, r.1),
{
    if mask == 0 {
        return (0, 0);
    }
    let mut m = mask;
    let mut sh: u32 = 0;
    proof {
        assert(mask >> 0u32 == mask && mask << 0u32 == mask) by (bit_vector);
    }
    while m & 1 == 0
        invariant
            mask != 0,
            m == mask >> sh,
            mask == m << sh,
            m != 0,
            sh < 32,
        decreases m,
    {
        proof {
            let m0 = m;
            assert(m0 & 1 == 0 && m0 != 0 ==> (m0 >> 1) != 0 && (m0 >> 1) < m0 && ((m0 >> 1) << 1)
                == m0) by (bit_vector);
            assert(forall|a: u32, s: u32|
                s < 31 && ((a >> 1) << 1) == a ==> #[trigger] ((a >> 1) << (s + 1)) == a << s)
                by (bit_vector);
            assert(forall|a: u32, s: u32|
                s < 31 ==> #[trigger] ((a >> s) >> 1) == a >> (s + 1)) by (bit_vector);
            assert(forall|a: u32, s: u32| s >= 32 ==> #[trigger] (a >> s) == 0) by (bit_vector);
            assert(sh < 31) by {
                if sh == 31 {
                    assert(m == mask >> 31 && m != 0 && m & 1 == 0 ==> false) by (bit_vector);
                }
            }
        }
        m = m >> 1;
        sh = sh + 1;
    }
    proof {
        let mf = m;
        assert(mf & 1 != 0 ==> mf & 1 == 1) by (bit_vector);
        assert(m >= 1);
    }
    (sh, m)
}

/// Reads the pixel at `(sx, sy)` of the bitmap.
fn pixel_at(d: &Dither, pixels: &[u8], sx: u32, sy: u32) -> (p: u32)
    requires
        d.wf(),
        sx < d.width,
        sy < d.height,
        pixels@.len() >= (d.pitch as int) * (d.height as int),
    ensures
        p == spec_pixel(
            pixels@,
            (sy as int) * (d.pitch as int) + (sx as int) * (d.bpp as int / 8),
            d.bpp as int / 8,
        ),
{
    let nb: usize = (d.bpp / 8) as usize;
    let total = pixels.len();
    proof {
        lemma_pixel_offset(
            d.pitch as int,
            d.height as int,
            d.width as int,
            nb as int,
            sx as int,
            sy as int,
        );
        assert((d.pitch as int) * (d.height as int) >= 0) by (nonlinear_arith)
            requires
                d.pitch >= 0 && d.height >= 0,
        ;
    }
    let off: usize = (sy as usize) * (d.pitch as usize) + (sx as usize) * nb;
    let b0 = pixels[off] as u32;
    if nb == 1 {
        b0
    } else if nb == 2 {
        b0 | ((pixels[off + 1] as u32) << 8u32)
    } else if nb == 3 {
        b0 | ((pixels[off + 1] as u32) << 8u32) | ((pixels[off + 2] as u32) << 16u32)
    } else {
        b0 | ((pixels[off + 1] as u32) << 8u32) | ((pixels[off + 2] as u32) << 16u32) | ((
        pixels[off + 3] as u32) << 24u32)
    }
}

/// A pixel's bytes lie inside the buffer: its offset plus its width is
/// at most `pitch * height`.
proof fn lemma_pixel_offset(pitch: int, height: int, width: int, nb: int, sx: int, sy: int)
    requires
        0 <= sx < width,
        0 <= sy < height,
        1 <= nb,
        width * nb <= pitch,
    ensures
        0 <= sy * pitch + sx * nb,
        sy * pitch + sx * nb + nb <= pitch * height,
{
    assert(0 <= sy * pitch + sx * nb && sy * pitch + sx * nb + nb <= pitch * height)
        by (nonlinear_arith)
        requires
            0 <= sx < width,
            0 <= sy < height,
            1 <= nb,
            width * nb <= pitch,
    ;
}

/// Computes the scaled value of one channel.
fn channel_exec(p: u32, mask: u32, shift: u32, maxv: u32) -> (r: u32)
    requires
        mask_shift_ok(mask, shift, maxv),
    ensures
        r == spec_channel(p, mask, shift, maxv),
        r <= 255,
{
    if mask == 0 {
        0
    } else {
        let v: u64 = ((p & mask) >> shift) as u64;
        let s: u64 = v * 255 / (maxv as u64);
        if s > 255 {
            255
        } else {
            s as u32
        }
    }
}

/// Computes the RGB triple the dither reads at `(sx, sy)`.
fn rgb_at(
    d: &Dither,
    pixels: &[u8],
    rsh: u32,
    rmx: u32,
    gsh: u32,
    gmx: u32,
    bsh: u32,
    bmx: u32,
    sx: u32,
    sy: u32,
) -> (r: (u32, u32, u32))
    requires
        d.wf(),
        mask_shift_ok(d.rmask, rsh, rmx),
        mask_shift_ok(d.gmask, gsh, gmx),
        mask_shift_ok(d.bmask, bsh, bmx),
        sx < d.width,
        sy < d.height,
        pixels@.len() >= (d.pitch as int) * (d.height as int),
    ensures
        (r.0 as int, r.1 as int, r.2 as int) == spec_rgb(
            *d,
            pixels@,
            rsh,
            rmx,
            gsh,
            gmx,
            bsh,
            bmx,
            sx as int,
            sy as int,
        ),
        r.0 <= 255 && r.1 <= 255 && r.2 <= 255,
{
    let p = pixel_at(d, pixels, sx, sy);
    if d.rmask == 0 && d.gmask == 0 && d.bmask == 0 {
        proof {
            assert(p & 0xff < 256) by (bit_vector);
        }
        let idx = (p & 0xff) as usize;
        if d.pal_r.len() == 256 {
            let pr = (d.pal_r[idx] as u64) * 255 / 0xfff;
            let pg = (d.pal_g[idx] as u64) * 255 / 0xfff;
            let pb = (d.pal_b[idx] as u64) * 255 / 0xfff;
            (pr as u32, pg as u32, pb as u32)
        } else {
            let g = p & 0xff;
            (g, g, g)
        }
    } else {
        (
            channel_exec(p, d.rmask, rsh, rmx),
            channel_exec(p, d.gmask, gsh, gmx),
            channel_exec(p, d.bmask, bsh, bmx),
        )
    }
}

/// Computes the luminance of a triple of byte channels.
fn luma_exec(r: u32, g: u32, b: u32) -> (l: u32)
    requires
        r <= 255,
        g <= 255,
        b <= 255,
    ensures
        l == spec_luma(r as int, g as int, b as int),
        l <= 255,
{
    (299 * r + 587 * g + 114 * b) / 1000
}

/// Computes the tone curve.
fn tone_exec(d: &Dither, l: u32) -> (t: u32)
    requires
        d.wf(),
        l <= 255,
    ensures
        t == spec_tone(*d, l as int),
        t <= 255,
{
    proof {
        assert(0 <= (l as int) * (d.brightness as int) <= 0x100000) by (nonlinear_arith)
            requires
                0 <= l as int <= 255,
                0 <= d.brightness as int <= 2000,
        ;
    }
    let t1u: i64 = (l as i64) * (d.brightness as i64) / 1000;
    let t1: i64 = if t1u < 0 {
        0
    } else if t1u > 255 {
        255
    } else {
        t1u
    };
    proof {
        assert(forall|a: int, c: int|
            0 <= a <= 128 && 0 <= c <= 2000 ==> 0 <= #[trigger] (a * c) <= 0x40000)
            by (nonlinear_arith);
    }
    let t2u: i64 = if t1 >= 128 {
        128 + (t1 - 128) * (d.contrast as i64) / 1000
    } else {
        128 - (128 - t1) * (d.contrast as i64) / 1000
    };
    let t2: i64 = if t2u < 0 {
        0
    } else if t2u > 255 {
        255
    } else {
        t2u
    };
    proof {
        assert(forall|a: int, b: int|
            0 <= a <= 255 && 0 <= b <= 255 ==> 0 <= #[trigger] (a * b) <= 0x10000)
            by (nonlinear_arith);
        assert(forall|g: int, p: int|
            0 <= g <= 0x80000000 && 0 <= p <= 0x10000 ==> 0 <= #[trigger] (g * p)
                <= 0x800000000000) by (nonlinear_arith);
    }
    let t3u: i64 = if d.gamma >= 1000 {
        t2 + ((d.gamma as i64) - 1000) * ((255 - t2) * t2) / 255000
    } else {
        t2 - (1000 - (d.gamma as i64)) * ((255 - t2) * t2) / 255000
    };
    let t3: i64 = if t3u < 0 {
        0
    } else if t3u > 255 {
        255
    } else {
        t3u
    };
    t3 as u32
}

/// Computes an ordered-dither matrix entry.
fn bayer_exec(n: u32, i: u32, j: u32) -> (r: u32)
    requires
        n == 2 || n == 4 || n == 8,
        i < n,
        j < n,
    ensures
        r == spec_bayer(n as int, i as int, j as int),
        r < n * n,
    decreases n,
{
    if n == 2 {
        if i == 0 && j == 0 {
            0
        } else if i == 1 && j == 0 {
            2
        } else if i == 0 && j == 1 {
            3
        } else {
            1
        }
    } else {
        let half = n / 2;
        let inner = bayer_exec(half, i % half, j % half);
        let outer: u32 = {
            let ii = i / half;
            let jj = j / half;
            if ii == 0 && jj == 0 {
                0
            } else if ii == 1 && jj == 0 {
                2
            } else if ii == 0 && jj == 1 {
                3
            } else {
                1
            }
        };
        proof {
            assert(spec_bayer2((i / half) as int, (j / half) as int) == outer);
            assert((i % half) as int == (i as int) % (half as int));
            assert((i / half) as int == (i as int) / (half as int));
            assert((j % half) as int == (j as int) % (half as int));
            assert((j / half) as int == (j as int) / (half as int));
            assert(4 * inner + outer < n * n) by (nonlinear_arith)
                requires
                    inner < half * half,
                    outer <= 3,
                    n == 2 * half,
                    half >= 1,
            ;
        }
        4 * inner + outer
    }
}

/// Applies the algorithm's threshold pattern to a toned luminance.
fn adjust_exec(d: &Dither, l: u32, x: u32, y: u32) -> (r: u32)
    requires
        d.wf(),
        l <= 255,
    ensures
        r == spec_adjust(*d, l as int, x as int, y as int),
        r <= 255,
{
    let v: i64 = match d.algorithm {
        DitherAlgorithm::Off => { return l },
        DitherAlgorithm::Ordered2 => l as i64 + (bayer_exec(2, x % 2, y % 2) as i64) * 256 / 4
            - 96,
        DitherAlgorithm::Ordered4 => l as i64 + (bayer_exec(4, x % 4, y % 4) as i64) * 256 / 16
            - 120,
        DitherAlgorithm::Ordered8 => l as i64 + (bayer_exec(8, x % 8, y % 8) as i64) * 256 / 64
            - 126,
        DitherAlgorithm::Random => l as i64 + ((x as i64) * 40503 + (y as i64) * 30103) % 256
            - 128,
        DitherAlgorithm::Fstein => { return l },
    };
    if v < 0 {
        0
    } else if v > 255 {
        255
    } else {
        v as u32
    }
}

/// The ramp length of a charset.
fn ramp_len_exec(cs: DitherCharset) -> (n: u32)
    ensures
        n == spec_ramp_len(cs),
{
    match cs {
        DitherCharset::Ascii => 10,
        DitherCharset::Shades => 5,
        DitherCharset::Blocks => 5,
    }
}

/// The ramp glyph at a position.
fn ramp_exec(cs: DitherCharset, i: u32) -> (c: u32)
    ensures
        c == spec_ramp(cs, i as int),
        in_ramp(cs, c),
{
    let c = match cs {
        DitherCharset::Ascii => {
            if i == 0 {
                0x20
            } else if i == 1 {
                0x2e
            } else if i == 2 {
                0x3a
            } else if i == 3 {
                0x2d
            } else if i == 4 {
                0x3d
            } else if i == 5 {
                0x2b
            } else if i == 6 {
                0x2a
            } else if i == 7 {
                0x23
            } else if i == 8 {
                0x25
            } else {
                0x40
            }
        },
        DitherCharset::Shades => {
            if i == 0 {
                0x20
            } else if i == 1 {
                0x2591
            } else if i == 2 {
                0x2592
            } else if i == 3 {
                0x2593
            } else {
                0x2588
            }
        },
        DitherCharset::Blocks => {
            if i == 0 {
                0x20
            } else if i == 1 {
                0x2582
            } else if i == 2 {
                0x2584
            } else if i == 3 {
                0x2586
            } else {
                0x2588
            }
        },
    };
    proof {
        let ii: int = if i as int >= spec_ramp_len(cs) {
            spec_ramp_len(cs) - 1
        } else {
            i as int
        };
        if spec_ramp(cs, i as int) == c {
            assert(0 <= ii < spec_ramp_len(cs) && spec_ramp(cs, ii) == c);
        }
    }
    c
}

/// The foreground code for a cell's RGB triple.
fn fg_exec(mode: DitherColor, r: u32, g: u32, b: u32) -> (f: u32)
    requires
        r <= 255,
        g <= 255,
        b <= 255,
    ensures
        f == spec_fg(mode, r as int, g as int, b as int),
        f <= 0x0f,
{
    match mode {
        DitherColor::Mono => 0x0f,
        DitherColor::Gray => 0x07,
        DitherColor::FullGray => 0x07,
        DitherColor::Height => (if r >= 128 {
            4u32
        } else {
            0u32
        }) + (if g >= 128 {
            2u32
        } else {
            0u32
        }) + (if b >= 128 {
            1u32
        } else {
            0u32
        }),
        DitherColor::Full8 => (if r >= 128 {
            4u32
        } else {
            0u32
        }) + (if g >= 128 {
            2u32
        } else {
            0u32
        }) + (if b >= 128 {
            1u32
        } else {
            0u32
        }),
        DitherColor::Sixteen => (if r >= 128 {
            4u32
        } else {
            0u32
        }) + (if g >= 128 {
            2u32
        } else {
            0u32
        }) + (if b >= 128 {
            1u32
        } else {
            0u32
        }) + (if r >= 192 || g >= 192 || b >= 192 {
            8u32
        } else {
            0u32
        }),
        DitherColor::Full16 => (if r >= 128 {
            4u32
        } else {
            0u32
        }) + (if g >= 128 {
            2u32
        } else {
            0u32
        }) + (if b >= 128 {
            1u32
        } else {
            0u32
        }) + (if r >= 192 || g >= 192 || b >= 192 {
            8u32
        } else {
            0u32
        }),
    }
}

/// The packed attribute an output cell receives: the mode's foreground
/// colour on a black background, no styles.
pub open spec fn spec_cell_attr(
    d: Dither,
    data: Seq<u8>,
    rsh: u32,
    rmx: u32,
    gsh: u32,
    gmx: u32,
    bsh: u32,
    bmx: u32,
    rect: crate::Rectangle,
    x: int,
    y: int,
) -> u32 {
    let sx = spec_src_x(d, rect, x);
    let sy = spec_src_y(d, rect, y);
    let rgb = spec_rgb(d, data, rsh, rmx, gsh, gmx, bsh, bmx, sx, sy);
    spec_fg(d.color, rgb.0, rgb.1, rgb.2) << 4
}

/// Computes the sampled luminance for an output cell.
fn sample_exec(
    d: &Dither,
    pixels: &[u8],
    rsh: u32,
    rmx: u32,
    gsh: u32,
    gmx: u32,
    bsh: u32,
    bmx: u32,
    sx: u32,
    sy: u32,
) -> (l: u32)
    requires
        d.wf(),
        mask_shift_ok(d.rmask, rsh, rmx),
        mask_shift_ok(d.gmask, gsh, gmx),
        mask_shift_ok(d.bmask, bsh, bmx),
        sx < d.width,
        sy < d.height,
        pixels@.len() >= (d.pitch as int) * (d.height as int),
    ensures
        l == spec_sample(*d, pixels@, rsh, rmx, gsh, gmx, bsh, bmx, sx as int, sy as int),
        l <= 255,
{
    let p00 = rgb_at(d, pixels, rsh, rmx, gsh, gmx, bsh, bmx, sx, sy);
    let l00 = luma_exec(p00.0, p00.1, p00.2);
    match d.antialias {
        Antialias::Off => l00,
        Antialias::Prefilter => {
            let sx1 = if sx + 1 < d.width {
                sx + 1
            } else {
                sx
            };
            let sy1 = if sy + 1 < d.height {
                sy + 1
            } else {
                sy
            };
            let p10 = rgb_at(d, pixels, rsh, rmx, gsh, gmx, bsh, bmx, sx1, sy);
            let p01 = rgb_at(d, pixels, rsh, rmx, gsh, gmx, bsh, bmx, sx, sy1);
            let p11 = rgb_at(d, pixels, rsh, rmx, gsh, gmx, bsh, bmx, sx1, sy1);
            let l10 = luma_exec(p10.0, p10.1, p10.2);
            let l01 = luma_exec(p01.0, p01.1, p01.2);
            let l11 = luma_exec(p11.0, p11.1, p11.2);
            (l00 + l10 + l01 + l11) / 4
        },
    }
}

/// The source column sampled for output column `x`, with its bound.
fn src_x_exec(d: &Dither, rect: &crate::Rectangle, x: u32) -> (sx: u32)
    requires
        d.wf(),
        rect.width >= 1,
        rect.x <= (x as int) && (x as int) < rect.x + rect.width,
        x <= 0x4000,
    ensures
        sx as int == spec_src_x(*d, *rect, x as int),
        sx < d.width,
{
    let dx: u64 = (x as i64 - rect.x as i64) as u64;
    proof {
        assert((dx as int) * (d.width as int) < (rect.width as int) * (d.width as int))
            by (nonlinear_arith)
            requires
                0 <= dx as int && dx < rect.width,
                1 <= d.width as int,
        ;
        assert(0 <= (dx as int) * (d.width as int) <= 0x10000000000000) by (nonlinear_arith)
            requires
                0 <= dx as int <= 0x100000000,
                0 <= d.width as int <= 0x100000,
        ;
        assert(((dx as int) * (d.width as int)) / (rect.width as int) < d.width as int) by {
            vstd::arithmetic::div_mod::lemma_multiply_divide_lt(
                (dx as int) * (d.width as int),
                rect.width as int,
                d.width as int,
            );
        }
    }
    let sx: u64 = dx * (d.width as u64) / (rect.width as u64);
    sx as u32
}

/// The source row sampled for output row `y`, with its bound.
fn src_y_exec(d: &Dither, rect: &crate::Rectangle, y: u32) -> (sy: u32)
    requires
        d.wf(),
        rect.height >= 1,
        rect.y <= (y as int) && (y as int) < rect.y + rect.height,
        y <= 0x4000,
    ensures
        sy as int == spec_src_y(*d, *rect, y as int),
        sy < d.height,
{
    let dy: u64 = (y as i64 - rect.y as i64) as u64;
    proof {
        assert((dy as int) * (d.height as int) < (rect.height as int) * (d.height as int))
            by (nonlinear_arith)
            requires
                0 <= dy as int && dy < rect.height,
                1 <= d.height as int,
        ;
        assert(0 <= (dy as int) * (d.height as int) <= 0x10000000000000) by (nonlinear_arith)
            requires
                0 <= dy as int <= 0x100000000,
                0 <= d.height as int <= 0x100000,
        ;
        assert(((dy as int) * (d.height as int)) / (rect.height as int) < d.height as int) by {
            vstd::arithmetic::div_mod::lemma_multiply_divide_lt(
                (dy as int) * (d.height as int),
                rect.height as int,
                d.height as int,
            );
        }
    }
    let sy: u64 = dy * (d.height as u64) / (rect.height as u64);
    sy as u32
}

/// Two decompositions of one mask agree.
pub proof fn lemma_mask_split_unique(mask: u32, s1: u32, m1: u32, s2: u32, m2: u32)
    requires
        mask_shift_ok(mask, s1, m1),
        mask_shift_ok(mask, s2, m2),
    ensures
        s1 == s2 && m1 == m2,
{
    if mask != 0 {
        assert(forall|m: u32, sa: u32, sb: u32|
            #![trigger (m >> sa), (m >> sb)]
            sa < 32 && sb < 32 && sa < sb && ((m >> sa) & 1) == 1 && ((m >> sb) << sb) == m
                ==> false) by (bit_vector);
        if s1 < s2 {
            assert(false);
        } else if s2 < s1 {
            assert(false);
        }
    }
}

/// True when the target rectangle covers output cell `(x, y)`.
pub open spec fn in_target(rect: crate::Rectangle, x: int, y: int) -> bool {
    rect.x <= x < rect.x + rect.width && rect.y <= y < rect.y + rect.height
}

impl Dither {
    /// Converts the bitmap in `pixels` into character cells of the
    /// target rectangle of `target`'s active frame (clipped to the
    /// canvas).  Fails with `InvalidDitherParams` when `pixels` is
    /// shorter than `pitch * height` bytes.  Every converted cell holds
    /// a glyph of the configured ramp under the mode's colour attribute;
    /// for every algorithm except error diffusion the glyph is exactly
    /// the one the per-cell pipeline (sample, tone curve, threshold
    /// pattern, ramp) prescribes.  Cells outside the rectangle are
    /// untouched, and the rectangle is recorded as dirty.  Under error
    /// diffusion the first two cells of the region are exact as well:
    /// the first carries no error, the second exactly seven sixteenths
    /// of the first cell's quantisation error.
    #[verifier::rlimit(80)]
    pub fn convert(
        &self,
        pixels: &[u8],
        target: &mut crate::canvas::Canvas,
        rect: &crate::Rectangle,
    ) -> (r: Result<(), Error>)
        requires
            self.wf(),
            old(target).wf(),
        ensures
            r is Ok <==> pixels@.len() >= (self.pitch as int) * (self.height as int),
            r matches Err(e) ==> e == Error::InvalidDitherParams && *final(target) == *old(target),
            final(target).wf(),
            r is Ok ==> {
                &&& final(target).frames_like(*old(target))
                &&& final(target).config_like(*old(target))
                &&& final(target).buf().same_dims(old(target).buf())
                &&& forall|x: int, y: int|
                    old(target).in_bounds(x, y) && !in_target(*rect, x, y) ==> final(target).char_at(x, y) == old(target).char_at(x, y) && final(target).attr_at(x, y)
                        == old(target).attr_at(x, y)
                &&& forall|x: int, y: int|
                    old(target).in_bounds(x, y) && in_target(*rect, x, y) ==> in_ramp(
                        self.charset,
                        final(target).char_at(x, y),
                    )
                &&& forall|rsh: u32, rmx: u32, gsh: u32, gmx: u32, bsh: u32, bmx: u32|
                    mask_shift_ok(self.rmask, rsh, rmx) && mask_shift_ok(self.gmask, gsh, gmx)
                        && mask_shift_ok(self.bmask, bsh, bmx) ==> forall|x: int, y: int|
                        old(target).in_bounds(x, y) && in_target(*rect, x, y) ==> {
                            &&& (self.algorithm != DitherAlgorithm::Fstein ==> final(target).char_at(x, y) == spec_cell_char(
                                *self,
                                pixels@,
                                rsh,
                                rmx,
                                gsh,
                                gmx,
                                bsh,
                                bmx,
                                *rect,
                                x,
                                y,
                            ))
                            &&& final(target).attr_at(x, y)@ == spec_cell_attr(
                                *self,
                                pixels@,
                                rsh,
                                rmx,
                                gsh,
                                gmx,
                                bsh,
                                bmx,
                                *rect,
                                x,
                                y,
                            )
                        }
                &&& (self.algorithm == DitherAlgorithm::Fstein ==> forall|rsh: u32, rmx: u32, gsh: u32, gmx: u32, bsh: u32, bmx: u32|
                    mask_shift_ok(self.rmask, rsh, rmx) && mask_shift_ok(self.gmask, gsh, gmx)
                        && mask_shift_ok(self.bmask, bsh, bmx) ==> {
                        let x0 = imax(rect.x as int, 0);
                        let y0 = imax(rect.y as int, 0);
                        &&& (old(target).in_bounds(x0, y0) && in_target(*rect, x0, y0)
                            ==> final(target).char_at(x0, y0) == spec_cell_char(
                            *self,
                            pixels@,
                            rsh,
                            rmx,
                            gsh,
                            gmx,
                            bsh,
                            bmx,
                            *rect,
                            x0,
                            y0,
                        ))
                        &&& (old(target).in_bounds(x0, y0) && in_target(*rect, x0, y0) && old(target).in_bounds(x0 + 1, y0) && in_target(*rect, x0 + 1, y0)
                            ==> final(target).char_at(x0 + 1, y0) == fs_second_char(
                            *self,
                            pixels@,
                            rsh,
                            rmx,
                            gsh,
                            gmx,
                            bsh,
                            bmx,
                            *rect,
                        ))
                    })
                &&& crate::canvas::dirty_extended(
                    *final(target),
                    *old(target),
                    rect.x as int,
                    rect.y as int,
                    rect.x + rect.width,
                    rect.y + rect.height,
                )
            },
    {
        let npix = pixels.len() as u64;
        proof {
            assert(0 <= (self.pitch as int) * (self.height as int) <= 0x1000000000000)
                by (nonlinear_arith)
                requires
                    0 <= self.pitch as int <= 0x10000000,
                    0 <= self.height as int <= 0x100000,
            ;
        }
        if npix < (self.pitch as u64) * (self.height as u64) {
            return Err(Error::InvalidDitherParams);
        }
        let (rsh0, rmx0) = mask_decompose(self.rmask);
        let (gsh0, gmx0) = mask_decompose(self.gmask);
        let (bsh0, bmx0) = mask_decompose(self.bmask);
        let fi = target.active;
        let w = target.frames[fi].buf.width;
        let h = target.frames[fi].buf.height;
        let ghost b0 = target.frames@[fi as int].buf;
        let ghost name0 = target.frames@[fi as int].name;
        let x0c: i64 = if rect.x > 0 {
            rect.x as i64
        } else {
            0
        };
        let y0c: i64 = if rect.y > 0 {
            rect.y as i64
        } else {
            0
        };
        let x1t: i128 = rect.x as i128 + rect.width as i128;
        let y1t: i128 = rect.y as i128 + rect.height as i128;
        let x1c: i64 = if x1t < w as i128 {
            x1t as i64
        } else {
            w as i64
        };
        let y1c: i64 = if y1t < h as i128 {
            y1t as i64
        } else {
            h as i64
        };
        let is_fs = match self.algorithm {
            DitherAlgorithm::Fstein => true,
            _ => false,
        };
        let nerr: usize = (w + 2) as usize;
        let mut cur_err: Vec<i32> = vec_zero(nerr);
        let mut next_err: Vec<i32> = vec_zero(nerr);
        let nramp = ramp_len_exec(self.charset);
        let ghost e1s = fs_first_err(*self, pixels@, rsh0, rmx0, gsh0, gmx0, bsh0, bmx0, *rect);
        let ghost c1 = spec_cell_char(
            *self,
            pixels@,
            rsh0,
            rmx0,
            gsh0,
            gmx0,
            bsh0,
            bmx0,
            *rect,
            x0c as int,
            y0c as int,
        );
        let ghost c2 = fs_second_char(*self, pixels@, rsh0, rmx0, gsh0, gmx0, bsh0, bmx0, *rect);
        let fr = &mut target.frames[fi];
        let mut y: i64 = y0c;
        while y < y1c
            invariant
                self.wf(),
                fr.buf.wf(),
                b0.wf(),
                fr.buf.same_dims(b0),
                w == b0.width,
                h == b0.height,
                w <= MAX_DIM,
                h <= MAX_DIM,
                mask_shift_ok(self.rmask, rsh0, rmx0),
                mask_shift_ok(self.gmask, gsh0, gmx0),
                mask_shift_ok(self.bmask, bsh0, bmx0),
                pixels@.len() >= (self.pitch as int) * (self.height as int),
                x0c == imax(rect.x as int, 0),
                y0c == imax(rect.y as int, 0),
                x1c as int == imin(rect.x + rect.width, w as int),
                y1c as int == imin(rect.y + rect.height, h as int),
                y0c <= y || y == y0c,
                y0c <= y <= imax(y1c as int, y0c as int),
                nramp == spec_ramp_len(self.charset),
                is_fs == (self.algorithm == DitherAlgorithm::Fstein),
                cur_err.len() == nerr,
                next_err.len() == nerr,
                nerr == w + 2,
                forall|k: int| 0 <= k < nerr ==> -8160 <= #[trigger] cur_err@[k] <= 8160,
                forall|k: int| 0 <= k < nerr ==> -8160 <= #[trigger] next_err@[k] <= 8160,
                e1s == fs_first_err(*self, pixels@, rsh0, rmx0, gsh0, gmx0, bsh0, bmx0, *rect),
                c1 == spec_cell_char(
                    *self,
                    pixels@,
                    rsh0,
                    rmx0,
                    gsh0,
                    gmx0,
                    bsh0,
                    bmx0,
                    *rect,
                    x0c as int,
                    y0c as int,
                ),
                c2 == fs_second_char(*self, pixels@, rsh0, rmx0, gsh0, gmx0, bsh0, bmx0, *rect),
                is_fs && y == y0c ==> (forall|k: int| 0 <= k < nerr ==> #[trigger] next_err@[k]
                    == 0),
                is_fs && y > y0c && x0c < x1c ==> fr.buf.char_at(x0c as int, y0c as int) == c1,
                is_fs && y > y0c && x0c + 1 < x1c ==> fr.buf.char_at(x0c + 1, y0c as int) == c2,
                fr.name == name0,
                forall|i: int, j: int|
                    b0.in_bounds(i, j) ==> {
                        if in_target(*rect, i, j) && j < y {
                            &&& in_ramp(self.charset, fr.buf.char_at(i, j))
                            &&& (self.algorithm != DitherAlgorithm::Fstein ==> fr.buf.char_at(
                                i,
                                j,
                            ) == spec_cell_char(
                                *self,
                                pixels@,
                                rsh0,
                                rmx0,
                                gsh0,
                                gmx0,
                                bsh0,
                                bmx0,
                                *rect,
                                i,
                                j,
                            ))
                            &&& fr.buf.attr_at(i, j)@ == spec_cell_attr(
                                *self,
                                pixels@,
                                rsh0,
                                rmx0,
                                gsh0,
                                gmx0,
                                bsh0,
                                bmx0,
                                *rect,
                                i,
                                j,
                            )
                        } else {
                            fr.buf.char_at(i, j) == b0.char_at(i, j) && fr.buf.attr_at(i, j)
                                == b0.attr_at(i, j)
                        }
                    },
            decreases y1c - y,
        {
            cur_err = next_err;
            next_err = vec_zero(nerr);
            let mut x: i64 = x0c;
            while x < x1c
                invariant
                    self.wf(),
                    fr.buf.wf(),
                    b0.wf(),
                    fr.buf.same_dims(b0),
                    w == b0.width,
                    h == b0.height,
                    w <= MAX_DIM,
                    h <= MAX_DIM,
                    mask_shift_ok(self.rmask, rsh0, rmx0),
                    mask_shift_ok(self.gmask, gsh0, gmx0),
                    mask_shift_ok(self.bmask, bsh0, bmx0),
                    pixels@.len() >= (self.pitch as int) * (self.height as int),
                    x0c == imax(rect.x as int, 0),
                    y0c == imax(rect.y as int, 0),
                    x1c as int == imin(rect.x + rect.width, w as int),
                    y1c as int == imin(rect.y + rect.height, h as int),
                    y0c <= y < y1c,
                    x0c <= x <= imax(x1c as int, x0c as int),
                    nramp == spec_ramp_len(self.charset),
                    is_fs == (self.algorithm == DitherAlgorithm::Fstein),
                    cur_err.len() == nerr,
                    next_err.len() == nerr,
                    nerr == w + 2,
                    forall|k: int| 0 <= k < nerr ==> -8160 <= #[trigger] cur_err@[k] <= 8160,
                    forall|k: int| 0 <= k < nerr ==> -8160 <= #[trigger] next_err@[k] <= 8160,
                    e1s == fs_first_err(*self, pixels@, rsh0, rmx0, gsh0, gmx0, bsh0, bmx0, *rect),
                    c1 == spec_cell_char(
                        *self,
                        pixels@,
                        rsh0,
                        rmx0,
                        gsh0,
                        gmx0,
                        bsh0,
                        bmx0,
                        *rect,
                        x0c as int,
                        y0c as int,
                    ),
                    c2 == fs_second_char(*self, pixels@, rsh0, rmx0, gsh0, gmx0, bsh0, bmx0, *rect),
                    is_fs && y == y0c && x == x0c ==> (forall|k: int|
                        0 <= k < nerr ==> #[trigger] cur_err@[k] == 0),
                    is_fs && y == y0c && x == x0c + 1 && x0c < x1c ==> cur_err@[x0c + 2] as int
                        == 7 * e1s,
                    is_fs && (y > y0c || (y == y0c && x > x0c)) && x0c < x1c && y0c < y1c
                        ==> fr.buf.char_at(x0c as int, y0c as int) == c1,
                    is_fs && (y > y0c || (y == y0c && x > x0c + 1)) && x0c + 1 < x1c && y0c < y1c
                        ==> fr.buf.char_at(x0c + 1, y0c as int) == c2,
                    fr.name == name0,
                    forall|i: int, j: int|
                        b0.in_bounds(i, j) ==> {
                            if in_target(*rect, i, j) && (j < y || (j == y && i < x)) {
                                &&& in_ramp(self.charset, fr.buf.char_at(i, j))
                                &&& (self.algorithm != DitherAlgorithm::Fstein
                                    ==> fr.buf.char_at(i, j) == spec_cell_char(
                                    *self,
                                    pixels@,
                                    rsh0,
                                    rmx0,
                                    gsh0,
                                    gmx0,
                                    bsh0,
                                    bmx0,
                                    *rect,
                                    i,
                                    j,
                                ))
                                &&& fr.buf.attr_at(i, j)@ == spec_cell_attr(
                                    *self,
                                    pixels@,
                                    rsh0,
                                    rmx0,
                                    gsh0,
                                    gmx0,
                                    bsh0,
                                    bmx0,
                                    *rect,
                                    i,
                                    j,
                                )
                            } else {
                                fr.buf.char_at(i, j) == b0.char_at(i, j) && fr.buf.attr_at(i, j)
                                    == b0.attr_at(i, j)
                            }
                        },
                decreases x1c - x,
            {
                let sx = src_x_exec(self, rect, x as u32);
                let sy = src_y_exec(self, rect, y as u32);
                let l0 = sample_exec(
                    self,
                    pixels,
                    rsh0,
                    rmx0,
                    gsh0,
                    gmx0,
                    bsh0,
                    bmx0,
                    sx,
                    sy,
                );
                let lt = tone_exec(self, l0);
                let ladj: u32 = if is_fs {
                    let ix = (x as usize) + 1;
                    let carried: i32 = floor16(cur_err[ix]);
                    let v: i32 = lt as i32 + carried;
                    if v < 0 {
                        0
                    } else if v > 255 {
                        255
                    } else {
                        v as u32
                    }
                } else {
                    adjust_exec(self, lt, x as u32, y as u32)
                };
                proof {
                    assert((ladj as int) * (nramp as int) < 256 * (nramp as int))
                        by (nonlinear_arith)
                        requires
                            0 <= ladj as int <= 255,
                            1 <= nramp as int,
                    ;
                    assert((((ladj as int) * (nramp as int)) / 256) < nramp as int) by {
                        vstd::arithmetic::div_mod::lemma_multiply_divide_lt(
                            (ladj as int) * (nramp as int),
                            256,
                            nramp as int,
                        );
                    }
                }
                let idx: u32 = ladj * nramp / 256;
                let glyph = ramp_exec(self.charset, idx);
                let rgb = rgb_at(self, pixels, rsh0, rmx0, gsh0, gmx0, bsh0, bmx0, sx, sy);
                let fg = fg_exec(self.color, rgb.0, rgb.1, rgb.2);
                let at = crate::attr::Attr::new(fg << 4u32);
                fr.buf.set(x as usize, y as usize, glyph, at);
                if is_fs {
                    let quant: i32 = if nramp > 1 {
                        (idx * 255 / (nramp - 1)) as i32
                    } else {
                        ladj as i32
                    };
                    let e: i32 = ladj as i32 - quant;
                    let ix = (x as usize) + 1;
                    let cadd = err_add(cur_err[ix + 1], 7 * e);
                    cur_err.set(ix + 1, cadd);
                    let n0 = err_add(next_err[ix - 1], 3 * e);
                    next_err.set(ix - 1, n0);
                    let n1 = err_add(next_err[ix], 5 * e);
                    next_err.set(ix, n1);
                    let n2 = err_add(next_err[ix + 1], e);
                    next_err.set(ix + 1, n2);
                    proof {
                        if y == y0c && x == x0c {
                            assert(ladj == lt);
                            assert(sx as int == spec_src_x(*self, *rect, x0c as int));
                            assert(sy as int == spec_src_y(*self, *rect, y0c as int));
                            assert(lt as int == spec_tone(
                                *self,
                                spec_sample(
                                    *self,
                                    pixels@,
                                    rsh0,
                                    rmx0,
                                    gsh0,
                                    gmx0,
                                    bsh0,
                                    bmx0,
                                    spec_src_x(*self, *rect, x0c as int),
                                    spec_src_y(*self, *rect, y0c as int),
                                ),
                            ));
                            assert(spec_adjust(*self, lt as int, x0c as int, y0c as int)
                                == lt as int);
                            assert(glyph == spec_ramp(self.charset, (ladj as int) * (
                            nramp as int) / 256));
                            let sxs = spec_src_x(*self, *rect, x0c as int);
                            let sys = spec_src_y(*self, *rect, y0c as int);
                            let ls = spec_tone(
                                *self,
                                spec_sample(
                                    *self,
                                    pixels@,
                                    rsh0,
                                    rmx0,
                                    gsh0,
                                    gmx0,
                                    bsh0,
                                    bmx0,
                                    sxs,
                                    sys,
                                ),
                            );
                            let adjs = spec_adjust(*self, ls, x0c as int, y0c as int);
                            assert(c1 == spec_ramp(
                                self.charset,
                                adjs * spec_ramp_len(self.charset) / 256,
                            ));
                            assert(ls == lt as int);
                            assert(adjs == lt as int);
                            assert(glyph == c1);
                            assert(e as int == e1s);
                            assert(cur_err@[x0c + 2] as int == 7 * e1s);
                        }
                        if y == y0c && x == x0c + 1 {
                            assert(sx as int == spec_src_x(*self, *rect, x0c + 1));
                            assert(sy as int == spec_src_y(*self, *rect, y0c as int));
                            assert(lt as int == spec_tone(
                                *self,
                                spec_sample(
                                    *self,
                                    pixels@,
                                    rsh0,
                                    rmx0,
                                    gsh0,
                                    gmx0,
                                    bsh0,
                                    bmx0,
                                    spec_src_x(*self, *rect, x0c + 1),
                                    spec_src_y(*self, *rect, y0c as int),
                                ),
                            ));
                            assert(ladj as int == spec_clamp255(lt as int + spec_floor16(7 * e1s)));
                            assert(glyph == spec_ramp(self.charset, (ladj as int) * (
                            nramp as int) / 256));
                            let l2s = spec_tone(
                                *self,
                                spec_sample(
                                    *self,
                                    pixels@,
                                    rsh0,
                                    rmx0,
                                    gsh0,
                                    gmx0,
                                    bsh0,
                                    bmx0,
                                    spec_src_x(*self, *rect, x0c + 1),
                                    spec_src_y(*self, *rect, y0c as int),
                                ),
                            );
                            let adj2 = spec_clamp255(l2s + spec_floor16(7 * e1s));
                            assert(c2 == spec_ramp(
                                self.charset,
                                adj2 * spec_ramp_len(self.charset) / 256,
                            ));
                            assert(l2s == lt as int);
                            assert(adj2 == ladj as int);
                            assert(glyph == c2);
                        }
                    }
                }
                x += 1;
            }
            y += 1;
        }
        let clamped = crate::canvas::clamp_rect(
            w,
            h,
            rect.x as i128,
            rect.y as i128,
            rect.x as i128 + rect.width as i128,
            rect.y as i128 + rect.height as i128,
        );
        match clamped {
            Some(c) => {
                target.dirty.add(c);
            },
            None => {},
        }
        proof {
            assert forall|rsh: u32, rmx: u32, gsh: u32, gmx: u32, bsh: u32, bmx: u32|
                mask_shift_ok(self.rmask, rsh, rmx) && mask_shift_ok(self.gmask, gsh, gmx)
                    && mask_shift_ok(self.bmask, bsh, bmx) implies (rsh == rsh0 && rmx == rmx0
                && gsh == gsh0 && gmx == gmx0 && bsh == bsh0 && bmx == bmx0) by {
                lemma_mask_split_unique(self.rmask, rsh, rmx, rsh0, rmx0);
                lemma_mask_split_unique(self.gmask, gsh, gmx, gsh0, gmx0);
                lemma_mask_split_unique(self.bmask, bsh, bmx, bsh0, bmx0);
            }
        }
        Ok(())
    }
}

/// The quantisation error the first cell of the clipped target region
/// produces under error diffusion: its toned luminance minus the
/// luminance its chosen ramp glyph stands for (the first cell carries
/// no incoming error).
pub open spec fn fs_first_err(
    d: Dither,
    data: Seq<u8>,
    rsh: u32,
    rmx: u32,
    gsh: u32,
    gmx: u32,
    bsh: u32,
    bmx: u32,
    rect: crate::Rectangle,
) -> int {
    let x0 = imax(rect.x as int, 0);
    let y0 = imax(rect.y as int, 0);
    let l = spec_tone(
        d,
        spec_sample(
            d,
            data,
            rsh,
            rmx,
            gsh,
            gmx,
            bsh,
            bmx,
            spec_src_x(d, rect, x0),
            spec_src_y(d, rect, y0),
        ),
    );
    let n = spec_ramp_len(d.charset);
    let idx = l * n / 256;
    let quant = if n > 1 {
        idx * 255 / (n - 1)
    } else {
        l
    };
    l - quant
}

/// The glyph error diffusion gives the second cell of the clipped
/// target region's first row: its own toned luminance shifted by seven
/// sixteenths of the first cell's quantisation error.
pub open spec fn fs_second_char(
    d: Dither,
    data: Seq<u8>,
    rsh: u32,
    rmx: u32,
    gsh: u32,
    gmx: u32,
    bsh: u32,
    bmx: u32,
    rect: crate::Rectangle,
) -> u32 {
    let x0 = imax(rect.x as int, 0);
    let y0 = imax(rect.y as int, 0);
    let e1 = fs_first_err(d, data, rsh, rmx, gsh, gmx, bsh, bmx, rect);
    let l2 = spec_tone(
        d,
        spec_sample(
            d,
            data,
            rsh,
            rmx,
            gsh,
            gmx,
            bsh,
            bmx,
            spec_src_x(d, rect, x0 + 1),
            spec_src_y(d, rect, y0),
        ),
    );
    let adj = spec_clamp255(l2 + spec_floor16(7 * e1));
    spec_ramp(d.charset, adj * spec_ramp_len(d.charset) / 256)
}

/// The sampled source coordinates of a covered output cell lie inside
/// the bitmap.
proof fn lemma_src_bounds(d: Dither, rect: crate::Rectangle, x: int, y: int)
    requires
        d.wf(),
        in_target(rect, x, y),
    ensures
        0 <= spec_src_x(d, rect, x) < d.width,
        0 <= spec_src_y(d, rect, y) < d.height,
{
    let dx = x - rect.x;
    let dy = y - rect.y;
    assert(dx * (d.width as int) < (rect.width as int) * (d.width as int)) by (nonlinear_arith)
        requires
            0 <= dx < rect.width as int,
            1 <= d.width as int,
    ;
    assert(dy * (d.height as int) < (rect.height as int) * (d.height as int)) by (nonlinear_arith)
        requires
            0 <= dy < rect.height as int,
            1 <= d.height as int,
    ;
    assert(0 <= dx * (d.width as int) && 0 <= dy * (d.height as int)) by (nonlinear_arith)
        requires
            0 <= dx,
            0 <= dy,
            0 <= d.width as int,
            0 <= d.height as int,
    ;
    vstd::arithmetic::div_mod::lemma_div_pos_is_pos(dx * (d.width as int), rect.width as int);
    vstd::arithmetic::div_mod::lemma_div_pos_is_pos(dy * (d.height as int), rect.height as int);
    vstd::arithmetic::div_mod::lemma_multiply_divide_lt(
        dx * (d.width as int),
        rect.width as int,
        d.width as int,
    );
    vstd::arithmetic::div_mod::lemma_multiply_divide_lt(
        dy * (d.height as int),
        rect.height as int,
        d.height as int,
    );
}

/// Dithering a uniform bitmap with the plain (`Off`) algorithm gives a
/// uniform result: any two cells of the target rectangle receive the
/// same glyph and the same attribute — in particular a uniform gray
/// bitmap dithered in mono mode fills the region with one glyph.
pub proof fn lemma_uniform_dither(
    d: Dither,
    data: Seq<u8>,
    rsh: u32,
    rmx: u32,
    gsh: u32,
    gmx: u32,
    bsh: u32,
    bmx: u32,
    rect: crate::Rectangle,
    p0: u32,
    x1: int,
    y1: int,
    x2: int,
    y2: int,
)
    requires
        d.wf(),
        mask_shift_ok(d.rmask, rsh, rmx),
        mask_shift_ok(d.gmask, gsh, gmx),
        mask_shift_ok(d.bmask, bsh, bmx),
        d.algorithm == DitherAlgorithm::Off,
        forall|sx: int, sy: int|
            0 <= sx < d.width && 0 <= sy < d.height ==> #[trigger] spec_pixel(
                data,
                sy * (d.pitch as int) + sx * (d.bpp as int / 8),
                d.bpp as int / 8,
            ) == p0,
        in_target(rect, x1, y1),
        in_target(rect, x2, y2),
    ensures
        spec_cell_char(d, data, rsh, rmx, gsh, gmx, bsh, bmx, rect, x1, y1) == spec_cell_char(
            d,
            data,
            rsh,
            rmx,
            gsh,
            gmx,
            bsh,
            bmx,
            rect,
            x2,
            y2,
        ),
        spec_cell_attr(d, data, rsh, rmx, gsh, gmx, bsh, bmx, rect, x1, y1) == spec_cell_attr(
            d,
            data,
            rsh,
            rmx,
            gsh,
            gmx,
            bsh,
            bmx,
            rect,
            x2,
            y2,
        ),
{
    let rgb0 = spec_rgb(d, data, rsh, rmx, gsh, gmx, bsh, bmx, 0, 0);
    let l0 = spec_luma(rgb0.0, rgb0.1, rgb0.2);
    assert forall|sx: int, sy: int| 0 <= sx < d.width && 0 <= sy < d.height implies spec_rgb(
        d,
        data,
        rsh,
        rmx,
        gsh,
        gmx,
        bsh,
        bmx,
        sx,
        sy,
    ) == rgb0 by {}
    assert forall|sx: int, sy: int| 0 <= sx < d.width && 0 <= sy < d.height implies spec_sample(
        d,
        data,
        rsh,
        rmx,
        gsh,
        gmx,
        bsh,
        bmx,
        sx,
        sy,
    ) == l0 by {
        match d.antialias {
            Antialias::Off => {},
            Antialias::Prefilter => {
                assert(l0 + l0 + l0 + l0 == 4 * l0);
                vstd::arithmetic::div_mod::lemma_div_multiples_vanish(l0, 4);
            },
        }
    }
    lemma_src_bounds(d, rect, x1, y1);
    lemma_src_bounds(d, rect, x2, y2);
}

/// The floor of `c / 16` (rounding towards minus infinity), the
/// fraction of a diffused error a neighbouring cell receives.
pub open spec fn spec_floor16(c: int) -> int {
    if c >= 0 {
        c / 16
    } else {
        -((-c + 15) / 16)
    }
}

/// Computes `spec_floor16`.
fn floor16(c: i32) -> (r: i32)
    requires
        -8160 <= c <= 8160,
    ensures
        r as int == spec_floor16(c as int),
        -510 <= r <= 510,
{
    if c >= 0 {
        ((c as u32) / 16) as i32
    } else {
        let m = ((-(c as i64)) as u64 + 15) / 16;
        -(m as i32)
    }
}


/// Distinct positions of a charset's ramp hold distinct glyphs.
proof fn lemma_ramp_injective(cs: DitherCharset, i: int, j: int)
    requires
        0 <= i < spec_ramp_len(cs),
        0 <= j < spec_ramp_len(cs),
        i != j,
    ensures
        spec_ramp(cs, i) != spec_ramp(cs, j),
{
}

/// Error diffusion visibly varies a uniform input: on a uniform bitmap
/// whose toned luminance quantises with a large enough error (the
/// arithmetic premise below says exactly that the carried error moves
/// the second cell to a different ramp position), the first two cells
/// of the converted region receive different glyphs — while the plain
/// algorithm gives every cell the same glyph (`lemma_uniform_dither`).
/// Together with `convert`'s contract this is the visible-variation
/// half of the uniform-bitmap property; a uniform bitmap whose value
/// quantises exactly (zero error) is excluded, as diffusion then has
/// nothing to carry.
pub proof fn lemma_fstein_varies(
    d: Dither,
    data: Seq<u8>,
    rsh: u32,
    rmx: u32,
    gsh: u32,
    gmx: u32,
    bsh: u32,
    bmx: u32,
    rect: crate::Rectangle,
    p0: u32,
)
    requires
        d.wf(),
        mask_shift_ok(d.rmask, rsh, rmx),
        mask_shift_ok(d.gmask, gsh, gmx),
        mask_shift_ok(d.bmask, bsh, bmx),
        d.algorithm == DitherAlgorithm::Fstein,
        forall|sx: int, sy: int|
            0 <= sx < d.width && 0 <= sy < d.height ==> #[trigger] spec_pixel(
                data,
                sy * (d.pitch as int) + sx * (d.bpp as int / 8),
                d.bpp as int / 8,
            ) == p0,
        in_target(rect, imax(rect.x as int, 0), imax(rect.y as int, 0)),
        in_target(rect, imax(rect.x as int, 0) + 1, imax(rect.y as int, 0)),
        ({
            let rgb0 = spec_rgb(d, data, rsh, rmx, gsh, gmx, bsh, bmx, 0, 0);
            let l = spec_tone(d, spec_luma(rgb0.0, rgb0.1, rgb0.2));
            let n = spec_ramp_len(d.charset);
            let idx = l * n / 256;
            let quant = if n > 1 {
                idx * 255 / (n - 1)
            } else {
                l
            };
            l * n / 256 != spec_clamp255(l + spec_floor16(7 * (l - quant))) * n / 256
        }),
    ensures
        spec_cell_char(
            d,
            data,
            rsh,
            rmx,
            gsh,
            gmx,
            bsh,
            bmx,
            rect,
            imax(rect.x as int, 0),
            imax(rect.y as int, 0),
        ) != fs_second_char(d, data, rsh, rmx, gsh, gmx, bsh, bmx, rect),
{
    let x0 = imax(rect.x as int, 0);
    let y0 = imax(rect.y as int, 0);
    lemma_src_bounds(d, rect, x0, y0);
    lemma_src_bounds(d, rect, x0 + 1, y0);
    let rgb0 = spec_rgb(d, data, rsh, rmx, gsh, gmx, bsh, bmx, 0, 0);
    let l0 = spec_luma(rgb0.0, rgb0.1, rgb0.2);
    assert forall|sx: int, sy: int| 0 <= sx < d.width && 0 <= sy < d.height implies spec_rgb(
        d,
        data,
        rsh,
        rmx,
        gsh,
        gmx,
        bsh,
        bmx,
        sx,
        sy,
    ) == rgb0 by {}
    assert forall|sx: int, sy: int| 0 <= sx < d.width && 0 <= sy < d.height implies spec_sample(
        d,
        data,
        rsh,
        rmx,
        gsh,
        gmx,
        bsh,
        bmx,
        sx,
        sy,
    ) == l0 by {
        match d.antialias {
            Antialias::Off => {},
            Antialias::Prefilter => {
                assert(l0 + l0 + l0 + l0 == 4 * l0);
                vstd::arithmetic::div_mod::lemma_div_multiples_vanish(l0, 4);
            },
        }
    }
    let lt = spec_tone(d, l0);
    let n = spec_ramp_len(d.charset);
    let idx1 = lt * n / 256;
    let e1 = fs_first_err(d, data, rsh, rmx, gsh, gmx, bsh, bmx, rect);
    let adj2 = spec_clamp255(lt + spec_floor16(7 * e1));
    let idx2 = adj2 * n / 256;
    assert(0 <= lt <= 255);
    assert(0 <= adj2 <= 255);
    assert(lt * n < 256 * n && 0 <= lt * n && adj2 * n < 256 * n && 0 <= adj2 * n)
        by (nonlinear_arith)
        requires
            0 <= lt <= 255,
            0 <= adj2 <= 255,
            1 <= n,
    ;
    vstd::arithmetic::div_mod::lemma_multiply_divide_lt(lt * n, 256, n);
    vstd::arithmetic::div_mod::lemma_multiply_divide_lt(adj2 * n, 256, n);
    vstd::arithmetic::div_mod::lemma_div_pos_is_pos(lt * n, 256);
    vstd::arithmetic::div_mod::lemma_div_pos_is_pos(adj2 * n, 256);
    assert(spec_adjust(d, lt, x0, y0) == lt);
    assert(idx1 != idx2);
    lemma_ramp_injective(d.charset, idx1, idx2);
}

/// A vector of `n` zeroes.
fn vec_zero(n: usize) -> (v: Vec<i32>)
    ensures
        v.len() == n,
        forall|k: int| 0 <= k < n ==> v@[k] == 0,
{
    let mut v: Vec<i32> = Vec::new();
    let mut i: usize = 0;
    while i < n
        invariant
            i <= n,
            v.len() == i,
            forall|k: int| 0 <= k < i ==> v@[k] == 0,
        decreases n - i,
    {
        v.push(0);
        i += 1;
    }
    v
}

/// Adds a diffusion contribution, saturating inside the tracked bound
/// (the true accumulation never reaches it).
fn err_add(a: i32, b: i32) -> (r: i32)
    requires
        -8160 <= a <= 8160,
        -2048 <= b <= 2048,
    ensures
        -8160 <= r <= 8160,
        r as int == (if a + b > 8160 {
            8160int
        } else if a + b < -8160 {
            -8160int
        } else {
            a + b
        }),
{
    let v = a + b;
    if v > 8160 {
        8160
    } else if v < -8160 {
        -8160
    } else {
        v
    }
}

/// An ASCII capital folded to its small letter; every other character
/// is itself.
pub open spec fn spec_lower_char(c: char) -> char {
    if 'A' <= c && c <= 'Z' {
        ((c as u32) + 32) as char
    } else {
        c
    }
}

/// The string with its ASCII capitals folded to small letters.
pub open spec fn spec_fold(s: Seq<char>) -> Seq<char> {
    s.map_values(|c: char| spec_lower_char(c))
}

/// Folds one ASCII capital.
fn lower_char(c: char) -> (r: char)
    ensures
        r == spec_lower_char(c),
{
    if c >= 'A' && c <= 'Z' {
        let v = c as u32 + 32;
        proof {
            assert(vstd::utf8::is_scalar(v));
        }
        match char::from_u32(v) {
            Some(l) => {
                proof {
                    vstd::utf8::char_u32_cast(l, v);
                }
                l
            },
            None => c,
        }
    } else {
        c
    }
}

/// Compares a string, ASCII-case-folded, against a (small-letter)
/// name.
fn str_eq_fold(a: &str, b: &str) -> (r: bool)
    ensures
        r == (spec_fold(a@) == b@),
{
    let n = a.unicode_len();
    if n != b.unicode_len() {
        proof {
            assert(spec_fold(a@).len() == a@.len());
            assert(spec_fold(a@).len() != b@.len());
        }
        return false;
    }
    let mut i: usize = 0;
    while i < n
        invariant
            n == a@.len(),
            n == b@.len(),
            i <= n,
            forall|k: int| 0 <= k < i ==> spec_lower_char(a@[k]) == b@[k],
        decreases n - i,
    {
        if lower_char(a.get_char(i)) != b.get_char(i) {
            proof {
                assert(spec_fold(a@)[i as int] == spec_lower_char(a@[i as int]));
                assert(spec_fold(a@)[i as int] != b@[i as int]);
            }
            return false;
        }
        i += 1;
    }
    proof {
        assert forall|k: int| 0 <= k < n implies spec_fold(a@)[k] == b@[k] by {
            assert(spec_fold(a@)[k] == spec_lower_char(a@[k]));
        }
        assert(spec_fold(a@) =~= b@);
    }
    true
}

/// The name of an antialiasing mode.
pub open spec fn spec_antialias_name(a: Antialias) -> Seq<char> {
    match a {
        Antialias::Off => "none"@,
        Antialias::Prefilter => "prefilter"@,
    }
}

/// The antialiasing mode a name parses to, matched with ASCII case
/// folded; "default" names the default mode, anything else fails with
/// `InvalidAntialias`.
pub open spec fn spec_parse_antialias(raw: Seq<char>) -> Result<Antialias, Error> {
    let s = spec_fold(raw);
    if s == "none"@ {
        Ok(Antialias::Off)
    } else if s == "prefilter"@ {
        Ok(Antialias::Prefilter)
    } else if s == "default"@ {
        Ok(Antialias::Prefilter)
    } else {
        Err(Error::InvalidAntialias)
    }
}

impl Antialias {
    /// The mode's name.
    pub fn to_string(&self) -> (r: String)
        ensures
            r@ == spec_antialias_name(*self),
    {
        match self {
            Antialias::Off => "none".to_owned(),
            Antialias::Prefilter => "prefilter".to_owned(),
        }
    }

    /// Parses a mode name.
    pub fn from_str(raw: &str) -> (r: Result<Antialias, Error>)
        ensures
            r == spec_parse_antialias(raw@),
    {
        if str_eq_fold(raw, "none") {
            Ok(Antialias::Off)
        } else if str_eq_fold(raw, "prefilter") {
            Ok(Antialias::Prefilter)
        } else if str_eq_fold(raw, "default") {
            Ok(Antialias::Prefilter)
        } else {
            Err(Error::InvalidAntialias)
        }
    }
}

/// The name of an output colour mode.
pub open spec fn spec_color_name(c: DitherColor) -> Seq<char> {
    match c {
        DitherColor::Mono => "mono"@,
        DitherColor::Gray => "gray"@,
        DitherColor::Height => "8"@,
        DitherColor::Sixteen => "16"@,
        DitherColor::FullGray => "fullgray"@,
        DitherColor::Full8 => "full8"@,
        DitherColor::Full16 => "full16"@,
    }
}

/// The colour mode a name parses to, matched with ASCII case folded;
/// "default" names the default mode, anything else fails with
/// `InvalidColor`.
pub open spec fn spec_parse_color(raw: Seq<char>) -> Result<DitherColor, Error> {
    let s = spec_fold(raw);
    if s == "mono"@ {
        Ok(DitherColor::Mono)
    } else if s == "gray"@ {
        Ok(DitherColor::Gray)
    } else if s == "8"@ {
        Ok(DitherColor::Height)
    } else if s == "16"@ {
        Ok(DitherColor::Sixteen)
    } else if s == "fullgray"@ {
        Ok(DitherColor::FullGray)
    } else if s == "full8"@ {
        Ok(DitherColor::Full8)
    } else if s == "full16"@ {
        Ok(DitherColor::Full16)
    } else if s == "default"@ {
        Ok(DitherColor::Full16)
    } else {
        Err(Error::InvalidColor)
    }
}

impl DitherColor {
    /// The mode's name.
    pub fn to_string(&self) -> (r: String)
        ensures
            r@ == spec_color_name(*self),
    {
        match self {
            DitherColor::Mono => "mono".to_owned(),
            DitherColor::Gray => "gray".to_owned(),
            DitherColor::Height => "8".to_owned(),
            DitherColor::Sixteen => "16".to_owned(),
            DitherColor::FullGray => "fullgray".to_owned(),
            DitherColor::Full8 => "full8".to_owned(),
            DitherColor::Full16 => "full16".to_owned(),
        }
    }

    /// Parses a colour mode name.
    pub fn from_str(raw: &str) -> (r: Result<DitherColor, Error>)
        ensures
            r == spec_parse_color(raw@),
    {
        if str_eq_fold(raw, "mono") {
            Ok(DitherColor::Mono)
        } else if str_eq_fold(raw, "gray") {
            Ok(DitherColor::Gray)
        } else if str_eq_fold(raw, "8") {
            Ok(DitherColor::Height)
        } else if str_eq_fold(raw, "16") {
            Ok(DitherColor::Sixteen)
        } else if str_eq_fold(raw, "fullgray") {
            Ok(DitherColor::FullGray)
        } else if str_eq_fold(raw, "full8") {
            Ok(DitherColor::Full8)
        } else if str_eq_fold(raw, "full16") {
            Ok(DitherColor::Full16)
        } else if str_eq_fold(raw, "default") {
            Ok(DitherColor::Full16)
        } else {
            Err(Error::InvalidColor)
        }
    }
}

/// The name of a glyph ramp.
pub open spec fn spec_charset_name(c: DitherCharset) -> Seq<char> {
    match c {
        DitherCharset::Ascii => "ascii"@,
        DitherCharset::Shades => "shades"@,
        DitherCharset::Blocks => "blocks"@,
    }
}

/// The glyph ramp a name parses to, matched with ASCII case folded;
/// "default" names the default ramp, anything else fails with
/// `InvalidCharset`.
pub open spec fn spec_parse_charset(raw: Seq<char>) -> Result<DitherCharset, Error> {
    let s = spec_fold(raw);
    if s == "ascii"@ {
        Ok(DitherCharset::Ascii)
    } else if s == "shades"@ {
        Ok(DitherCharset::Shades)
    } else if s == "blocks"@ {
        Ok(DitherCharset::Blocks)
    } else if s == "default"@ {
        Ok(DitherCharset::Ascii)
    } else {
        Err(Error::InvalidCharset)
    }
}

impl DitherCharset {
    /// The ramp's name.
    pub fn to_string(&self) -> (r: String)
        ensures
            r@ == spec_charset_name(*self),
    {
        match self {
            DitherCharset::Ascii => "ascii".to_owned(),
            DitherCharset::Shades => "shades".to_owned(),
            DitherCharset::Blocks => "blocks".to_owned(),
        }
    }

    /// Parses a ramp name.
    pub fn from_str(raw: &str) -> (r: Result<DitherCharset, Error>)
        ensures
            r == spec_parse_charset(raw@),
    {
        if str_eq_fold(raw, "ascii") {
            Ok(DitherCharset::Ascii)
        } else if str_eq_fold(raw, "shades") {
            Ok(DitherCharset::Shades)
        } else if str_eq_fold(raw, "blocks") {
            Ok(DitherCharset::Blocks)
        } else if str_eq_fold(raw, "default") {
            Ok(DitherCharset::Ascii)
        } else {
            Err(Error::InvalidCharset)
        }
    }
}

/// The name of a dithering algorithm.
pub open spec fn spec_algorithm_name(a: DitherAlgorithm) -> Seq<char> {
    match a {
        DitherAlgorithm::Off => "none"@,
        DitherAlgorithm::Ordered2 => "ordered2"@,
        DitherAlgorithm::Ordered4 => "ordered4"@,
        DitherAlgorithm::Ordered8 => "ordered8"@,
        DitherAlgorithm::Random => "random"@,
        DitherAlgorithm::Fstein => "fstein"@,
    }
}

/// The algorithm a name parses to, matched with ASCII case folded;
/// anything unnamed fails with `InvalidAlgorithm`.
pub open spec fn spec_parse_algorithm(raw: Seq<char>) -> Result<DitherAlgorithm, Error> {
    let s = spec_fold(raw);
    if s == "none"@ {
        Ok(DitherAlgorithm::Off)
    } else if s == "ordered2"@ {
        Ok(DitherAlgorithm::Ordered2)
    } else if s == "ordered4"@ {
        Ok(DitherAlgorithm::Ordered4)
    } else if s == "ordered8"@ {
        Ok(DitherAlgorithm::Ordered8)
    } else if s == "random"@ {
        Ok(DitherAlgorithm::Random)
    } else if s == "fstein"@ {
        Ok(DitherAlgorithm::Fstein)
    } else {
        Err(Error::InvalidAlgorithm)
    }
}

impl DitherAlgorithm {
    /// The algorithm's name.
    pub fn to_string(&self) -> (r: String)
        ensures
            r@ == spec_algorithm_name(*self),
    {
        match self {
            DitherAlgorithm::Off => "none".to_owned(),
            DitherAlgorithm::Ordered2 => "ordered2".to_owned(),
            DitherAlgorithm::Ordered4 => "ordered4".to_owned(),
            DitherAlgorithm::Ordered8 => "ordered8".to_owned(),
            DitherAlgorithm::Random => "random".to_owned(),
            DitherAlgorithm::Fstein => "fstein".to_owned(),
        }
    }

    /// Parses an algorithm name.
    pub fn from_str(raw: &str) -> (r: Result<DitherAlgorithm, Error>)
        ensures
            r == spec_parse_algorithm(raw@),
    {
        if str_eq_fold(raw, "none") {
            Ok(DitherAlgorithm::Off)
        } else if str_eq_fold(raw, "ordered2") {
            Ok(DitherAlgorithm::Ordered2)
        } else if str_eq_fold(raw, "ordered4") {
            Ok(DitherAlgorithm::Ordered4)
        } else if str_eq_fold(raw, "ordered8") {
            Ok(DitherAlgorithm::Ordered8)
        } else if str_eq_fold(raw, "random") {
            Ok(DitherAlgorithm::Random)
        } else if str_eq_fold(raw, "fstein") {
            Ok(DitherAlgorithm::Fstein)
        } else {
            Err(Error::InvalidAlgorithm)
        }
    }
}

} // verus!
