//! A text-mode graphics engine: a canvas of character cells with packed
//! colour/style attributes, geometric drawing primitives, dirty-rectangle
//! tracking, multi-frame animation support, a bitmap-to-character ditherer,
//! and a decoder for raw input events.

use vstd::prelude::*;

pub mod attr;
pub mod buffer;
pub mod canvas;
pub mod dirty;
pub mod dither;
pub mod draw;
pub mod error;
pub mod event;

pub use attr::Argb;
pub use attr::Attr;
pub use canvas::Canvas;
pub use event::Event;
pub use event::EventMask;

verus! {

/// Largest width or height a cell buffer may have; keeps `width * height`
/// comfortably inside `usize` on every target.
pub const MAX_DIM: usize = 16384;

#[derive(Debug, Copy, Clone, PartialEq, Eq, Structural)]
pub struct Point {
    pub x: i32,
    pub y: i32,
}

#[derive(Debug, Copy, Clone, PartialEq, Eq, Structural)]
pub struct Boundaries {
    pub width: usize,
    pub height: usize,
}

#[derive(Debug, Copy, Clone, PartialEq, Eq, Structural)]
pub struct Rectangle {
    pub x: i32,
    pub y: i32,
    pub width: usize,
    pub height: usize,
}

pub type Bounds = Boundaries;

pub type Rect = Rectangle;

/// The library's version string.
pub fn version() -> (r: String)
    ensures
        r@ == "0.1.0"@,
{
    "0.1.0".to_owned()
}

#[derive(Debug, Copy, Clone, PartialEq, Eq, Structural)]
pub struct Circle {
    pub x: i32,
    pub y: i32,
    pub radius: usize,
}

#[derive(Debug, Copy, Clone, PartialEq, Eq, Structural)]
pub struct Ellipse {
    pub x: i32,
    pub y: i32,
    pub x_radius: usize,
    pub y_radius: usize,
}

#[derive(Debug, Copy, Clone, PartialEq, Eq, Structural)]
pub struct Triangle {
    pub vertex1: Point,
    pub vertex2: Point,
    pub vertex3: Point,
}

/// The sixteen named palette colours plus the two sentinels used by
/// attribute fields: `Default` (the terminal's own colour) and
/// `Transparent` (leave the underlying colour visible).
#[derive(Debug, Copy, Clone, PartialEq, Eq, Structural)]
pub enum Color {
    Black,
    Blue,
    Green,
    Cyan,
    Red,
    Magenta,
    Brown,
    LightGray,
    DarkGray,
    LightBlue,
    LightGreen,
    LightCyan,
    LightRed,
    LightMagenta,
    Yellow,
    White,
    Default,
    Transparent,
}

impl Color {
    /// The numeric code of the colour: the ANSI palette index for the
    /// sixteen named colours, `0x10` for `Default`, `0x20` for
    /// `Transparent`.
    pub open spec fn spec_code(self) -> u32 {
        match self {
            Color::Black => 0x00,
            Color::Blue => 0x01,
            Color::Green => 0x02,
            Color::Cyan => 0x03,
            Color::Red => 0x04,
            Color::Magenta => 0x05,
            Color::Brown => 0x06,
            Color::LightGray => 0x07,
            Color::DarkGray => 0x08,
            Color::LightBlue => 0x09,
            Color::LightGreen => 0x0a,
            Color::LightCyan => 0x0b,
            Color::LightRed => 0x0c,
            Color::LightMagenta => 0x0d,
            Color::Yellow => 0x0e,
            Color::White => 0x0f,
            Color::Default => 0x10,
            Color::Transparent => 0x20,
        }
    }

    /// True exactly for the codes that name a colour.
    pub open spec fn valid_code(code: u32) -> bool {
        code <= 0x10 || code == 0x20
    }

    #[verifier::when_used_as_spec(spec_code)]
    pub fn to_code(self) -> (code: u32)
        ensures
            code == self.spec_code(),
    {
        match self {
            Color::Black => 0x00,
            Color::Blue => 0x01,
            Color::Green => 0x02,
            Color::Cyan => 0x03,
            Color::Red => 0x04,
            Color::Magenta => 0x05,
            Color::Brown => 0x06,
            Color::LightGray => 0x07,
            Color::DarkGray => 0x08,
            Color::LightBlue => 0x09,
            Color::LightGreen => 0x0a,
            Color::LightCyan => 0x0b,
            Color::LightRed => 0x0c,
            Color::LightMagenta => 0x0d,
            Color::Yellow => 0x0e,
            Color::White => 0x0f,
            Color::Default => 0x10,
            Color::Transparent => 0x20,
        }
    }

    /// Decodes a numeric colour code; rejects everything `valid_code`
    /// rejects with `InvalidColor`.
    pub fn from_code(code: u32) -> (r: Result<Color, error::Error>)
        ensures
            r is Ok <==> Color::valid_code(code),
            r matches Ok(c) ==> c.spec_code() == code,
            r matches Err(e) ==> e == error::Error::InvalidColor,
    {
        match code {
            0x00 => Ok(Color::Black),
            0x01 => Ok(Color::Blue),
            0x02 => Ok(Color::Green),
            0x03 => Ok(Color::Cyan),
            0x04 => Ok(Color::Red),
            0x05 => Ok(Color::Magenta),
            0x06 => Ok(Color::Brown),
            0x07 => Ok(Color::LightGray),
            0x08 => Ok(Color::DarkGray),
            0x09 => Ok(Color::LightBlue),
            0x0a => Ok(Color::LightGreen),
            0x0b => Ok(Color::LightCyan),
            0x0c => Ok(Color::LightRed),
            0x0d => Ok(Color::LightMagenta),
            0x0e => Ok(Color::Yellow),
            0x0f => Ok(Color::White),
            0x10 => Ok(Color::Default),
            0x20 => Ok(Color::Transparent),
            _ => Err(error::Error::InvalidColor),
        }
    }
}

} // verus!
