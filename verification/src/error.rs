//! The error type shared by every fallible operation of the crate.

use vstd::prelude::*;

verus! {

/// Specific, non-overlapping error kinds.  Geometry primitives never fail
/// (they clip silently); configuration and allocation operations fail
/// explicitly with one of these.  The display-related kinds (failure to
/// open a device, unsupported title, pointer or cursor, an unknown
/// platform code) belong to the output collaborators that surface them.
#[derive(Debug, Copy, Clone, PartialEq, Eq, Structural)]
pub enum Error {
    NotEnoughMemory,
    FailedToOpenGraphicsDevice,
    InvalidSize,
    InvalidMaskSize,
    CanvasInUse,
    InvalidRefreshDelay,
    WindowTitleUnsupported,
    MousePointerUnsupported,
    MouseCursorUnsupported,
    InvalidDitherParams,
    InvalidBrightness,
    InvalidGamma,
    InvalidContrast,
    InvalidFrameIndex,
    InvalidColor,
    InvalidCharset,
    InvalidAlgorithm,
    InvalidAntialias,
    OutOfBounds,
    Unknown(i32),
}

impl Error {
    /// A human-readable description of the error.
    pub fn message(&self) -> String {
        match self {
            Error::NotEnoughMemory => "not enough memory".to_owned(),
            Error::FailedToOpenGraphicsDevice => "failed to open graphics device".to_owned(),
            Error::InvalidSize => "invalid size".to_owned(),
            Error::InvalidMaskSize => "invalid mask size".to_owned(),
            Error::CanvasInUse => "canvas in use".to_owned(),
            Error::InvalidRefreshDelay => "invalid refresh delay".to_owned(),
            Error::WindowTitleUnsupported => "window title unsupported".to_owned(),
            Error::MousePointerUnsupported => "mouse pointer unsupported".to_owned(),
            Error::MouseCursorUnsupported => "mouse cursor unsupported".to_owned(),
            Error::InvalidDitherParams => "invalid dither params".to_owned(),
            Error::InvalidBrightness => "invalid brightness".to_owned(),
            Error::InvalidGamma => "invalid gamma".to_owned(),
            Error::InvalidContrast => "invalid contrast".to_owned(),
            Error::InvalidFrameIndex => "invalid frame index".to_owned(),
            Error::InvalidColor => "invalid color".to_owned(),
            Error::InvalidCharset => "invalid charset".to_owned(),
            Error::InvalidAlgorithm => "invalid algorithm".to_owned(),
            Error::InvalidAntialias => "invalid antialias".to_owned(),
            Error::OutOfBounds => "requested index is out of bounds".to_owned(),
            Error::Unknown(_) => "unknown error".to_owned(),
        }
    }
}

} // verus!
