//! Decoding of raw input notifications into structured events: a pure
//! mapping from a platform event record to a tagged `Event` value.

use vstd::prelude::*;

use crate::Boundaries;
use crate::Point;

verus! {

pub const EVENT_KEY_PRESS: u32 = 0x0001;

pub const EVENT_KEY_RELEASE: u32 = 0x0002;

pub const EVENT_MOUSE_PRESS: u32 = 0x0004;

pub const EVENT_MOUSE_RELEASE: u32 = 0x0008;

pub const EVENT_MOUSE_MOTION: u32 = 0x0010;

pub const EVENT_RESIZE: u32 = 0x0020;

pub const EVENT_QUIT: u32 = 0x0040;

pub const EVENT_ANY: u32 = 0xffff;

/// A bit-set of the `EVENT_*` kinds an input loop wants delivered.
#[derive(Debug, Copy, Clone, PartialEq, Eq, Structural)]
pub struct EventMask {
    pub bits: u32,
}

impl EventMask {
    pub fn new(bits: u32) -> (r: EventMask)
        ensures
            r.bits == bits,
    {
        EventMask { bits }
    }

    /// Whether events of the given kind pass this mask.
    pub fn accepts(&self, kind: u32) -> (r: bool)
        ensures
            r == (self.bits & kind != 0),
    {
        self.bits & kind != 0
    }
}

/// One raw platform input record, already read by the I/O collaborator:
/// an event kind plus the union of the kinds' payloads.
#[derive(Debug, Copy, Clone, PartialEq, Eq, Structural)]
pub struct RawEvent {
    /// One of the `EVENT_*` kind values.
    pub kind: u32,
    /// The raw key code of a key event.
    pub key_ch: i32,
    /// The UTF-32 value of a key event.
    pub key_utf32: u32,
    /// The button number of a mouse button event.
    pub mouse_button: i32,
    pub mouse_x: i32,
    pub mouse_y: i32,
    /// The new dimensions of a resize event.
    pub width: usize,
    pub height: usize,
}

/// A decoded key: a named control or navigation key, a control chord, a
/// function key, a plain character, or an unknown code.
#[derive(Debug, Copy, Clone, PartialEq, Eq, Structural)]
pub enum Key {
    Backspace,
    Tab,
    Return,
    Pause,
    Escape,
    Delete,
    Up,
    Down,
    Left,
    Right,
    Insert,
    Home,
    End,
    PageUp,
    PageDown,
    Char(char),
    Ctrl(char),
    F(u32),
    Unknown(i32),
}

#[derive(Debug, Copy, Clone, PartialEq, Eq, Structural)]
pub enum MouseButton {
    Left,
    Right,
    Middle,
    Unknown(i32),
}

/// A decoded input event.
#[derive(Debug, Clone, PartialEq, Eq)]
pub enum Event {
    Nothing,
    KeyPress(Key, u32, Option<String>),
    KeyRelease(Key, u32, Option<String>),
    MousePress(MouseButton),
    MouseRelease(MouseButton),
    MouseMotion(Point),
    Resize(Boundaries),
    Quit,
}

/// The key a raw code decodes to: the control chords and named keys on
/// their conventional codes, `F(n)` for the function-key block,
/// `Char` for any other valid scalar value, `Unknown` otherwise.
pub open spec fn spec_key(raw: i32) -> Key {
    if raw == 0x01 {
        Key::Ctrl('a')
    } else if raw == 0x02 {
        Key::Ctrl('b')
    } else if raw == 0x03 {
        Key::Ctrl('c')
    } else if raw == 0x04 {
        Key::Ctrl('d')
    } else if raw == 0x05 {
        Key::Ctrl('e')
    } else if raw == 0x06 {
        Key::Ctrl('f')
    } else if raw == 0x07 {
        Key::Ctrl('g')
    } else if raw == 0x08 {
        Key::Backspace
    } else if raw == 0x09 {
        Key::Tab
    } else if raw == 0x0a {
        Key::Ctrl('j')
    } else if raw == 0x0b {
        Key::Ctrl('k')
    } else if raw == 0x0c {
        Key::Ctrl('l')
    } else if raw == 0x0d {
        Key::Return
    } else if raw == 0x0e {
        Key::Ctrl('n')
    } else if raw == 0x0f {
        Key::Ctrl('o')
    } else if raw == 0x10 {
        Key::Ctrl('p')
    } else if raw == 0x11 {
        Key::Ctrl('q')
    } else if raw == 0x12 {
        Key::Ctrl('r')
    } else if raw == 0x13 {
        Key::Pause
    } else if raw == 0x14 {
        Key::Ctrl('t')
    } else if raw == 0x15 {
        Key::Ctrl('u')
    } else if raw == 0x16 {
        Key::Ctrl('v')
    } else if raw == 0x17 {
        Key::Ctrl('w')
    } else if raw == 0x18 {
        Key::Ctrl('x')
    } else if raw == 0x19 {
        Key::Ctrl('y')
    } else if raw == 0x1a {
        Key::Ctrl('z')
    } else if raw == 0x1b {
        Key::Escape
    } else if raw == 0x7f {
        Key::Delete
    } else if raw == 273 {
        Key::Up
    } else if raw == 274 {
        Key::Down
    } else if raw == 275 {
        Key::Left
    } else if raw == 276 {
        Key::Right
    } else if raw == 277 {
        Key::Insert
    } else if raw == 278 {
        Key::Home
    } else if raw == 279 {
        Key::End
    } else if raw == 280 {
        Key::PageUp
    } else if raw == 281 {
        Key::PageDown
    } else if 282 <= raw && raw <= 296 {
        Key::F((raw - 281) as u32)
    } else if raw >= 0 && vstd::utf8::is_scalar(raw as u32) {
        Key::Char((raw as u32) as char)
    } else {
        Key::Unknown(raw)
    }
}

/// Relies on char::from_u32: `Some` exactly for Unicode scalar values,
/// returning the character with that value.
pub assume_specification[ char::from_u32 ](v: u32) -> (r: Option<char>)
    ensures
        r is Some <==> vstd::utf8::is_scalar(v),
        r matches Some(c) ==> c as u32 == v,
;

impl Key {
    /// Decodes a raw key code.
    pub fn from_code(raw: i32) -> (r: Key)
        ensures
            r == spec_key(raw),
    {
        if raw == 0x01 {
            Key::Ctrl('a')
        } else if raw == 0x02 {
            Key::Ctrl('b')
        } else if raw == 0x03 {
            Key::Ctrl('c')
        } else if raw == 0x04 {
            Key::Ctrl('d')
        } else if raw == 0x05 {
            Key::Ctrl('e')
        } else if raw == 0x06 {
            Key::Ctrl('f')
        } else if raw == 0x07 {
            Key::Ctrl('g')
        } else if raw == 0x08 {
            Key::Backspace
        } else if raw == 0x09 {
            Key::Tab
        } else if raw == 0x0a {
            Key::Ctrl('j')
        } else if raw == 0x0b {
            Key::Ctrl('k')
        } else if raw == 0x0c {
            Key::Ctrl('l')
        } else if raw == 0x0d {
            Key::Return
        } else if raw == 0x0e {
            Key::Ctrl('n')
        } else if raw == 0x0f {
            Key::Ctrl('o')
        } else if raw == 0x10 {
            Key::Ctrl('p')
        } else if raw == 0x11 {
            Key::Ctrl('q')
        } else if raw == 0x12 {
            Key::Ctrl('r')
        } else if raw == 0x13 {
            Key::Pause
        } else if raw == 0x14 {
            Key::Ctrl('t')
        } else if raw == 0x15 {
            Key::Ctrl('u')
        } else if raw == 0x16 {
            Key::Ctrl('v')
        } else if raw == 0x17 {
            Key::Ctrl('w')
        } else if raw == 0x18 {
            Key::Ctrl('x')
        } else if raw == 0x19 {
            Key::Ctrl('y')
        } else if raw == 0x1a {
            Key::Ctrl('z')
        } else if raw == 0x1b {
            Key::Escape
        } else if raw == 0x7f {
            Key::Delete
        } else if raw == 273 {
            Key::Up
        } else if raw == 274 {
            Key::Down
        } else if raw == 275 {
            Key::Left
        } else if raw == 276 {
            Key::Right
        } else if raw == 277 {
            Key::Insert
        } else if raw == 278 {
            Key::Home
        } else if raw == 279 {
            Key::End
        } else if raw == 280 {
            Key::PageUp
        } else if raw == 281 {
            Key::PageDown
        } else if 282 <= raw && raw <= 296 {
            Key::F((raw - 281) as u32)
        } else if raw >= 0 {
            match char::from_u32(raw as u32) {
                Some(ch) => {
                    proof {
                        vstd::utf8::char_u32_cast(ch, raw as u32);
                    }
                    Key::Char(ch)
                },
                None => Key::Unknown(raw),
            }
        } else {
            Key::Unknown(raw)
        }
    }
}

/// The mouse button a raw number decodes to.
pub open spec fn spec_button(raw: i32) -> MouseButton {
    if raw == 1 {
        MouseButton::Left
    } else if raw == 2 {
        MouseButton::Right
    } else if raw == 3 {
        MouseButton::Middle
    } else {
        MouseButton::Unknown(raw)
    }
}

impl MouseButton {
    /// Decodes a raw mouse button number.
    pub fn from_code(raw: i32) -> (r: MouseButton)
        ensures
            r == spec_button(raw),
    {
        if raw == 1 {
            MouseButton::Left
        } else if raw == 2 {
            MouseButton::Right
        } else if raw == 3 {
            MouseButton::Middle
        } else {
            MouseButton::Unknown(raw)
        }
    }
}

/// The textual rendering a key event owes: the single-character string
/// of the UTF-32 value when it is a non-zero scalar value, nothing
/// otherwise.
pub open spec fn spec_text_ok(u: u32, t: Option<String>) -> bool {
    if u != 0 && vstd::utf8::is_scalar(u) {
        t matches Some(s) && s@ == seq![u as char]
    } else {
        t is None
    }
}

/// Relies on char::to_string: the one-character string of the given
/// character.
#[verifier::external_body]
fn char_string(c: char) -> (r: String)
    ensures
        r@ == seq![c],
{
    c.to_string()
}

impl Event {
    /// Decodes one raw input record; unrecognised kinds decode to
    /// `Nothing`, and no input fails.
    pub fn decode(raw: &RawEvent) -> (r: Event)
        ensures
            raw.kind == EVENT_KEY_PRESS ==> (r matches Event::KeyPress(k, u, t) && k == spec_key(
                raw.key_ch,
            ) && u == raw.key_utf32 && spec_text_ok(raw.key_utf32, t)),
            raw.kind == EVENT_KEY_RELEASE ==> (r matches Event::KeyRelease(k, u, t) && k
                == spec_key(raw.key_ch) && u == raw.key_utf32 && spec_text_ok(raw.key_utf32, t)),
            raw.kind == EVENT_MOUSE_PRESS ==> r == Event::MousePress(
                spec_button(raw.mouse_button),
            ),
            raw.kind == EVENT_MOUSE_RELEASE ==> r == Event::MouseRelease(
                spec_button(raw.mouse_button),
            ),
            raw.kind == EVENT_MOUSE_MOTION ==> r == Event::MouseMotion(
                Point { x: raw.mouse_x, y: raw.mouse_y },
            ),
            raw.kind == EVENT_RESIZE ==> r == Event::Resize(
                Boundaries { width: raw.width, height: raw.height },
            ),
            raw.kind == EVENT_QUIT ==> r == Event::Quit,
            raw.kind != EVENT_KEY_PRESS && raw.kind != EVENT_KEY_RELEASE && raw.kind
                != EVENT_MOUSE_PRESS && raw.kind != EVENT_MOUSE_RELEASE && raw.kind
                != EVENT_MOUSE_MOTION && raw.kind != EVENT_RESIZE && raw.kind != EVENT_QUIT ==> r
                == Event::Nothing,
    {
        if raw.kind == EVENT_KEY_PRESS {
            let k = Key::from_code(raw.key_ch);
            let t = key_text(raw.key_utf32);
            Event::KeyPress(k, raw.key_utf32, t)
        } else if raw.kind == EVENT_KEY_RELEASE {
            let k = Key::from_code(raw.key_ch);
            let t = key_text(raw.key_utf32);
            Event::KeyRelease(k, raw.key_utf32, t)
        } else if raw.kind == EVENT_MOUSE_PRESS {
            Event::MousePress(MouseButton::from_code(raw.mouse_button))
        } else if raw.kind == EVENT_MOUSE_RELEASE {
            Event::MouseRelease(MouseButton::from_code(raw.mouse_button))
        } else if raw.kind == EVENT_MOUSE_MOTION {
            Event::MouseMotion(Point { x: raw.mouse_x, y: raw.mouse_y })
        } else if raw.kind == EVENT_RESIZE {
            Event::Resize(Boundaries { width: raw.width, height: raw.height })
        } else if raw.kind == EVENT_QUIT {
            Event::Quit
        } else {
            Event::Nothing
        }
    }
}

/// Builds the textual rendering of a key's UTF-32 value.
fn key_text(u: u32) -> (t: Option<String>)
    ensures
        spec_text_ok(u, t),
{
    if u == 0 {
        return None;
    }
    match char::from_u32(u) {
        Some(c) => {
            proof {
                vstd::utf8::char_u32_cast(c, u);
            }
            Some(char_string(c))
        },
        None => None,
    }
}

} // verus!
