//! Decoding raw input records into events.

use caca::event::{
    EVENT_KEY_PRESS, EVENT_KEY_RELEASE, EVENT_MOUSE_MOTION, EVENT_MOUSE_PRESS, EVENT_QUIT,
    EVENT_RESIZE, EventMask, Key, MouseButton, RawEvent,
};
use caca::{Boundaries, Event, Point};

fn raw(kind: u32) -> RawEvent {
    RawEvent {
        kind,
        key_ch: 0,
        key_utf32: 0,
        mouse_button: 0,
        mouse_x: 0,
        mouse_y: 0,
        width: 0,
        height: 0,
    }
}

#[test]
fn key_codes_decode_to_named_keys() {
    assert_eq!(Key::from_code(0x08), Key::Backspace);
    assert_eq!(Key::from_code(0x09), Key::Tab);
    assert_eq!(Key::from_code(0x0d), Key::Return);
    assert_eq!(Key::from_code(0x13), Key::Pause);
    assert_eq!(Key::from_code(0x1b), Key::Escape);
    assert_eq!(Key::from_code(0x7f), Key::Delete);
    assert_eq!(Key::from_code(273), Key::Up);
    assert_eq!(Key::from_code(274), Key::Down);
    assert_eq!(Key::from_code(275), Key::Left);
    assert_eq!(Key::from_code(276), Key::Right);
    assert_eq!(Key::from_code(277), Key::Insert);
    assert_eq!(Key::from_code(278), Key::Home);
    assert_eq!(Key::from_code(279), Key::End);
    assert_eq!(Key::from_code(280), Key::PageUp);
    assert_eq!(Key::from_code(281), Key::PageDown);
}

#[test]
fn control_chords_and_function_keys() {
    assert_eq!(Key::from_code(0x01), Key::Ctrl('a'));
    assert_eq!(Key::from_code(0x03), Key::Ctrl('c'));
    assert_eq!(Key::from_code(0x1a), Key::Ctrl('z'));
    assert_eq!(Key::from_code(282), Key::F(1));
    assert_eq!(Key::from_code(296), Key::F(15));
}

#[test]
fn plain_characters_and_unknown_codes() {
    assert_eq!(Key::from_code('q' as i32), Key::Char('q'));
    assert_eq!(Key::from_code(0x20ac), Key::Char('\u{20ac}'));
    // A surrogate value has no character.
    assert_eq!(Key::from_code(0xd800), Key::Unknown(0xd800));
    assert_eq!(Key::from_code(-5), Key::Unknown(-5));
}

#[test]
fn mouse_buttons() {
    assert_eq!(MouseButton::from_code(1), MouseButton::Left);
    assert_eq!(MouseButton::from_code(2), MouseButton::Right);
    assert_eq!(MouseButton::from_code(3), MouseButton::Middle);
    assert_eq!(MouseButton::from_code(9), MouseButton::Unknown(9));
}

#[test]
fn key_press_carries_text() {
    let mut r = raw(EVENT_KEY_PRESS);
    r.key_ch = 'x' as i32;
    r.key_utf32 = 'x' as u32;
    let e = Event::decode(&r);
    assert_eq!(e, Event::KeyPress(Key::Char('x'), 'x' as u32, Some("x".to_string())));
}

#[test]
fn key_release_without_text() {
    let mut r = raw(EVENT_KEY_RELEASE);
    r.key_ch = 0x1b;
    r.key_utf32 = 0;
    let e = Event::decode(&r);
    assert_eq!(e, Event::KeyRelease(Key::Escape, 0, None));
}

#[test]
fn mouse_events() {
    let mut r = raw(EVENT_MOUSE_PRESS);
    r.mouse_button = 2;
    assert_eq!(Event::decode(&r), Event::MousePress(MouseButton::Right));
    let mut m = raw(EVENT_MOUSE_MOTION);
    m.mouse_x = 12;
    m.mouse_y = 7;
    assert_eq!(Event::decode(&m), Event::MouseMotion(Point { x: 12, y: 7 }));
}

#[test]
fn resize_and_quit() {
    let mut r = raw(EVENT_RESIZE);
    r.width = 132;
    r.height = 43;
    assert_eq!(Event::decode(&r), Event::Resize(Boundaries { width: 132, height: 43 }));
    assert_eq!(Event::decode(&raw(EVENT_QUIT)), Event::Quit);
}

#[test]
fn unknown_kind_decodes_to_nothing() {
    assert_eq!(Event::decode(&raw(0x4000)), Event::Nothing);
    assert_eq!(Event::decode(&raw(0)), Event::Nothing);
}

#[test]
fn event_masks_filter_kinds() {
    let m = EventMask::new(EVENT_KEY_PRESS | EVENT_QUIT);
    assert!(m.accepts(EVENT_KEY_PRESS));
    assert!(m.accepts(EVENT_QUIT));
    assert!(!m.accepts(EVENT_RESIZE));
    let any = EventMask::new(caca::event::EVENT_ANY);
    assert!(any.accepts(EVENT_MOUSE_MOTION));
}
