//! Whole-buffer transforms: mirrors, rotations, resizes, stretches.

use caca::error::Error;
use caca::{Boundaries, Canvas, Point};

fn canvas(w: usize, h: usize) -> Canvas {
    Canvas::new(&Boundaries { width: w, height: h }).unwrap()
}

fn fill_pattern(c: &mut Canvas, w: i32, h: i32) {
    for y in 0..h {
        for x in 0..w {
            c.put_char(&Point { x, y }, (0x41 + (y * w + x) as u32) as u32);
        }
    }
}

fn snapshot(c: &Canvas) -> Vec<u32> {
    c.chars().clone()
}

#[test]
fn resize_roundtrip_preserves_overlap() {
    let mut c = canvas(5, 4);
    fill_pattern(&mut c, 5, 4);
    let before = snapshot(&c);
    c.set_size(&Boundaries { width: 3, height: 6 }).unwrap();
    c.set_size(&Boundaries { width: 5, height: 4 }).unwrap();
    // Cells of the common 3 by 4 region survive both resizes.
    for y in 0..4i32 {
        for x in 0..3i32 {
            assert_eq!(c.get_char(&Point { x, y }), before[(y * 5 + x) as usize]);
        }
    }
    // Cells outside the intermediate size were cleared.
    assert_eq!(c.get_char(&Point { x: 4, y: 0 }), 0);
}

#[test]
fn flip_is_involutive() {
    let mut c = canvas(4, 3);
    fill_pattern(&mut c, 4, 3);
    let before = snapshot(&c);
    c.flip();
    assert_eq!(c.get_char(&Point { x: 0, y: 0 }), before[(2 * 4) as usize]);
    c.flip();
    assert_eq!(snapshot(&c), before);
}

#[test]
fn flop_is_involutive() {
    let mut c = canvas(4, 3);
    fill_pattern(&mut c, 4, 3);
    let before = snapshot(&c);
    c.flop();
    assert_eq!(c.get_char(&Point { x: 0, y: 0 }), before[3]);
    c.flop();
    assert_eq!(snapshot(&c), before);
}

#[test]
fn rotate_180_is_involutive() {
    let mut c = canvas(4, 3);
    fill_pattern(&mut c, 4, 3);
    let before = snapshot(&c);
    c.rotate_180();
    assert_eq!(c.get_char(&Point { x: 0, y: 0 }), before[11]);
    c.rotate_180();
    assert_eq!(snapshot(&c), before);
}

#[test]
fn rotate_left_then_right_restores() {
    let mut c = canvas(5, 3);
    fill_pattern(&mut c, 5, 3);
    let before = snapshot(&c);
    c.rotate_left().unwrap();
    assert_eq!(c.width(), 3);
    assert_eq!(c.height(), 5);
    c.rotate_right().unwrap();
    assert_eq!(c.width(), 5);
    assert_eq!(c.height(), 3);
    assert_eq!(snapshot(&c), before);
}

#[test]
fn rotate_checks_lock() {
    let mut c = canvas(4, 4);
    c.set_in_use(true);
    assert_eq!(c.rotate_left(), Err(Error::CanvasInUse));
    assert_eq!(c.rotate_right(), Err(Error::CanvasInUse));
    assert_eq!(c.stretch_left(), Err(Error::CanvasInUse));
    assert_eq!(c.stretch_right(), Err(Error::CanvasInUse));
}

#[test]
fn stretch_right_doubles_columns() {
    let mut c = canvas(3, 2);
    fill_pattern(&mut c, 3, 2);
    let before = snapshot(&c);
    c.stretch_right().unwrap();
    assert_eq!(c.width(), 6);
    for x in 0..6i32 {
        assert_eq!(c.get_char(&Point { x, y: 0 }), before[(x / 2) as usize]);
    }
}

#[test]
fn stretch_left_halves_columns() {
    let mut c = canvas(5, 1);
    fill_pattern(&mut c, 5, 1);
    let before = snapshot(&c);
    c.stretch_left().unwrap();
    assert_eq!(c.width(), 3);
    for x in 0..3i32 {
        assert_eq!(c.get_char(&Point { x, y: 0 }), before[(2 * x) as usize]);
    }
}

#[test]
fn invert_swaps_colors_and_keeps_chars() {
    let mut c = canvas(3, 1);
    c.set_color_ansi(0x0e, 0x01).unwrap();
    c.put_char(&Point { x: 0, y: 0 }, 'x' as u32);
    c.invert();
    assert_eq!(c.get_char(&Point { x: 0, y: 0 }), 'x' as u32);
    let a = c.get_attr(&Point { x: 0, y: 0 });
    assert_eq!(a.ansi_fg(), 0x01);
    assert_eq!(a.ansi_bg(), 0x0e);
    c.invert();
    let b = c.get_attr(&Point { x: 0, y: 0 });
    assert_eq!(b.ansi_fg(), 0x0e);
    assert_eq!(b.ansi_bg(), 0x01);
}
