//! Compositing one canvas onto another, with and without a mask.

use caca::error::Error;
use caca::{Boundaries, Canvas, Point};

fn canvas(w: usize, h: usize) -> Canvas {
    Canvas::new(&Boundaries { width: w, height: h }).unwrap()
}

#[test]
fn mismatched_mask_is_rejected() {
    let mut dst = canvas(10, 10);
    let src = canvas(4, 4);
    let mask = canvas(3, 4);
    assert_eq!(dst.blit(&Point { x: 0, y: 0 }, &src, Some(&mask)), Err(Error::InvalidMaskSize));
}

#[test]
fn all_zero_mask_changes_nothing() {
    let mut dst = canvas(10, 10);
    dst.put_char(&Point { x: 2, y: 2 }, 'd' as u32);
    let mut src = canvas(4, 4);
    for y in 0..4 {
        for x in 0..4 {
            src.put_char(&Point { x, y }, 's' as u32);
        }
    }
    // A fresh canvas holds only empty cells, so as a mask it suppresses
    // every source cell.
    let mask = canvas(4, 4);
    let before = dst.chars().clone();
    dst.blit(&Point { x: 1, y: 1 }, &src, Some(&mask)).unwrap();
    assert_eq!(dst.chars(), &before);
}

#[test]
fn blit_copies_source_cells() {
    let mut dst = canvas(10, 10);
    let mut src = canvas(3, 2);
    src.set_color_ansi(0x04, 0x01).unwrap();
    src.put_char(&Point { x: 0, y: 0 }, 'a' as u32);
    src.put_char(&Point { x: 2, y: 1 }, 'b' as u32);
    dst.blit(&Point { x: 4, y: 5 }, &src, None).unwrap();
    assert_eq!(dst.get_char(&Point { x: 4, y: 5 }), 'a' as u32);
    assert_eq!(dst.get_char(&Point { x: 6, y: 6 }), 'b' as u32);
    assert_eq!(dst.get_attr(&Point { x: 4, y: 5 }).ansi_fg(), 0x04);
    // Empty source cells are copied too.
    assert_eq!(dst.get_char(&Point { x: 5, y: 5 }), 0);
}

#[test]
fn blit_respects_source_handle() {
    let mut dst = canvas(10, 10);
    let mut src = canvas(2, 2);
    src.put_char(&Point { x: 0, y: 0 }, 'h' as u32);
    src.set_handle(Point { x: 1, y: 1 });
    // The handle shifts the source origin: the blit lands one cell up
    // and left of the given point.
    dst.blit(&Point { x: 5, y: 5 }, &src, None).unwrap();
    assert_eq!(dst.get_char(&Point { x: 4, y: 4 }), 'h' as u32);
}

#[test]
fn blit_clips_to_destination() {
    let mut dst = canvas(4, 4);
    let mut src = canvas(3, 3);
    for y in 0..3 {
        for x in 0..3 {
            src.put_char(&Point { x, y }, 'z' as u32);
        }
    }
    dst.blit(&Point { x: 2, y: 2 }, &src, None).unwrap();
    assert_eq!(dst.get_char(&Point { x: 2, y: 2 }), 'z' as u32);
    assert_eq!(dst.get_char(&Point { x: 3, y: 3 }), 'z' as u32);
    assert_eq!(dst.get_char(&Point { x: 1, y: 1 }), 0);
}

#[test]
fn partial_mask_lets_marked_cells_through() {
    let mut dst = canvas(6, 6);
    let mut src = canvas(2, 1);
    src.put_char(&Point { x: 0, y: 0 }, 'l' as u32);
    src.put_char(&Point { x: 1, y: 0 }, 'r' as u32);
    let mut mask = canvas(2, 1);
    mask.put_char(&Point { x: 1, y: 0 }, '#' as u32);
    dst.blit(&Point { x: 0, y: 0 }, &src, Some(&mask)).unwrap();
    assert_eq!(dst.get_char(&Point { x: 0, y: 0 }), 0);
    assert_eq!(dst.get_char(&Point { x: 1, y: 0 }), 'r' as u32);
}
