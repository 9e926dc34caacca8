//! Canvas creation, cells, cursor, frames and the dirty-rectangle API.

use caca::error::Error;
use caca::{Boundaries, Canvas, Point, Rectangle};

fn canvas(w: usize, h: usize) -> Canvas {
    Canvas::new(&Boundaries { width: w, height: h }).unwrap()
}

#[test]
fn zero_width_is_invalid_size() {
    let r = Canvas::new(&Boundaries { width: 0, height: 24 });
    assert_eq!(r.err().unwrap(), Error::InvalidSize);
}

#[test]
fn eighty_by_twenty_four_succeeds() {
    let c = canvas(80, 24);
    let s = c.size();
    assert_eq!(s.width, 80);
    assert_eq!(s.height, 24);
    assert_eq!(c.width(), 80);
    assert_eq!(c.height(), 24);
}

#[test]
fn new_canvas_is_empty() {
    let c = canvas(4, 3);
    for y in 0..3 {
        for x in 0..4 {
            assert_eq!(c.get_char(&Point { x, y }), 0);
        }
    }
    assert_eq!(c.chars().len(), 12);
    assert_eq!(c.attrs().len(), 12);
}

#[test]
fn put_and_get_char() {
    let mut c = canvas(10, 5);
    let adv = c.put_char(&Point { x: 3, y: 2 }, 'A' as u32);
    assert_eq!(adv, 1);
    assert_eq!(c.get_char(&Point { x: 3, y: 2 }), 'A' as u32);
    assert_eq!(c.get_char(&Point { x: 4, y: 2 }), 0);
}

#[test]
fn put_char_fullwidth_advance() {
    let mut c = canvas(10, 5);
    let adv = c.put_char(&Point { x: 0, y: 0 }, 0xff21);
    assert_eq!(adv, 2);
}

#[test]
fn put_char_out_of_bounds_is_noop() {
    let mut c = canvas(4, 4);
    c.put_char(&Point { x: -1, y: 2 }, 'x' as u32);
    c.put_char(&Point { x: 2, y: 99 }, 'x' as u32);
    for y in 0..4 {
        for x in 0..4 {
            assert_eq!(c.get_char(&Point { x, y }), 0);
        }
    }
}

#[test]
fn put_str_advances_by_display_width() {
    let mut c = canvas(10, 3);
    let adv = c.put_str(&Point { x: 1, y: 1 }, "ab");
    assert_eq!(adv, 2);
    assert_eq!(c.get_char(&Point { x: 1, y: 1 }), 'a' as u32);
    assert_eq!(c.get_char(&Point { x: 2, y: 1 }), 'b' as u32);
}

#[test]
fn put_str_fullwidth_spacing() {
    let mut c = canvas(10, 3);
    // The full-width character advances two columns.
    let adv = c.put_str(&Point { x: 0, y: 0 }, "\u{ff21}b");
    assert_eq!(adv, 3);
    assert_eq!(c.get_char(&Point { x: 0, y: 0 }), 0xff21);
    assert_eq!(c.get_char(&Point { x: 1, y: 0 }), 0);
    assert_eq!(c.get_char(&Point { x: 2, y: 0 }), 'b' as u32);
}

#[test]
fn cursor_clamps_to_non_negative() {
    let mut c = canvas(5, 5);
    c.gotoxy(&Point { x: -7, y: 3 });
    assert_eq!(c.wherex(), 0);
    assert_eq!(c.wherey(), 3);
}

#[test]
fn handle_roundtrip() {
    let mut c = canvas(5, 5);
    c.set_handle(Point { x: 2, y: -1 });
    assert_eq!(c.get_handle_x(), 2);
    assert_eq!(c.get_handle_y(), -1);
    let p = c.get_hande();
    assert_eq!(p, Point { x: 2, y: -1 });
}

#[test]
fn attr_ops_compose() {
    let mut c = canvas(3, 3);
    c.set_attr(caca::Attr::new(0b1010));
    c.toggle_attr(caca::Attr::new(0b0110));
    // 1010 ^ 0110 == 1100
    c.unset_attr(caca::Attr::new(0b0100));
    // 1100 & !0100 == 1000
    c.put_char(&Point { x: 0, y: 0 }, 'x' as u32);
    assert_eq!(c.get_attr(&Point { x: 0, y: 0 }).value(), 0b1000);
}

#[test]
fn set_color_ansi_validates() {
    let mut c = canvas(3, 3);
    assert!(c.set_color_ansi(0x0e, 0x01).is_ok());
    assert_eq!(c.set_color_ansi(0x11, 0x00), Err(Error::InvalidColor));
    assert_eq!(c.set_color_ansi(0x00, 0x21), Err(Error::InvalidColor));
    c.put_char(&Point { x: 1, y: 1 }, 'c' as u32);
    let a = c.get_attr(&Point { x: 1, y: 1 });
    assert_eq!(a.ansi_fg(), 0x0e);
    assert_eq!(a.ansi_bg(), 0x01);
}

#[test]
fn set_color_argb_sets_rgb12() {
    let mut c = canvas(3, 3);
    c.set_color_argb(0x123, 0xabc);
    c.put_char(&Point { x: 0, y: 0 }, 'c' as u32);
    let a = c.get_attr(&Point { x: 0, y: 0 });
    assert_eq!(a.rgb12_fg(), 0x123);
    assert_eq!(a.rgb12_bg(), 0xabc);
}

#[test]
fn clear_fills_with_empty_cells() {
    let mut c = canvas(4, 2);
    c.put_char(&Point { x: 1, y: 1 }, 'z' as u32);
    c.clear();
    for y in 0..2 {
        for x in 0..4 {
            assert_eq!(c.get_char(&Point { x, y }), 0);
        }
    }
}

#[test]
fn two_frames_are_isolated() {
    let mut c = canvas(10, 5);
    for y in 0..5 {
        for x in 0..10 {
            c.put_char(&Point { x, y }, 'A' as u32);
        }
    }
    c.create_frame(1).unwrap();
    assert_eq!(c.frame_count(), 2);
    c.set_frame(1).unwrap();
    assert_eq!(c.get_char(&Point { x: 0, y: 0 }), 0);
    c.put_char(&Point { x: 0, y: 0 }, 'B' as u32);
    c.set_frame(0).unwrap();
    assert_eq!(c.get_char(&Point { x: 0, y: 0 }), 'A' as u32);
}

#[test]
fn set_frame_rejects_bad_index() {
    let mut c = canvas(4, 4);
    assert_eq!(c.set_frame(1), Err(Error::InvalidFrameIndex));
}

#[test]
fn free_frame_rules() {
    let mut c = canvas(4, 4);
    assert_eq!(c.free_frame(0), Err(Error::InvalidFrameIndex));
    c.create_frame(1).unwrap();
    assert_eq!(c.free_frame(2), Err(Error::InvalidFrameIndex));
    assert!(c.free_frame(1).is_ok());
    assert_eq!(c.frame_count(), 1);
}

#[test]
fn frame_names() {
    let mut c = canvas(4, 4);
    assert_eq!(c.frame_name(), "");
    c.set_frame_name("title").unwrap();
    assert_eq!(c.frame_name(), "title");
}

#[test]
fn dirty_rect_api() {
    let mut c = canvas(10, 5);
    // A fresh canvas starts with the whole surface dirty.
    assert_eq!(c.get_dirty_rect_count(), 1);
    assert_eq!(c.get_dirty_rect(0).unwrap(), Rectangle { x: 0, y: 0, width: 10, height: 5 });
    assert_eq!(c.get_dirty_rect(1), Err(Error::OutOfBounds));
    assert_eq!(c.get_dirty_rect(-1), Err(Error::OutOfBounds));
    c.clear_dirty_rect_list();
    assert_eq!(c.get_dirty_rect_count(), 0);
    // A rectangle is clamped before it is recorded.
    c.caca_add_dirty_rect(&Rectangle { x: -2, y: -2, width: 5, height: 4 }).unwrap();
    assert_eq!(c.get_dirty_rect(0).unwrap(), Rectangle { x: 0, y: 0, width: 3, height: 2 });
    // One that misses the canvas entirely is rejected.
    assert_eq!(
        c.caca_add_dirty_rect(&Rectangle { x: 50, y: 0, width: 3, height: 3 }),
        Err(Error::OutOfBounds)
    );
    // Removal drops recorded rectangles lying inside the given one.
    c.remove_dirty_rect(&Rectangle { x: 0, y: 0, width: 10, height: 5 }).unwrap();
    assert_eq!(c.get_dirty_rect_count(), 0);
}

#[test]
fn dirty_tracking_of_writes() {
    let mut c = canvas(10, 5);
    c.clear_dirty_rect_list();
    c.put_char(&Point { x: 3, y: 1 }, 'x' as u32);
    assert_eq!(c.get_dirty_rect_count(), 1);
    assert_eq!(c.get_dirty_rect(0).unwrap(), Rectangle { x: 3, y: 1, width: 1, height: 1 });
}

#[test]
fn disable_and_enable_dirty() {
    let mut c = canvas(6, 4);
    c.clear_dirty_rect_list();
    c.disable_dirty_rect();
    c.put_char(&Point { x: 0, y: 0 }, 'x' as u32);
    assert_eq!(c.get_dirty_rect_count(), 0);
    c.enable_dirty_rect().unwrap();
    // Re-enabling marks the whole surface dirty.
    assert_eq!(c.get_dirty_rect(0).unwrap(), Rectangle { x: 0, y: 0, width: 6, height: 4 });
    // Enabling an enabled tracker changes nothing.
    c.enable_dirty_rect().unwrap();
    assert_eq!(c.get_dirty_rect_count(), 1);
}

#[test]
fn set_size_checks_lock_and_dims() {
    let mut c = canvas(4, 4);
    c.set_in_use(true);
    assert_eq!(c.set_size(&Boundaries { width: 6, height: 6 }), Err(Error::CanvasInUse));
    c.set_in_use(false);
    assert_eq!(c.set_size(&Boundaries { width: 0, height: 6 }), Err(Error::InvalidSize));
    assert!(c.set_size(&Boundaries { width: 6, height: 6 }).is_ok());
    assert_eq!(c.width(), 6);
}

#[test]
fn set_boundaries_crops() {
    let mut c = canvas(6, 4);
    c.put_char(&Point { x: 2, y: 1 }, 'q' as u32);
    c.set_boundaries(&Rectangle { x: 2, y: 1, width: 3, height: 2 }).unwrap();
    assert_eq!(c.width(), 3);
    assert_eq!(c.height(), 2);
    assert_eq!(c.get_char(&Point { x: 0, y: 0 }), 'q' as u32);
    let mut d = canvas(6, 4);
    d.set_in_use(true);
    assert_eq!(
        d.set_boundaries(&Rectangle { x: 0, y: 0, width: 2, height: 2 }),
        Err(Error::CanvasInUse)
    );
}
