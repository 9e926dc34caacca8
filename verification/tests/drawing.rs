//! Drawing primitives: boxes, lines, circles, ellipses, triangles.

use caca::draw::{GLYPH_CORNER_BL, GLYPH_CORNER_BR, GLYPH_CORNER_TL, GLYPH_CORNER_TR,
    GLYPH_HORIZONTAL, GLYPH_VERTICAL};
use caca::{Boundaries, Canvas, Circle, Ellipse, Point, Rectangle, Triangle};

fn canvas(w: usize, h: usize) -> Canvas {
    Canvas::new(&Boundaries { width: w, height: h }).unwrap()
}

#[test]
fn thin_box_draws_exactly_the_perimeter() {
    let mut c = canvas(10, 5);
    c.clear_dirty_rect_list();
    c.draw_thin_box(&Rectangle { x: 0, y: 0, width: 10, height: 5 });
    let mut glyph_cells = 0;
    for y in 0..5i32 {
        for x in 0..10i32 {
            let ch = c.get_char(&Point { x, y });
            let on_perimeter = x == 0 || x == 9 || y == 0 || y == 4;
            if on_perimeter {
                assert!(
                    ch == GLYPH_CORNER_TL || ch == GLYPH_CORNER_TR || ch == GLYPH_CORNER_BL
                        || ch == GLYPH_CORNER_BR || ch == GLYPH_HORIZONTAL
                        || ch == GLYPH_VERTICAL
                );
                glyph_cells += 1;
            } else {
                assert_eq!(ch, 0);
            }
        }
    }
    // A 10 by 5 box has 26 perimeter cells.
    assert_eq!(glyph_cells, 26);
    assert_eq!(c.get_char(&Point { x: 0, y: 0 }), GLYPH_CORNER_TL);
    assert_eq!(c.get_char(&Point { x: 9, y: 0 }), GLYPH_CORNER_TR);
    assert_eq!(c.get_char(&Point { x: 0, y: 4 }), GLYPH_CORNER_BL);
    assert_eq!(c.get_char(&Point { x: 9, y: 4 }), GLYPH_CORNER_BR);
    assert_eq!(c.get_char(&Point { x: 5, y: 0 }), GLYPH_HORIZONTAL);
    assert_eq!(c.get_char(&Point { x: 0, y: 2 }), GLYPH_VERTICAL);
    // The dirty set covers the box.
    assert_eq!(c.get_dirty_rect(0).unwrap(), Rectangle { x: 0, y: 0, width: 10, height: 5 });
}

#[test]
fn box_stamps_character_on_perimeter_only() {
    let mut c = canvas(6, 6);
    c.draw_box(&Rectangle { x: 1, y: 1, width: 4, height: 3 }, '#' as u32);
    assert_eq!(c.get_char(&Point { x: 1, y: 1 }), '#' as u32);
    assert_eq!(c.get_char(&Point { x: 4, y: 3 }), '#' as u32);
    assert_eq!(c.get_char(&Point { x: 2, y: 2 }), 0);
    assert_eq!(c.get_char(&Point { x: 0, y: 0 }), 0);
}

#[test]
fn degenerate_box_is_noop() {
    let mut c = canvas(4, 4);
    c.draw_box(&Rectangle { x: 1, y: 1, width: 0, height: 3 }, '#' as u32);
    for y in 0..4i32 {
        for x in 0..4i32 {
            assert_eq!(c.get_char(&Point { x, y }), 0);
        }
    }
}

#[test]
fn box_clips_to_canvas() {
    let mut c = canvas(4, 4);
    c.draw_box(&Rectangle { x: -2, y: -2, width: 20, height: 20 }, '#' as u32);
    // The perimeter lies outside, so nothing is drawn.
    for y in 0..4i32 {
        for x in 0..4i32 {
            assert_eq!(c.get_char(&Point { x, y }), 0);
        }
    }
}

#[test]
fn line_endpoints_and_direction() {
    let mut c = canvas(8, 8);
    c.draw_line(&Point { x: 1, y: 1 }, &Point { x: 6, y: 1 }, '-' as u32);
    for x in 1..=6i32 {
        assert_eq!(c.get_char(&Point { x, y: 1 }), '-' as u32);
    }
    assert_eq!(c.get_char(&Point { x: 0, y: 1 }), 0);
    assert_eq!(c.get_char(&Point { x: 7, y: 1 }), 0);
}

#[test]
fn diagonal_line_hits_endpoints() {
    let mut c = canvas(8, 8);
    c.draw_line(&Point { x: 0, y: 0 }, &Point { x: 7, y: 7 }, '*' as u32);
    assert_eq!(c.get_char(&Point { x: 0, y: 0 }), '*' as u32);
    assert_eq!(c.get_char(&Point { x: 7, y: 7 }), '*' as u32);
}

#[test]
fn zero_length_line_writes_single_cell() {
    let mut c = canvas(4, 4);
    c.draw_line(&Point { x: 2, y: 2 }, &Point { x: 2, y: 2 }, 'o' as u32);
    assert_eq!(c.get_char(&Point { x: 2, y: 2 }), 'o' as u32);
}

#[test]
fn thin_line_picks_direction_glyph() {
    let mut c = canvas(8, 8);
    c.draw_thin_line(&Point { x: 0, y: 3 }, &Point { x: 7, y: 3 });
    assert_eq!(c.get_char(&Point { x: 3, y: 3 }), GLYPH_HORIZONTAL);
    let mut d = canvas(8, 8);
    d.draw_thin_line(&Point { x: 3, y: 0 }, &Point { x: 3, y: 7 });
    assert_eq!(d.get_char(&Point { x: 3, y: 3 }), GLYPH_VERTICAL);
}

#[test]
fn polyline_stamps_all_vertices() {
    let mut c = canvas(10, 10);
    let pts = vec![
        Point { x: 1, y: 1 },
        Point { x: 8, y: 1 },
        Point { x: 8, y: 8 },
    ];
    c.draw_polyline(&pts, '+' as u32);
    assert_eq!(c.get_char(&Point { x: 1, y: 1 }), '+' as u32);
    assert_eq!(c.get_char(&Point { x: 8, y: 1 }), '+' as u32);
    assert_eq!(c.get_char(&Point { x: 8, y: 8 }), '+' as u32);
}

#[test]
fn thin_polyline_uses_line_glyphs() {
    let mut c = canvas(10, 10);
    let pts = vec![
        Point { x: 1, y: 1 },
        Point { x: 8, y: 1 },
        Point { x: 8, y: 8 },
    ];
    c.draw_thin_polyline(&pts);
    assert_eq!(c.get_char(&Point { x: 4, y: 1 }), GLYPH_HORIZONTAL);
    assert_eq!(c.get_char(&Point { x: 8, y: 4 }), GLYPH_VERTICAL);
}

#[test]
fn zero_radius_circle_writes_centre() {
    let mut c = canvas(6, 6);
    c.draw_circle(&Circle { x: 3, y: 3, radius: 0 }, 'o' as u32);
    assert_eq!(c.get_char(&Point { x: 3, y: 3 }), 'o' as u32);
    assert_eq!(c.get_char(&Point { x: 2, y: 3 }), 0);
}

#[test]
fn circle_outline_has_cardinal_points() {
    let mut c = canvas(10, 10);
    c.draw_circle(&Circle { x: 4, y: 4, radius: 3 }, 'o' as u32);
    assert_eq!(c.get_char(&Point { x: 1, y: 4 }), 'o' as u32);
    assert_eq!(c.get_char(&Point { x: 7, y: 4 }), 'o' as u32);
    assert_eq!(c.get_char(&Point { x: 4, y: 1 }), 'o' as u32);
    assert_eq!(c.get_char(&Point { x: 4, y: 7 }), 'o' as u32);
    // The centre is interior, not outline.
    assert_eq!(c.get_char(&Point { x: 4, y: 4 }), 0);
}

#[test]
fn fill_ellipse_covers_interior() {
    let mut c = canvas(10, 10);
    c.fill_ellipse(&Ellipse { x: 4, y: 4, x_radius: 3, y_radius: 2 }, '#' as u32);
    assert_eq!(c.get_char(&Point { x: 4, y: 4 }), '#' as u32);
    assert_eq!(c.get_char(&Point { x: 1, y: 4 }), '#' as u32);
    assert_eq!(c.get_char(&Point { x: 4, y: 2 }), '#' as u32);
    assert_eq!(c.get_char(&Point { x: 1, y: 2 }), 0);
}

#[test]
fn thin_ellipse_uses_line_glyphs() {
    let mut c = canvas(12, 8);
    c.draw_thin_ellipse(&Ellipse { x: 5, y: 3, x_radius: 4, y_radius: 2 });
    // A boundary cell inside a horizontal run gets the horizontal glyph,
    // one at the left edge the vertical glyph.
    assert_eq!(c.get_char(&Point { x: 3, y: 2 }), GLYPH_HORIZONTAL);
    assert_eq!(c.get_char(&Point { x: 1, y: 3 }), GLYPH_VERTICAL);
}

#[test]
fn fill_triangle_covers_inside() {
    let mut c = canvas(10, 10);
    let t = Triangle {
        vertex1: Point { x: 1, y: 1 },
        vertex2: Point { x: 8, y: 1 },
        vertex3: Point { x: 1, y: 8 },
    };
    c.fill_triangle(&t, 't' as u32);
    assert_eq!(c.get_char(&Point { x: 2, y: 2 }), 't' as u32);
    assert_eq!(c.get_char(&Point { x: 1, y: 1 }), 't' as u32);
    assert_eq!(c.get_char(&Point { x: 8, y: 8 }), 0);
}

#[test]
fn triangle_outline_hits_vertices() {
    let mut c = canvas(10, 10);
    let t = Triangle {
        vertex1: Point { x: 1, y: 1 },
        vertex2: Point { x: 8, y: 2 },
        vertex3: Point { x: 4, y: 8 },
    };
    c.draw_triangle(&t, '^' as u32);
    assert_eq!(c.get_char(&Point { x: 1, y: 1 }), '^' as u32);
    assert_eq!(c.get_char(&Point { x: 8, y: 2 }), '^' as u32);
    assert_eq!(c.get_char(&Point { x: 4, y: 8 }), '^' as u32);
    let mut d = canvas(10, 10);
    d.draw_thin_triangle(&t);
    assert_ne!(d.get_char(&Point { x: 1, y: 1 }), 0);
}

#[test]
fn drawing_uses_current_attribute() {
    let mut c = canvas(6, 6);
    c.set_color_ansi(0x04, 0x00).unwrap();
    c.draw_box(&Rectangle { x: 0, y: 0, width: 6, height: 6 }, '#' as u32);
    assert_eq!(c.get_attr(&Point { x: 0, y: 0 }).ansi_fg(), 0x04);
}


#[test]
fn degenerate_triangle_fills_trivially() {
    // Coincident vertices fill exactly one cell.
    let mut c = canvas(3, 1);
    let t = Triangle {
        vertex1: Point { x: 0, y: 0 },
        vertex2: Point { x: 0, y: 0 },
        vertex3: Point { x: 0, y: 0 },
    };
    c.fill_triangle(&t, '#' as u32);
    assert_eq!(c.get_char(&Point { x: 0, y: 0 }), '#' as u32);
    assert_eq!(c.get_char(&Point { x: 1, y: 0 }), 0);
    assert_eq!(c.get_char(&Point { x: 2, y: 0 }), 0);
    // Collinear vertices fill only the cells on their line.
    let mut d = canvas(6, 4);
    let l = Triangle {
        vertex1: Point { x: 0, y: 0 },
        vertex2: Point { x: 2, y: 1 },
        vertex3: Point { x: 4, y: 2 },
    };
    d.fill_triangle(&l, '#' as u32);
    assert_eq!(d.get_char(&Point { x: 0, y: 0 }), '#' as u32);
    assert_eq!(d.get_char(&Point { x: 2, y: 1 }), '#' as u32);
    assert_eq!(d.get_char(&Point { x: 4, y: 2 }), '#' as u32);
    assert_eq!(d.get_char(&Point { x: 1, y: 0 }), 0);
    assert_eq!(d.get_char(&Point { x: 3, y: 3 }), 0);
}

#[test]
fn degenerate_ellipse_is_a_segment() {
    // A zero x-radius collapses the ellipse to a vertical segment.
    let mut c = canvas(1, 10);
    c.fill_ellipse(&Ellipse { x: 0, y: 5, x_radius: 0, y_radius: 2 }, '#' as u32);
    for y in 3..=7i32 {
        assert_eq!(c.get_char(&Point { x: 0, y }), '#' as u32);
    }
    assert_eq!(c.get_char(&Point { x: 0, y: 2 }), 0);
    assert_eq!(c.get_char(&Point { x: 0, y: 8 }), 0);
    // And a zero y-radius to a horizontal one.
    let mut d = canvas(10, 1);
    d.fill_ellipse(&Ellipse { x: 4, y: 0, x_radius: 3, y_radius: 0 }, '#' as u32);
    assert_eq!(d.get_char(&Point { x: 1, y: 0 }), '#' as u32);
    assert_eq!(d.get_char(&Point { x: 7, y: 0 }), '#' as u32);
    assert_eq!(d.get_char(&Point { x: 0, y: 0 }), 0);
    assert_eq!(d.get_char(&Point { x: 8, y: 0 }), 0);
}
