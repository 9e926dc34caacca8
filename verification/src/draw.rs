//! Geometric drawing primitives.  Every primitive clips silently to the
//! canvas, stamps the current attribute, and records a dirty rectangle
//! covering everything it may have changed.

use vstd::prelude::*;

use crate::Circle;
use crate::Ellipse;
use crate::Point;
use crate::Rectangle;
use crate::Triangle;
use crate::canvas::Canvas;
use crate::canvas::clamp_rect;
use crate::canvas::dirty_extended;
use crate::canvas::imax;
use crate::canvas::imin;
use crate::canvas::spec_clamp;
use crate::canvas::spec_intersects;

verus! {

/// The glyphs of a thin box outline.
pub const GLYPH_CORNER_TL: u32 = 0x250c;

pub const GLYPH_CORNER_TR: u32 = 0x2510;

pub const GLYPH_CORNER_BL: u32 = 0x2514;

pub const GLYPH_CORNER_BR: u32 = 0x2518;

pub const GLYPH_HORIZONTAL: u32 = 0x2500;

pub const GLYPH_VERTICAL: u32 = 0x2502;

/// A closed shape a primitive rasterises cell by cell.
#[derive(Copy, Clone)]
pub enum Shape {
    /// All cells within the radius box satisfying the ellipse
    /// inequality `(x-cx)^2 ry^2 + (y-cy)^2 rx^2 <= rx^2 ry^2`; a zero
    /// radius collapses that axis, down to the centre cell alone when
    /// both radii are zero.
    FilledEllipse { cx: i64, cy: i64, rx: i64, ry: i64 },
    /// The filled ellipse's boundary cells: inside, with at least one of
    /// the four neighbours outside.  `thin` picks line glyphs instead of
    /// the caller's character.
    EllipseOutline { cx: i64, cy: i64, rx: i64, ry: i64, thin: bool },
    /// All cells inside the vertices' bounding box whose three edge
    /// functions agree in sign; a degenerate triangle (zero area) keeps
    /// only the cells on which all three vanish, so collinear vertices
    /// fill their segment and coincident vertices one cell.
    FilledTriangle { x1: i64, y1: i64, x2: i64, y2: i64, x3: i64, y3: i64 },
    /// The edge cells of the axis-aligned box with inclusive corners
    /// `(x0, y0)` and `(x1, y1)`; `thin` picks box-drawing glyphs.
    BoxEdge { x0: i64, y0: i64, x1: i64, y1: i64, thin: bool },
}

/// Field bounds under which the hit tests cannot overflow `i128`.
pub open spec fn shape_ok(s: Shape) -> bool {
    match s {
        Shape::FilledEllipse { cx, cy, rx, ry } => -0x80000000 <= cx <= 0x80000000
            && -0x80000000 <= cy <= 0x80000000 && 0 <= rx <= 0x40000000 && 0 <= ry
            <= 0x40000000,
        Shape::EllipseOutline { cx, cy, rx, ry, .. } => -0x80000000 <= cx <= 0x80000000
            && -0x80000000 <= cy <= 0x80000000 && 0 <= rx <= 0x40000000 && 0 <= ry
            <= 0x40000000,
        Shape::FilledTriangle { x1, y1, x2, y2, x3, y3 } => -0x80000000 <= x1 <= 0x80000000
            && -0x80000000 <= y1 <= 0x80000000 && -0x80000000 <= x2 <= 0x80000000
            && -0x80000000 <= y2 <= 0x80000000 && -0x80000000 <= x3 <= 0x80000000
            && -0x80000000 <= y3 <= 0x80000000,
        Shape::BoxEdge { x0, y0, x1, y1, .. } => -0x7fffffffffff <= x0 <= 0x7fffffffffff
            && -0x7fffffffffff <= y0 <= 0x7fffffffffff && -0x7fffffffffff <= x1
            <= 0x7fffffffffff && -0x7fffffffffff <= y1 <= 0x7fffffffffff,
    }
}

/// Membership in the filled ellipse: the cell lies within the radius
/// box around the centre and satisfies the ellipse inequality.  The box
/// bound matters when a radius is zero (the inequality alone would
/// degenerate to a whole line); with both radii zero only the centre is
/// inside.
pub open spec fn ellipse_inside(cx: int, cy: int, rx: int, ry: int, x: int, y: int) -> bool {
    &&& cx - rx <= x <= cx + rx
    &&& cy - ry <= y <= cy + ry
    &&& (x - cx) * (x - cx) * ry * ry + (y - cy) * (y - cy) * rx * rx <= rx * rx * ry * ry
}

/// The footprint of a shape: the set of cells it stamps.
pub open spec fn shape_hit(s: Shape, x: int, y: int) -> bool {
    match s {
        Shape::FilledEllipse { cx, cy, rx, ry } => ellipse_inside(
            cx as int,
            cy as int,
            rx as int,
            ry as int,
            x,
            y,
        ),
        Shape::EllipseOutline { cx, cy, rx, ry, .. } => {
            let c = cx as int;
            let d = cy as int;
            let a = rx as int;
            let b = ry as int;
            ellipse_inside(c, d, a, b, x, y) && !(ellipse_inside(c, d, a, b, x - 1, y)
                && ellipse_inside(c, d, a, b, x + 1, y) && ellipse_inside(c, d, a, b, x, y - 1)
                && ellipse_inside(c, d, a, b, x, y + 1))
        },
        Shape::FilledTriangle { x1, y1, x2, y2, x3, y3 } => {
            let e1 = (x2 - x1) * (y - y1) - (y2 - y1) * (x - x1);
            let e2 = (x3 - x2) * (y - y2) - (y3 - y2) * (x - x2);
            let e3 = (x1 - x3) * (y - y3) - (y1 - y3) * (x - x3);
            let area = (x2 - x1) * (y3 - y1) - (y2 - y1) * (x3 - x1);
            &&& imin(imin(x1 as int, x2 as int), x3 as int) <= x <= imax(
                imax(x1 as int, x2 as int),
                x3 as int,
            )
            &&& imin(imin(y1 as int, y2 as int), y3 as int) <= y <= imax(
                imax(y1 as int, y2 as int),
                y3 as int,
            )
            &&& ((e1 >= 0 && e2 >= 0 && e3 >= 0) || (e1 <= 0 && e2 <= 0 && e3 <= 0))
            &&& (area != 0 || (e1 == 0 && e2 == 0 && e3 == 0))
        },
        Shape::BoxEdge { x0, y0, x1, y1, .. } => x0 <= x <= x1 && y0 <= y <= y1 && (x == x0 || x
            == x1 || y == y0 || y == y1),
    }
}

/// The character a shape stamps at a hit cell: the caller's character,
/// or a line-drawing glyph for the thin variants.
pub open spec fn shape_char(s: Shape, ch: u32, x: int, y: int) -> u32 {
    match s {
        Shape::FilledEllipse { .. } => ch,
        Shape::EllipseOutline { cx, cy, rx, ry, thin } => {
            if thin {
                if ellipse_inside(cx as int, cy as int, rx as int, ry as int, x - 1, y)
                    && ellipse_inside(cx as int, cy as int, rx as int, ry as int, x + 1, y) {
                    GLYPH_HORIZONTAL
                } else {
                    GLYPH_VERTICAL
                }
            } else {
                ch
            }
        },
        Shape::FilledTriangle { .. } => ch,
        Shape::BoxEdge { x0, y0, x1, y1, thin } => {
            if thin {
                if x == x0 && y == y0 {
                    GLYPH_CORNER_TL
                } else if x == x1 && y == y0 {
                    GLYPH_CORNER_TR
                } else if x == x0 && y == y1 {
                    GLYPH_CORNER_BL
                } else if x == x1 && y == y1 {
                    GLYPH_CORNER_BR
                } else if y == y0 || y == y1 {
                    GLYPH_HORIZONTAL
                } else {
                    GLYPH_VERTICAL
                }
            } else {
                ch
            }
        },
    }
}

/// Multiplies two bounded `i128` values; the bounds keep every product
/// and sum of products used by the hit tests inside `i128`.
fn mul_i128(a: i128, b: i128) -> (r: i128)
    requires
        -0x4000000000000000 <= a <= 0x4000000000000000,
        -0x4000000000000000 <= b <= 0x4000000000000000,
    ensures
        r == a * b,
        -0x10000000000000000000000000000000 <= r <= 0x10000000000000000000000000000000,
{
    proof {
        assert((a as int) * (b as int) <= 0x10000000000000000000000000000000 && (a as int) * (
        b as int) >= -0x10000000000000000000000000000000) by (nonlinear_arith)
            requires
                -0x4000000000000000 <= a as int <= 0x4000000000000000,
                -0x4000000000000000 <= b as int <= 0x4000000000000000,
        ;
    }
    a * b
}

/// Decides `ellipse_inside` without overflow.
fn ellipse_inside_exec(cx: i64, cy: i64, rx: i64, ry: i64, x: i64, y: i64) -> (r: bool)
    requires
        -0x80000000 <= cx <= 0x80000000,
        -0x80000000 <= cy <= 0x80000000,
        0 <= rx <= 0x40000000,
        0 <= ry <= 0x40000000,
        -0x80000000 <= x <= 0x80000000,
        -0x80000000 <= y <= 0x80000000,
    ensures
        r == ellipse_inside(cx as int, cy as int, rx as int, ry as int, x as int, y as int),
{
    if x < cx - rx || x > cx + rx || y < cy - ry || y > cy + ry {
        false
    } else {
        let dx = x as i128 - cx as i128;
        let dy = y as i128 - cy as i128;
        let a = rx as i128;
        let b = ry as i128;
        let dxb = mul_i128(dx, b);
        let dya = mul_i128(dy, a);
        let ab = mul_i128(a, b);
        proof {
            assert(-0x4000000000000000 <= dx * b <= 0x4000000000000000 && -0x4000000000000000
                <= dy * a <= 0x4000000000000000 && -0x4000000000000000 <= a * b
                <= 0x4000000000000000) by (nonlinear_arith)
                requires
                    -0x100000000 <= dx as int <= 0x100000000,
                    -0x100000000 <= dy as int <= 0x100000000,
                    0 <= a as int <= 0x40000000,
                    0 <= b as int <= 0x40000000,
            ;
        }
        let t1 = mul_i128(dxb, dxb);
        let t2 = mul_i128(dya, dya);
        let t3 = mul_i128(ab, ab);
        proof {
            assert(dxb * dxb == dx * dx * b * b && dya * dya == dy * dy * a * a && ab * ab == a
                * a * b * b) by (nonlinear_arith)
                requires
                    dxb == dx * b,
                    dya == dy * a,
                    ab == a * b,
            ;
        }
        t1 + t2 <= t3
    }
}

/// Decides `shape_hit` without overflow.
fn shape_hit_exec(s: &Shape, x: i64, y: i64) -> (r: bool)
    requires
        shape_ok(*s),
        0 <= x <= 0x4000,
        0 <= y <= 0x4000,
    ensures
        r == shape_hit(*s, x as int, y as int),
{
    match s {
        Shape::FilledEllipse { cx, cy, rx, ry } => ellipse_inside_exec(*cx, *cy, *rx, *ry, x, y),
        Shape::EllipseOutline { cx, cy, rx, ry, .. } => {
            ellipse_inside_exec(*cx, *cy, *rx, *ry, x, y) && !(ellipse_inside_exec(
                *cx,
                *cy,
                *rx,
                *ry,
                x - 1,
                y,
            ) && ellipse_inside_exec(*cx, *cy, *rx, *ry, x + 1, y) && ellipse_inside_exec(
                *cx,
                *cy,
                *rx,
                *ry,
                x,
                y - 1,
            ) && ellipse_inside_exec(*cx, *cy, *rx, *ry, x, y + 1))
        },
        Shape::FilledTriangle { x1, y1, x2, y2, x3, y3 } => {
            let lox = if *x1 <= *x2 && *x1 <= *x3 {
                *x1
            } else if *x2 <= *x3 {
                *x2
            } else {
                *x3
            };
            let hix = if *x1 >= *x2 && *x1 >= *x3 {
                *x1
            } else if *x2 >= *x3 {
                *x2
            } else {
                *x3
            };
            let loy = if *y1 <= *y2 && *y1 <= *y3 {
                *y1
            } else if *y2 <= *y3 {
                *y2
            } else {
                *y3
            };
            let hiy = if *y1 >= *y2 && *y1 >= *y3 {
                *y1
            } else if *y2 >= *y3 {
                *y2
            } else {
                *y3
            };
            if x < lox || x > hix || y < loy || y > hiy {
                false
            } else {
                let e1 = mul_i128(*x2 as i128 - *x1 as i128, y as i128 - *y1 as i128) - mul_i128(
                    *y2 as i128 - *y1 as i128,
                    x as i128 - *x1 as i128,
                );
                let e2 = mul_i128(*x3 as i128 - *x2 as i128, y as i128 - *y2 as i128) - mul_i128(
                    *y3 as i128 - *y2 as i128,
                    x as i128 - *x2 as i128,
                );
                let e3 = mul_i128(*x1 as i128 - *x3 as i128, y as i128 - *y3 as i128) - mul_i128(
                    *y1 as i128 - *y3 as i128,
                    x as i128 - *x3 as i128,
                );
                let area = mul_i128(*x2 as i128 - *x1 as i128, *y3 as i128 - *y1 as i128)
                    - mul_i128(*y2 as i128 - *y1 as i128, *x3 as i128 - *x1 as i128);
                ((e1 >= 0 && e2 >= 0 && e3 >= 0) || (e1 <= 0 && e2 <= 0 && e3 <= 0)) && (area
                    != 0 || (e1 == 0 && e2 == 0 && e3 == 0))
            }
        },
        Shape::BoxEdge { x0, y0, x1, y1, .. } => {
            *x0 <= x && x <= *x1 && *y0 <= y && y <= *y1 && (x == *x0 || x == *x1 || y == *y0 || y
                == *y1)
        },
    }
}

/// Computes `shape_char` for a hit cell.
fn shape_char_exec(s: &Shape, ch: u32, x: i64, y: i64) -> (r: u32)
    requires
        shape_ok(*s),
        0 <= x <= 0x4000,
        0 <= y <= 0x4000,
    ensures
        r == shape_char(*s, ch, x as int, y as int),
{
    match s {
        Shape::FilledEllipse { .. } => ch,
        Shape::EllipseOutline { cx, cy, rx, ry, thin } => {
            if *thin {
                if ellipse_inside_exec(*cx, *cy, *rx, *ry, x - 1, y) && ellipse_inside_exec(
                    *cx,
                    *cy,
                    *rx,
                    *ry,
                    x + 1,
                    y,
                ) {
                    GLYPH_HORIZONTAL
                } else {
                    GLYPH_VERTICAL
                }
            } else {
                ch
            }
        },
        Shape::FilledTriangle { .. } => ch,
        Shape::BoxEdge { x0, y0, x1, y1, thin } => {
            if *thin {
                if x == *x0 && y == *y0 {
                    GLYPH_CORNER_TL
                } else if x == *x1 && y == *y0 {
                    GLYPH_CORNER_TR
                } else if x == *x0 && y == *y1 {
                    GLYPH_CORNER_BL
                } else if x == *x1 && y == *y1 {
                    GLYPH_CORNER_BR
                } else if y == *y0 || y == *y1 {
                    GLYPH_HORIZONTAL
                } else {
                    GLYPH_VERTICAL
                }
            } else {
                ch
            }
        },
    }
}

/// Every cell of `b` is the matching cell of `a`, or holds `ch` under
/// `at`.
pub open spec fn buf_kept_or(b: crate::buffer::CellBuffer, a: crate::buffer::CellBuffer, ch: u32, at: crate::attr::Attr) -> bool {
    forall|x: int, y: int|
        a.in_bounds(x, y) ==> (b.char_at(x, y) == a.char_at(x, y) && b.attr_at(x, y) == a.attr_at(
            x,
            y,
        )) || (b.char_at(x, y) == ch && b.attr_at(x, y) == at)
}

/// The cell holds one of the four thin-line glyphs under `o`'s current
/// attribute.
pub open spec fn thin_glyph_at(c: Canvas, o: Canvas, x: int, y: int) -> bool {
    (c.char_at(x, y) == GLYPH_HORIZONTAL || c.char_at(x, y) == GLYPH_VERTICAL || c.char_at(x, y)
        == 0x5c || c.char_at(x, y) == 0x2f) && c.attr_at(x, y) == o.cur_attr
}

/// Cells outside the closed box `[x0, x1] x [y0, y1]` are untouched.
pub open spec fn buf_unchanged_outside(
    b: crate::buffer::CellBuffer,
    a: crate::buffer::CellBuffer,
    x0: int,
    y0: int,
    x1: int,
    y1: int,
) -> bool {
    forall|x: int, y: int|
        a.in_bounds(x, y) && !(x0 <= x <= x1 && y0 <= y <= y1) ==> b.char_at(x, y) == a.char_at(
            x,
            y,
        ) && b.attr_at(x, y) == a.attr_at(x, y)
}


/// One step of the guarded Bresenham walk: from `(x, y)` with error
/// term `err`, towards `(x1, y1)`, with `dx >= 0 >= dy` the extents and
/// `sx`, `sy` the unit directions.  The guards never step a coordinate
/// past its target, a fallback forces progress, and the error term is
/// saturated well outside the range it reaches on any real input.
pub open spec fn line_step(
    x: int,
    y: int,
    err: int,
    dx: int,
    dy: int,
    sx: int,
    sy: int,
    x1: int,
    y1: int,
) -> (int, int, int) {
    let e2 = 2 * err;
    let c1 = e2 >= dy && x != x1;
    let xa = if c1 {
        x + sx
    } else {
        x
    };
    let ea = if c1 {
        err + dy
    } else {
        err
    };
    let c2 = e2 <= dx && y != y1;
    let ya = if c2 {
        y + sy
    } else {
        y
    };
    let eb = if c2 {
        ea + dx
    } else {
        ea
    };
    let xb = if !(c1 || c2) && x != x1 {
        x + sx
    } else {
        xa
    };
    let yb = if !(c1 || c2) && x == x1 {
        y + sy
    } else {
        ya
    };
    let ec = if eb > 0x400000000 {
        0x400000000
    } else if eb < -0x400000000 {
        -0x400000000
    } else {
        eb
    };
    (xb, yb, ec)
}

/// The cells the walk visits from `(x, y)` until it reaches `(x1, y1)`
/// (or a step budget runs out; the budget used by `spec_line_cells`
/// never does).
pub open spec fn line_points(
    x: int,
    y: int,
    err: int,
    dx: int,
    dy: int,
    sx: int,
    sy: int,
    x1: int,
    y1: int,
    budget: nat,
) -> Seq<(int, int)>
    decreases budget,
{
    if (x == x1 && y == y1) || budget == 0 {
        seq![(x, y)]
    } else {
        let st = line_step(x, y, err, dx, dy, sx, sy, x1, y1);
        seq![(x, y)] + line_points(st.0, st.1, st.2, dx, dy, sx, sy, x1, y1, (budget - 1) as nat)
    }
}

/// The exact footprint of the line from `point1` to `point2`: the cells
/// the Bresenham walk visits, endpoints included.
pub open spec fn spec_line_cells(p1: Point, p2: Point) -> Seq<(int, int)> {
    let x0 = p1.x as int;
    let y0 = p1.y as int;
    let x1 = p2.x as int;
    let y1 = p2.y as int;
    let dx = imax(x0, x1) - imin(x0, x1);
    let dy = imin(y0, y1) - imax(y0, y1);
    let sx: int = if x0 < x1 {
        1
    } else {
        -1
    };
    let sy: int = if y0 < y1 {
        1
    } else {
        -1
    };
    line_points(x0, y0, dx + dy, dx, dy, sx, sy, x1, y1, (dx - dy) as nat)
}


/// Every cell the walk visits lies in the closed box spanned by the
/// start and the target (given consistent directions).
proof fn lemma_line_points_in_box(
    x: int,
    y: int,
    err: int,
    dx: int,
    dy: int,
    sx: int,
    sy: int,
    x1: int,
    y1: int,
    budget: nat,
    lox: int,
    loy: int,
    hix: int,
    hiy: int,
)
    requires
        lox <= x <= hix,
        loy <= y <= hiy,
        lox <= x1 <= hix,
        loy <= y1 <= hiy,
        sx == 1 || sx == -1,
        sy == 1 || sy == -1,
        sx == 1 ==> x <= x1,
        sx == -1 ==> x >= x1,
        sy == 1 ==> y <= y1,
        sy == -1 ==> y >= y1,
    ensures
        forall|p: (int, int)|
            line_points(x, y, err, dx, dy, sx, sy, x1, y1, budget).contains(p) ==> lox <= p.0
                <= hix && loy <= p.1 <= hiy,
    decreases budget,
{
    let s = line_points(x, y, err, dx, dy, sx, sy, x1, y1, budget);
    if (x == x1 && y == y1) || budget == 0 {
        assert forall|p: (int, int)| s.contains(p) implies lox <= p.0 <= hix && loy <= p.1
            <= hiy by {
            assert(p == (x, y));
        }
    } else {
        let st = line_step(x, y, err, dx, dy, sx, sy, x1, y1);
        lemma_line_points_in_box(
            st.0,
            st.1,
            st.2,
            dx,
            dy,
            sx,
            sy,
            x1,
            y1,
            (budget - 1) as nat,
            lox,
            loy,
            hix,
            hiy,
        );
        let rest = line_points(st.0, st.1, st.2, dx, dy, sx, sy, x1, y1, (budget - 1) as nat);
        assert forall|p: (int, int)| s.contains(p) implies lox <= p.0 <= hix && loy <= p.1
            <= hiy by {
            let idx = choose|idx: int| 0 <= idx < s.len() && s[idx] == p;
            if idx == 0 {
                assert(p == (x, y));
            } else {
                assert(rest[idx - 1] == p);
                assert(rest.contains(p));
            }
        }
    }
}

/// True when some segment of the open path through `pts` has `(i, j)`
/// in its line footprint.
pub open spec fn polyline_covers(pts: Seq<Point>, i: int, j: int) -> bool {
    exists|k: int|
        0 <= k < pts.len() - 1 && (#[trigger] spec_line_cells(pts[k], pts[k + 1])).contains(
            (i, j),
        )
}

/// The radius used for rasterisation: radii beyond `2^30` cells are
/// clamped (no canvas can show the difference).
pub open spec fn spec_radius(r: usize) -> i64 {
    if r > 0x40000000 {
        0x40000000
    } else {
        r as i64
    }
}

/// The glyph a thin line stamps, chosen from its overall direction:
/// horizontal, vertical, or one of the two diagonals.
pub open spec fn spec_thin_line_glyph(p1: Point, p2: Point) -> u32 {
    let dx = p2.x - p1.x;
    let dy = p2.y - p1.y;
    let adx = if dx >= 0 {
        dx as int
    } else {
        -(dx as int)
    };
    let ady = if dy >= 0 {
        dy as int
    } else {
        -(dy as int)
    };
    if ady == 0 || adx > 2 * ady {
        GLYPH_HORIZONTAL
    } else if adx == 0 || ady > 2 * adx {
        GLYPH_VERTICAL
    } else if (dx >= 0) == (dy >= 0) {
        0x5c
    } else {
        0x2f
    }
}

impl Canvas {
    /// Stamps a shape onto the active frame: every in-bounds cell of the
    /// shape's footprint receives the shape's character under the
    /// current attribute, every other cell is untouched, and the given
    /// rectangle (clamped to the canvas) is recorded as dirty.
    fn draw_shape(&mut self, s: Shape, ch: u32, bx0: i128, by0: i128, bx1: i128, by1: i128)
        requires
            old(self).wf(),
            shape_ok(s),
        ensures
            final(self).wf(),
            final(self).frames_like(*old(self)),
            final(self).config_like(*old(self)),
            final(self).buf().same_dims(old(self).buf()),
            forall|x: int, y: int|
                old(self).in_bounds(x, y) ==> {
                    if shape_hit(s, x, y) {
                        final(self).char_at(x, y) == shape_char(s, ch, x, y)
                            && final(self).attr_at(x, y) == old(self).cur_attr
                    } else {
                        final(self).char_at(x, y) == old(self).char_at(x, y)
                            && final(self).attr_at(x, y) == old(self).attr_at(x, y)
                    }
                },
            final(self).dirty.enabled == old(self).dirty.enabled,
            ({
                let w = old(self).buf().width as int;
                let h = old(self).buf().height as int;
                &&& (old(self).dirty.enabled && spec_intersects(
                    w,
                    h,
                    bx0 as int,
                    by0 as int,
                    bx1 as int,
                    by1 as int,
                ) ==> final(self).dirty.rects@ == old(self).dirty.rects@.push(
                    spec_clamp(w, h, bx0 as int, by0 as int, bx1 as int, by1 as int),
                ))
                &&& (!(old(self).dirty.enabled && spec_intersects(
                    w,
                    h,
                    bx0 as int,
                    by0 as int,
                    bx1 as int,
                    by1 as int,
                )) ==> final(self).dirty.rects@ == old(self).dirty.rects@)
            }),
    {
        let fi = self.active;
        let w = self.frames[fi].buf.width;
        let h = self.frames[fi].buf.height;
        let a = self.cur_attr;
        let ghost b0 = self.frames@[fi as int].buf;
        let fr = &mut self.frames[fi];
        let mut y: usize = 0;
        while y < h
            invariant
                fr.buf.wf(),
                b0.wf(),
                shape_ok(s),
                w == fr.buf.width,
                h == fr.buf.height,
                w == b0.width,
                h == b0.height,
                w <= crate::MAX_DIM,
                h <= crate::MAX_DIM,
                y <= h,
                fr.name == old(self).frames@[fi as int].name,
                forall|i: int, j: int|
                    b0.in_bounds(i, j) ==> {
                        if j < y && shape_hit(s, i, j) {
                            fr.buf.char_at(i, j) == shape_char(s, ch, i, j) && fr.buf.attr_at(
                                i,
                                j,
                            ) == a
                        } else {
                            fr.buf.char_at(i, j) == b0.char_at(i, j) && fr.buf.attr_at(i, j)
                                == b0.attr_at(i, j)
                        }
                    },
            decreases h - y,
        {
            let mut x: usize = 0;
            while x < w
                invariant
                    fr.buf.wf(),
                    b0.wf(),
                    shape_ok(s),
                    w == fr.buf.width,
                    h == fr.buf.height,
                    w == b0.width,
                    h == b0.height,
                    w <= crate::MAX_DIM,
                    h <= crate::MAX_DIM,
                    y < h,
                    x <= w,
                    fr.name == old(self).frames@[fi as int].name,
                    forall|i: int, j: int|
                        b0.in_bounds(i, j) ==> {
                            if (j < y || (j == y && i < x)) && shape_hit(s, i, j) {
                                fr.buf.char_at(i, j) == shape_char(s, ch, i, j)
                                    && fr.buf.attr_at(i, j) == a
                            } else {
                                fr.buf.char_at(i, j) == b0.char_at(i, j) && fr.buf.attr_at(
                                    i,
                                    j,
                                ) == b0.attr_at(i, j)
                            }
                        },
                decreases w - x,
            {
                if shape_hit_exec(&s, x as i64, y as i64) {
                    let g = shape_char_exec(&s, ch, x as i64, y as i64);
                    fr.buf.set(x, y, g, a);
                }
                x += 1;
            }
            y += 1;
        }
        let clamped = clamp_rect(w, h, bx0, by0, bx1, by1);
        match clamped {
            Some(c) => {
                self.dirty.add(c);
            },
            None => {},
        }
    }
}

impl Canvas {
    /// Draws a line of `ch` from `point1` to `point2` with Bresenham
    /// stepping.  Every touched cell holds `ch` under the current
    /// attribute (both endpoints are touched when visible), no cell
    /// outside the endpoints' bounding box changes, and the bounding box
    /// is recorded as dirty.
    pub fn draw_line(&mut self, point1: &Point, point2: &Point, ch: u32)
        requires
            old(self).wf(),
        ensures
            final(self).wf(),
            final(self).frames_like(*old(self)),
            final(self).config_like(*old(self)),
            final(self).buf().same_dims(old(self).buf()),
            buf_kept_or(final(self).buf(), old(self).buf(), ch, old(self).cur_attr),
            buf_unchanged_outside(
                final(self).buf(),
                old(self).buf(),
                imin(point1.x as int, point2.x as int),
                imin(point1.y as int, point2.y as int),
                imax(point1.x as int, point2.x as int),
                imax(point1.y as int, point2.y as int),
            ),
            old(self).in_bounds(point1.x as int, point1.y as int) ==> final(self).char_at(
                point1.x as int,
                point1.y as int,
            ) == ch && final(self).attr_at(point1.x as int, point1.y as int) == old(self).cur_attr,
            old(self).in_bounds(point2.x as int, point2.y as int) ==> final(self).char_at(
                point2.x as int,
                point2.y as int,
            ) == ch && final(self).attr_at(point2.x as int, point2.y as int) == old(self).cur_attr,
            forall|i: int, j: int|
                old(self).in_bounds(i, j) ==> {
                    if spec_line_cells(*point1, *point2).contains((i, j)) {
                        final(self).char_at(i, j) == ch && final(self).attr_at(i, j) == old(self).cur_attr
                    } else {
                        final(self).char_at(i, j) == old(self).char_at(i, j)
                            && final(self).attr_at(i, j) == old(self).attr_at(i, j)
                    }
                },
            dirty_extended(
                *final(self),
                *old(self),
                imin(point1.x as int, point2.x as int),
                imin(point1.y as int, point2.y as int),
                imax(point1.x as int, point2.x as int) + 1,
                imax(point1.y as int, point2.y as int) + 1,
            ),
            old(self).dirty.enabled ==> forall|i: int, j: int|
                old(self).in_bounds(i, j) && spec_line_cells(*point1, *point2).contains((i, j))
                    ==> crate::dirty::rects_cover(final(self).dirty.rects@, i, j),
    {
        let fi = self.active;
        let a = self.cur_attr;
        let ghost b0 = self.frames@[fi as int].buf;
        let x0: i64 = point1.x as i64;
        let y0: i64 = point1.y as i64;
        let x1: i64 = point2.x as i64;
        let y1: i64 = point2.y as i64;
        let lox: i64 = if x0 <= x1 { x0 } else { x1 };
        let hix: i64 = if x0 <= x1 { x1 } else { x0 };
        let loy: i64 = if y0 <= y1 { y0 } else { y1 };
        let hiy: i64 = if y0 <= y1 { y1 } else { y0 };
        let dx: i64 = hix - lox;
        let dy: i64 = loy - hiy;
        let sx: i64 = if x0 < x1 { 1 } else { -1 };
        let sy: i64 = if y0 < y1 { 1 } else { -1 };
        let mut err: i64 = dx + dy;
        let mut x: i64 = x0;
        let mut y: i64 = y0;
        let ghost full = spec_line_cells(*point1, *point2);
        let ghost mut done: Seq<(int, int)> = Seq::empty();
        let ghost mut budget: nat = (dx - dy) as nat;
        proof {
            assert(full == line_points(
                x0 as int,
                y0 as int,
                (dx + dy) as int,
                dx as int,
                dy as int,
                sx as int,
                sy as int,
                x1 as int,
                y1 as int,
                budget,
            ));
            assert(Seq::<(int, int)>::empty() + full =~= full);
        }
        let fr = &mut self.frames[fi];
        loop
            invariant
                fr.buf.wf(),
                b0.wf(),
                fr.buf.same_dims(b0),
                fr.name == old(self).frames@[fi as int].name,
                lox <= x <= hix,
                loy <= y <= hiy,
                lox <= x1 <= hix,
                loy <= y1 <= hiy,
                sx == 1 ==> x <= x1,
                sx == -1 ==> x >= x1,
                sy == 1 ==> y <= y1,
                sy == -1 ==> y >= y1,
                -0x80000000 <= lox,
                hix <= 0x80000000,
                -0x80000000 <= loy,
                hiy <= 0x80000000,
                -0x400000000 <= err <= 0x400000000,
                sx == 1 || sx == -1,
                sy == 1 || sy == -1,
                dx == hix - lox,
                dy == loy - hiy,
                buf_kept_or(fr.buf, b0, ch, a),
                buf_unchanged_outside(fr.buf, b0, lox as int, loy as int, hix as int, hiy as int),
                (x != x0 || y != y0) && b0.in_bounds(x0 as int, y0 as int) ==> fr.buf.char_at(
                    x0 as int,
                    y0 as int,
                ) == ch && fr.buf.attr_at(x0 as int, y0 as int) == a,
                full == done + line_points(
                    x as int,
                    y as int,
                    err as int,
                    dx as int,
                    dy as int,
                    sx as int,
                    sy as int,
                    x1 as int,
                    y1 as int,
                    budget,
                ),
                budget >= (if x1 >= x {
                    x1 - x
                } else {
                    x - x1
                }) + (if y1 >= y {
                    y1 - y
                } else {
                    y - y1
                }),
                forall|i: int, j: int|
                    b0.in_bounds(i, j) && done.contains((i, j)) ==> fr.buf.char_at(i, j) == ch
                        && fr.buf.attr_at(i, j) == a,
                forall|i: int, j: int|
                    b0.in_bounds(i, j) && !full.contains((i, j)) ==> fr.buf.char_at(i, j)
                        == b0.char_at(i, j) && fr.buf.attr_at(i, j) == b0.attr_at(i, j),
            ensures
                fr.buf.wf(),
                fr.buf.same_dims(b0),
                fr.name == old(self).frames@[fi as int].name,
                buf_kept_or(fr.buf, b0, ch, a),
                buf_unchanged_outside(fr.buf, b0, lox as int, loy as int, hix as int, hiy as int),
                b0.in_bounds(x0 as int, y0 as int) ==> fr.buf.char_at(x0 as int, y0 as int) == ch
                    && fr.buf.attr_at(x0 as int, y0 as int) == a,
                b0.in_bounds(x1 as int, y1 as int) ==> fr.buf.char_at(x1 as int, y1 as int) == ch
                    && fr.buf.attr_at(x1 as int, y1 as int) == a,
                forall|i: int, j: int|
                    b0.in_bounds(i, j) && full.contains((i, j)) ==> fr.buf.char_at(i, j) == ch
                        && fr.buf.attr_at(i, j) == a,
                forall|i: int, j: int|
                    b0.in_bounds(i, j) && !full.contains((i, j)) ==> fr.buf.char_at(i, j)
                        == b0.char_at(i, j) && fr.buf.attr_at(i, j) == b0.attr_at(i, j),
            decreases
                    (if x1 >= x {
                        x1 - x
                    } else {
                        x - x1
                    }) + (if y1 >= y {
                        y1 - y
                    } else {
                        y - y1
                    }),
        {
            let ghost gx = x as int;
            let ghost gy = y as int;
            let ghost gerr = err as int;
            let ghost rest = line_points(
                gx,
                gy,
                gerr,
                dx as int,
                dy as int,
                sx as int,
                sy as int,
                x1 as int,
                y1 as int,
                budget,
            );
            proof {
                assert(rest[0] == (gx, gy));
                assert(full[done.len() as int] == (gx, gy));
                assert(full.contains((gx, gy)));
            }
            if 0 <= x && x < fr.buf.width as i64 && 0 <= y && y < fr.buf.height as i64 {
                fr.buf.set(x as usize, y as usize, ch, a);
            }
            if x == x1 && y == y1 {
                proof {
                    assert(rest =~= seq![(gx, gy)]);
                    assert forall|i: int, j: int|
                        b0.in_bounds(i, j) && full.contains((i, j)) implies fr.buf.char_at(i, j)
                        == ch && fr.buf.attr_at(i, j) == a by {
                        let idx = choose|idx: int|
                            0 <= idx < full.len() && full[idx] == (i, j);
                        if idx < done.len() {
                            assert(done[idx] == (i, j));
                            assert(done.contains((i, j)));
                        } else {
                            assert(full[idx] == (gx, gy));
                        }
                    }
                }
                break ;
            }
            let e2: i64 = 2 * err;
            let mut moved = false;
            if e2 >= dy && x != x1 {
                err = err + dy;
                x = x + sx;
                moved = true;
            }
            if e2 <= dx && y != y1 {
                err = err + dx;
                y = y + sy;
                moved = true;
            }
            if !moved {
                if x != x1 {
                    x = x + sx;
                } else {
                    y = y + sy;
                }
            }
            if err > 0x400000000 {
                err = 0x400000000;
            } else if err < -0x400000000 {
                err = -0x400000000;
            }
            proof {
                let stepped = line_step(
                    gx,
                    gy,
                    gerr,
                    dx as int,
                    dy as int,
                    sx as int,
                    sy as int,
                    x1 as int,
                    y1 as int,
                );
                assert(stepped.0 == x as int && stepped.1 == y as int && stepped.2 == err as int);
                assert(budget >= 1);
                let tail = line_points(
                    x as int,
                    y as int,
                    err as int,
                    dx as int,
                    dy as int,
                    sx as int,
                    sy as int,
                    x1 as int,
                    y1 as int,
                    (budget - 1) as nat,
                );
                assert(rest == seq![(gx, gy)] + tail);
                let done2 = done.push((gx, gy));
                assert(done + rest =~= done2 + tail);
                done = done2;
                budget = (budget - 1) as nat;
            }
        }
        let clamped = clamp_rect(
            self.frames[fi].buf.width,
            self.frames[fi].buf.height,
            lox as i128,
            loy as i128,
            hix as i128 + 1,
            hiy as i128 + 1,
        );
        match clamped {
            Some(c) => {
                self.dirty.add(c);
            },
            None => {},
        }
        proof {
            if old(self).dirty.enabled {
                let w = b0.width as int;
                let h = b0.height as int;
                lemma_line_points_in_box(
                    x0 as int,
                    y0 as int,
                    (dx + dy) as int,
                    dx as int,
                    dy as int,
                    sx as int,
                    sy as int,
                    x1 as int,
                    y1 as int,
                    (dx - dy) as nat,
                    lox as int,
                    loy as int,
                    hix as int,
                    hiy as int,
                );
                assert forall|i: int, j: int|
                    old(self).in_bounds(i, j) && full.contains((i, j)) implies
                    crate::dirty::rects_cover(self.dirty.rects@, i, j) by {
                    assert(lox <= i <= hix && loy <= j <= hiy);
                    assert(spec_intersects(w, h, lox as int, loy as int, hix + 1, hiy + 1));
                    let c = spec_clamp(w, h, lox as int, loy as int, hix + 1, hiy + 1);
                    assert(self.dirty.rects@ == old(self).dirty.rects@.push(c));
                    assert(crate::dirty::rect_covers(c, i, j));
                    let k = self.dirty.rects@.len() - 1;
                    assert(0 <= k < self.dirty.rects@.len() && crate::dirty::rect_covers(
                        self.dirty.rects@[k],
                        i,
                        j,
                    ));
                }
            }
        }
    }

    /// Draws a thin line between the two points: like `draw_line`, with
    /// a line glyph chosen from the direction instead of a caller
    /// character.
    pub fn draw_thin_line(&mut self, point1: &Point, point2: &Point)
        requires
            old(self).wf(),
        ensures
            final(self).wf(),
            final(self).frames_like(*old(self)),
            final(self).config_like(*old(self)),
            final(self).buf().same_dims(old(self).buf()),
            buf_kept_or(
                final(self).buf(),
                old(self).buf(),
                spec_thin_line_glyph(*point1, *point2),
                old(self).cur_attr,
            ),
            buf_unchanged_outside(
                final(self).buf(),
                old(self).buf(),
                imin(point1.x as int, point2.x as int),
                imin(point1.y as int, point2.y as int),
                imax(point1.x as int, point2.x as int),
                imax(point1.y as int, point2.y as int),
            ),
            old(self).in_bounds(point1.x as int, point1.y as int) ==> final(self).char_at(
                point1.x as int,
                point1.y as int,
            ) == spec_thin_line_glyph(*point1, *point2) && final(self).attr_at(
                point1.x as int,
                point1.y as int,
            ) == old(self).cur_attr,
            old(self).in_bounds(point2.x as int, point2.y as int) ==> final(self).char_at(
                point2.x as int,
                point2.y as int,
            ) == spec_thin_line_glyph(*point1, *point2) && final(self).attr_at(
                point2.x as int,
                point2.y as int,
            ) == old(self).cur_attr,
            forall|i: int, j: int|
                old(self).in_bounds(i, j) ==> {
                    if spec_line_cells(*point1, *point2).contains((i, j)) {
                        final(self).char_at(i, j) == spec_thin_line_glyph(*point1, *point2)
                            && final(self).attr_at(i, j) == old(self).cur_attr
                    } else {
                        final(self).char_at(i, j) == old(self).char_at(i, j)
                            && final(self).attr_at(i, j) == old(self).attr_at(i, j)
                    }
                },
            old(self).dirty.enabled ==> forall|i: int, j: int|
                old(self).in_bounds(i, j) && spec_line_cells(*point1, *point2).contains((i, j))
                    ==> crate::dirty::rects_cover(final(self).dirty.rects@, i, j),
            dirty_extended(
                *final(self),
                *old(self),
                imin(point1.x as int, point2.x as int),
                imin(point1.y as int, point2.y as int),
                imax(point1.x as int, point2.x as int) + 1,
                imax(point1.y as int, point2.y as int) + 1,
            ),
    {
        let dx: i64 = point2.x as i64 - point1.x as i64;
        let dy: i64 = point2.y as i64 - point1.y as i64;
        let adx: i64 = if dx >= 0 { dx } else { -dx };
        let ady: i64 = if dy >= 0 { dy } else { -dy };
        let g: u32 = if ady == 0 || adx > 2 * ady {
            GLYPH_HORIZONTAL
        } else if adx == 0 || ady > 2 * adx {
            GLYPH_VERTICAL
        } else if (dx >= 0) == (dy >= 0) {
            0x5c
        } else {
            0x2f
        };
        self.draw_line(point1, point2, g);
    }

    /// Draws an open path of `ch` through the points in order.  Every
    /// touched cell holds `ch` under the current attribute, every listed
    /// point that is visible holds `ch`, nothing outside the points'
    /// bounding box changes, and one dirty rectangle is recorded per
    /// segment.
    pub fn draw_polyline(&mut self, points: &[Point], ch: u32)
        requires
            old(self).wf(),
        ensures
            final(self).wf(),
            final(self).frames_like(*old(self)),
            final(self).config_like(*old(self)),
            final(self).buf().same_dims(old(self).buf()),
            buf_kept_or(final(self).buf(), old(self).buf(), ch, old(self).cur_attr),
            forall|k: int|
                0 <= k < points@.len() && old(self).in_bounds(
                    points@[k].x as int,
                    points@[k].y as int,
                ) && points@.len() >= 2 ==> final(self).char_at(
                    points@[k].x as int,
                    points@[k].y as int,
                ) == ch && final(self).attr_at(points@[k].x as int, points@[k].y as int) == old(self).cur_attr,
            forall|x: int, y: int|
                old(self).in_bounds(x, y) ==> {
                    if polyline_covers(points@, x, y) {
                        final(self).char_at(x, y) == ch && final(self).attr_at(x, y) == old(self).cur_attr
                    } else {
                        final(self).char_at(x, y) == old(self).char_at(x, y)
                            && final(self).attr_at(x, y) == old(self).attr_at(x, y)
                    }
                },
            old(self).dirty.enabled ==> forall|x: int, y: int|
                old(self).in_bounds(x, y) && polyline_covers(points@, x, y)
                    ==> crate::dirty::rects_cover(final(self).dirty.rects@, x, y),
            final(self).dirty.enabled == old(self).dirty.enabled,
            old(self).dirty.rects@.is_prefix_of(final(self).dirty.rects@),
    {
        let n = points.len();
        if n < 2 {
            proof {
                assert forall|x: int, y: int|
                    old(self).in_bounds(x, y) implies !polyline_covers(points@, x, y) by {}
            }
            return ;
        }
        let mut i: usize = 1;
        while i < n
            invariant
                1 <= i <= n,
                n == points@.len(),
                self.wf(),
                self.frames_like(*old(self)),
                self.config_like(*old(self)),
                self.buf().same_dims(old(self).buf()),
                buf_kept_or(self.buf(), old(self).buf(), ch, old(self).cur_attr),
                forall|k: int|
                    0 <= k < i && i >= 2 && old(self).in_bounds(
                        points@[k].x as int,
                        points@[k].y as int,
                    ) ==> self.char_at(points@[k].x as int, points@[k].y as int) == ch
                        && self.attr_at(points@[k].x as int, points@[k].y as int) == old(self).cur_attr,
                forall|x: int, y: int|
                    old(self).in_bounds(x, y) && (exists|k: int|
                        0 <= k < i - 1 && (#[trigger] spec_line_cells(
                            points@[k],
                            points@[k + 1],
                        )).contains((x, y))) ==> self.char_at(x, y) == ch && self.attr_at(x, y)
                        == old(self).cur_attr,
                forall|x: int, y: int|
                    old(self).in_bounds(x, y) && !polyline_covers(points@, x, y)
                        ==> self.char_at(x, y) == old(self).char_at(x, y) && self.attr_at(x, y)
                        == old(self).attr_at(x, y),
                old(self).dirty.enabled ==> forall|x: int, y: int|
                    old(self).in_bounds(x, y) && (exists|k: int|
                        0 <= k < i - 1 && (#[trigger] spec_line_cells(
                            points@[k],
                            points@[k + 1],
                        )).contains((x, y))) ==> crate::dirty::rects_cover(
                        self.dirty.rects@,
                        x,
                        y,
                    ),
                self.dirty.enabled == old(self).dirty.enabled,
                old(self).dirty.rects@.is_prefix_of(self.dirty.rects@),
            decreases n - i,
        {
            let ghost pre = *self;
            let p = points[i - 1];
            let q = points[i];
            self.draw_line(&p, &q, ch);
            proof {
                assert forall|x: int, y: int| old(self).in_bounds(x, y) implies (self.char_at(
                    x,
                    y,
                ) == old(self).char_at(x, y) && self.attr_at(x, y) == old(self).attr_at(x, y)) || (
                self.char_at(x, y) == ch && self.attr_at(x, y) == old(self).cur_attr) by {
                    assert(buf_kept_or(self.buf(), pre.buf(), ch, pre.cur_attr));
                }
                assert forall|k: int|
                    0 <= k < i + 1 && old(self).in_bounds(
                        points@[k].x as int,
                        points@[k].y as int,
                    ) implies self.char_at(points@[k].x as int, points@[k].y as int) == ch
                    && self.attr_at(points@[k].x as int, points@[k].y as int) == old(self).cur_attr by {
                    if k < i - 1 {
                        assert(pre.char_at(points@[k].x as int, points@[k].y as int) == ch
                            && pre.attr_at(points@[k].x as int, points@[k].y as int) == old(self).cur_attr);
                    }
                }
                assert forall|x: int, y: int|
                    old(self).in_bounds(x, y) && (exists|k: int|
                        0 <= k < i && (#[trigger] spec_line_cells(
                            points@[k],
                            points@[k + 1],
                        )).contains((x, y))) implies self.char_at(x, y) == ch && self.attr_at(
                    x,
                    y,
                ) == old(self).cur_attr by {
                    let k = choose|k: int|
                        0 <= k < i && (#[trigger] spec_line_cells(
                            points@[k],
                            points@[k + 1],
                        )).contains((x, y));
                    if k < i - 1 {
                        assert(pre.char_at(x, y) == ch && pre.attr_at(x, y) == old(self).cur_attr);
                    } else {
                        assert(spec_line_cells(p, q).contains((x, y)));
                    }
                }
                assert forall|x: int, y: int|
                    old(self).in_bounds(x, y) && !polyline_covers(points@, x, y) implies
                    self.char_at(x, y) == old(self).char_at(x, y) && self.attr_at(x, y) == old(self).attr_at(x, y) by {
                    assert(points@[i - 1] == p && points@[i - 1 + 1] == q);
                    let lc = spec_line_cells(points@[i - 1], points@[i - 1 + 1]);
                    assert(!lc.contains((x, y)));
                    assert(!spec_line_cells(p, q).contains((x, y)));
                }
                if old(self).dirty.enabled {
                    assert forall|x: int, y: int|
                        old(self).in_bounds(x, y) && (exists|k: int|
                            0 <= k < i && (#[trigger] spec_line_cells(
                                points@[k],
                                points@[k + 1],
                            )).contains((x, y))) implies crate::dirty::rects_cover(
                        self.dirty.rects@,
                        x,
                        y,
                    ) by {
                        let k = choose|k: int|
                            0 <= k < i && (#[trigger] spec_line_cells(
                                points@[k],
                                points@[k + 1],
                            )).contains((x, y));
                        assert(pre.dirty.enabled);
                        assert(pre.in_bounds(x, y));
                        if k < i - 1 {
                            assert(crate::dirty::rects_cover(pre.dirty.rects@, x, y));
                            let w = choose|w: int|
                                0 <= w < pre.dirty.rects@.len() && crate::dirty::rect_covers(
                                    #[trigger] pre.dirty.rects@[w],
                                    x,
                                    y,
                                );
                            assert(dirty_extended(
                                *self,
                                pre,
                                imin(p.x as int, q.x as int),
                                imin(p.y as int, q.y as int),
                                imax(p.x as int, q.x as int) + 1,
                                imax(p.y as int, q.y as int) + 1,
                            ));
                            assert(self.dirty.rects@[w] == pre.dirty.rects@[w]);
                            assert(0 <= w < self.dirty.rects@.len()
                                && crate::dirty::rect_covers(self.dirty.rects@[w], x, y));
                        } else {
                            assert(spec_line_cells(p, q).contains((x, y)));
                        }
                    }
                }
                broadcast use vstd::seq_lib::group_seq_properties;
            }
            i += 1;
        }
    }

    /// Draws a thin open path through the points: each segment stamps
    /// its direction glyph, so every touched cell holds one of the four
    /// line glyphs under the current attribute.
    pub fn draw_thin_polyline(&mut self, points: &[Point])
        requires
            old(self).wf(),
        ensures
            final(self).wf(),
            final(self).frames_like(*old(self)),
            final(self).config_like(*old(self)),
            final(self).buf().same_dims(old(self).buf()),
            forall|x: int, y: int|
                old(self).in_bounds(x, y) ==> (final(self).char_at(x, y) == old(self).char_at(
                    x,
                    y,
                ) && final(self).attr_at(x, y) == old(self).attr_at(x, y)) || thin_glyph_at(
                    *final(self),
                    *old(self),
                    x,
                    y,
                ),
            forall|k: int|
                0 <= k < points@.len() && points@.len() >= 2 && old(self).in_bounds(
                    points@[k].x as int,
                    points@[k].y as int,
                ) ==> thin_glyph_at(
                    *final(self),
                    *old(self),
                    points@[k].x as int,
                    points@[k].y as int,
                ),
            forall|x: int, y: int|
                old(self).in_bounds(x, y) ==> {
                    if polyline_covers(points@, x, y) {
                        thin_glyph_at(*final(self), *old(self), x, y)
                    } else {
                        final(self).char_at(x, y) == old(self).char_at(x, y)
                            && final(self).attr_at(x, y) == old(self).attr_at(x, y)
                    }
                },
            old(self).dirty.enabled ==> forall|x: int, y: int|
                old(self).in_bounds(x, y) && polyline_covers(points@, x, y)
                    ==> crate::dirty::rects_cover(final(self).dirty.rects@, x, y),
            final(self).dirty.enabled == old(self).dirty.enabled,
            old(self).dirty.rects@.is_prefix_of(final(self).dirty.rects@),
    {
        let n = points.len();
        if n < 2 {
            proof {
                assert forall|x: int, y: int|
                    old(self).in_bounds(x, y) implies !polyline_covers(points@, x, y) by {}
            }
            return ;
        }
        let mut i: usize = 1;
        while i < n
            invariant
                1 <= i <= n,
                n == points@.len(),
                self.wf(),
                self.frames_like(*old(self)),
                self.config_like(*old(self)),
                self.buf().same_dims(old(self).buf()),
                forall|x: int, y: int|
                    old(self).in_bounds(x, y) ==> (self.char_at(x, y) == old(self).char_at(x, y)
                        && self.attr_at(x, y) == old(self).attr_at(x, y)) || thin_glyph_at(
                        *self,
                        *old(self),
                        x,
                        y,
                    ),
                forall|k: int|
                    0 <= k < i && i >= 2 && old(self).in_bounds(
                        points@[k].x as int,
                        points@[k].y as int,
                    ) ==> thin_glyph_at(*self, *old(self), points@[k].x as int, points@[k].y as int),
                forall|x: int, y: int|
                    old(self).in_bounds(x, y) && (exists|k: int|
                        0 <= k < i - 1 && (#[trigger] spec_line_cells(
                            points@[k],
                            points@[k + 1],
                        )).contains((x, y))) ==> thin_glyph_at(*self, *old(self), x, y),
                forall|x: int, y: int|
                    old(self).in_bounds(x, y) && !polyline_covers(points@, x, y)
                        ==> self.char_at(x, y) == old(self).char_at(x, y) && self.attr_at(x, y)
                        == old(self).attr_at(x, y),
                old(self).dirty.enabled ==> forall|x: int, y: int|
                    old(self).in_bounds(x, y) && (exists|k: int|
                        0 <= k < i - 1 && (#[trigger] spec_line_cells(
                            points@[k],
                            points@[k + 1],
                        )).contains((x, y))) ==> crate::dirty::rects_cover(
                        self.dirty.rects@,
                        x,
                        y,
                    ),
                self.dirty.enabled == old(self).dirty.enabled,
                old(self).dirty.rects@.is_prefix_of(self.dirty.rects@),
            decreases n - i,
        {
            let ghost pre = *self;
            let p = points[i - 1];
            let q = points[i];
            self.draw_thin_line(&p, &q);
            proof {
                assert(buf_kept_or(self.buf(), pre.buf(), spec_thin_line_glyph(p, q), pre.cur_attr));
                assert(spec_thin_line_glyph(p, q) == GLYPH_HORIZONTAL || spec_thin_line_glyph(
                    p,
                    q,
                ) == GLYPH_VERTICAL || spec_thin_line_glyph(p, q) == 0x5c || spec_thin_line_glyph(
                    p,
                    q,
                ) == 0x2f);
                assert forall|k: int|
                    0 <= k < i + 1 && old(self).in_bounds(
                        points@[k].x as int,
                        points@[k].y as int,
                    ) implies thin_glyph_at(
                    *self,
                    *old(self),
                    points@[k].x as int,
                    points@[k].y as int,
                ) by {
                    if k < i - 1 {
                        assert(thin_glyph_at(pre, *old(self), points@[k].x as int, points@[k].y as int));
                    }
                }
                assert forall|x: int, y: int|
                    old(self).in_bounds(x, y) && (exists|k: int|
                        0 <= k < i && (#[trigger] spec_line_cells(
                            points@[k],
                            points@[k + 1],
                        )).contains((x, y))) implies thin_glyph_at(*self, *old(self), x, y) by {
                    let k = choose|k: int|
                        0 <= k < i && (#[trigger] spec_line_cells(
                            points@[k],
                            points@[k + 1],
                        )).contains((x, y));
                    if k < i - 1 {
                        assert(thin_glyph_at(pre, *old(self), x, y));
                    } else {
                        assert(spec_line_cells(p, q).contains((x, y)));
                    }
                }
                assert forall|x: int, y: int|
                    old(self).in_bounds(x, y) && !polyline_covers(points@, x, y) implies
                    self.char_at(x, y) == old(self).char_at(x, y) && self.attr_at(x, y) == old(self).attr_at(x, y) by {
                    assert(points@[i - 1] == p && points@[i - 1 + 1] == q);
                    let lc = spec_line_cells(points@[i - 1], points@[i - 1 + 1]);
                    assert(!lc.contains((x, y)));
                    assert(!spec_line_cells(p, q).contains((x, y)));
                }
                if old(self).dirty.enabled {
                    assert forall|x: int, y: int|
                        old(self).in_bounds(x, y) && (exists|k: int|
                            0 <= k < i && (#[trigger] spec_line_cells(
                                points@[k],
                                points@[k + 1],
                            )).contains((x, y))) implies crate::dirty::rects_cover(
                        self.dirty.rects@,
                        x,
                        y,
                    ) by {
                        let k = choose|k: int|
                            0 <= k < i && (#[trigger] spec_line_cells(
                                points@[k],
                                points@[k + 1],
                            )).contains((x, y));
                        assert(pre.dirty.enabled);
                        assert(pre.in_bounds(x, y));
                        if k < i - 1 {
                            assert(crate::dirty::rects_cover(pre.dirty.rects@, x, y));
                            let w = choose|w: int|
                                0 <= w < pre.dirty.rects@.len() && crate::dirty::rect_covers(
                                    #[trigger] pre.dirty.rects@[w],
                                    x,
                                    y,
                                );
                            assert(dirty_extended(
                                *self,
                                pre,
                                imin(p.x as int, q.x as int),
                                imin(p.y as int, q.y as int),
                                imax(p.x as int, q.x as int) + 1,
                                imax(p.y as int, q.y as int) + 1,
                            ));
                            assert(self.dirty.rects@[w] == pre.dirty.rects@[w]);
                            assert(0 <= w < self.dirty.rects@.len()
                                && crate::dirty::rect_covers(self.dirty.rects@[w], x, y));
                        } else {
                            assert(spec_line_cells(p, q).contains((x, y)));
                        }
                    }
                }
                broadcast use vstd::seq_lib::group_seq_properties;
            }
            i += 1;
        }
    }
}

/// Every in-bounds cell of the shape's footprint holds the shape's
/// character under `o`'s current attribute in `n`; every other cell is
/// unchanged.
pub open spec fn shape_stamped(n: Canvas, o: Canvas, s: Shape, ch: u32) -> bool {
    forall|x: int, y: int|
        o.in_bounds(x, y) ==> if shape_hit(s, x, y) {
            n.char_at(x, y) == shape_char(s, ch, x, y) && n.attr_at(x, y) == o.cur_attr
        } else {
            n.char_at(x, y) == o.char_at(x, y) && n.attr_at(x, y) == o.attr_at(x, y)
        }
}

/// The shape a circle rasterises to.
pub open spec fn circle_shape(c: Circle) -> Shape {
    Shape::EllipseOutline {
        cx: c.x as i64,
        cy: c.y as i64,
        rx: spec_radius(c.radius),
        ry: spec_radius(c.radius),
        thin: false,
    }
}

/// The shape an ellipse outline rasterises to.
pub open spec fn ellipse_shape(e: Ellipse, thin: bool) -> Shape {
    Shape::EllipseOutline {
        cx: e.x as i64,
        cy: e.y as i64,
        rx: spec_radius(e.x_radius),
        ry: spec_radius(e.y_radius),
        thin,
    }
}

/// The shape a filled ellipse rasterises to.
pub open spec fn ellipse_fill_shape(e: Ellipse) -> Shape {
    Shape::FilledEllipse {
        cx: e.x as i64,
        cy: e.y as i64,
        rx: spec_radius(e.x_radius),
        ry: spec_radius(e.y_radius),
    }
}

/// The inclusive far corner of a box, clamped so the hit test stays in
/// range (no visible cell can tell the difference).
pub open spec fn spec_box_hi(lo: int, extent: int) -> i64 {
    let hi = lo + extent - 1;
    if hi > 0x7fffffffffff {
        0x7fffffffffff
    } else {
        hi as i64
    }
}

/// The shape a box rasterises to.
pub open spec fn box_shape(r: Rectangle, thin: bool) -> Shape {
    Shape::BoxEdge {
        x0: r.x as i64,
        y0: r.y as i64,
        x1: spec_box_hi(r.x as int, r.width as int),
        y1: spec_box_hi(r.y as int, r.height as int),
        thin,
    }
}

/// The shape a filled triangle rasterises to.
pub open spec fn triangle_shape(t: Triangle) -> Shape {
    Shape::FilledTriangle {
        x1: t.vertex1.x as i64,
        y1: t.vertex1.y as i64,
        x2: t.vertex2.x as i64,
        y2: t.vertex2.y as i64,
        x3: t.vertex3.x as i64,
        y3: t.vertex3.y as i64,
    }
}

/// Clamps a radius for rasterisation.
fn radius_exec(r: usize) -> (v: i64)
    ensures
        v == spec_radius(r),
{
    if r > 0x40000000 {
        0x40000000
    } else {
        r as i64
    }
}

/// Clamps a box's inclusive far corner.
fn box_hi_exec(lo: i32, extent: usize) -> (v: i64)
    ensures
        v == spec_box_hi(lo as int, extent as int),
{
    let hi: i128 = lo as i128 + extent as i128 - 1;
    if hi > 0x7fffffffffff {
        0x7fffffffffff
    } else {
        hi as i64
    }
}

impl Canvas {
    /// Draws the outline of a circle of `ch`: exactly the boundary cells
    /// of the filled disc are stamped with the current attribute, and
    /// the circle's bounding box is recorded as dirty.
    pub fn draw_circle(&mut self, circle: &Circle, ch: u32)
        requires
            old(self).wf(),
        ensures
            final(self).wf(),
            final(self).frames_like(*old(self)),
            final(self).config_like(*old(self)),
            final(self).buf().same_dims(old(self).buf()),
            shape_stamped(*final(self), *old(self), circle_shape(*circle), ch),
            old(self).dirty.enabled ==> forall|x: int, y: int|
                old(self).in_bounds(x, y) && shape_hit(circle_shape(*circle), x, y)
                    ==> crate::dirty::rects_cover(final(self).dirty.rects@, x, y),
            dirty_extended(
                *final(self),
                *old(self),
                circle.x - spec_radius(circle.radius),
                circle.y - spec_radius(circle.radius),
                circle.x + spec_radius(circle.radius) + 1,
                circle.y + spec_radius(circle.radius) + 1,
            ),
    {
        let r = radius_exec(circle.radius);
        let s = Shape::EllipseOutline {
            cx: circle.x as i64,
            cy: circle.y as i64,
            rx: r,
            ry: r,
            thin: false,
        };
        let ghost pre = *self;
        self.draw_shape(
            s,
            ch,
            circle.x as i128 - r as i128,
            circle.y as i128 - r as i128,
            circle.x as i128 + r as i128 + 1,
            circle.y as i128 + r as i128 + 1,
        );
        proof {
            if pre.dirty.enabled {
                let w = pre.buf().width as int;
                let h = pre.buf().height as int;
                assert forall|x: int, y: int|
                    pre.in_bounds(x, y) && shape_hit(circle_shape(*circle), x, y) implies
                    crate::dirty::rects_cover(self.dirty.rects@, x, y) by {
                    assert((circle.x as int) - (spec_radius(circle.radius) as int) <= x <= (circle.x as int) + (spec_radius(circle.radius) as int) && (circle.y as int) - (spec_radius(circle.radius) as int) <= y <= (circle.y as int) + (spec_radius(circle.radius) as int));
                    assert(spec_intersects(w, h, (circle.x as int) - (spec_radius(circle.radius) as int), (circle.y as int) - (spec_radius(circle.radius) as int), (circle.x as int) + (spec_radius(circle.radius) as int) + 1, (circle.y as int) + (spec_radius(circle.radius) as int) + 1));
                    let c = spec_clamp(w, h, (circle.x as int) - (spec_radius(circle.radius) as int), (circle.y as int) - (spec_radius(circle.radius) as int), (circle.x as int) + (spec_radius(circle.radius) as int) + 1, (circle.y as int) + (spec_radius(circle.radius) as int) + 1);
                    assert(self.dirty.rects@ == pre.dirty.rects@.push(c));
                    assert(crate::dirty::rect_covers(c, x, y));
                    let k = self.dirty.rects@.len() - 1;
                    assert(0 <= k < self.dirty.rects@.len() && crate::dirty::rect_covers(
                        self.dirty.rects@[k],
                        x,
                        y,
                    ));
                }
            }
        }
    }

    /// Draws the outline of an ellipse of `ch`: exactly the boundary
    /// cells of the filled ellipse are stamped with the current
    /// attribute, and the ellipse's bounding box is recorded as dirty.
    pub fn draw_ellipse(&mut self, ellipse: &Ellipse, ch: u32)
        requires
            old(self).wf(),
        ensures
            final(self).wf(),
            final(self).frames_like(*old(self)),
            final(self).config_like(*old(self)),
            final(self).buf().same_dims(old(self).buf()),
            shape_stamped(*final(self), *old(self), ellipse_shape(*ellipse, false), ch),
            old(self).dirty.enabled ==> forall|x: int, y: int|
                old(self).in_bounds(x, y) && shape_hit(ellipse_shape(*ellipse, false), x, y)
                    ==> crate::dirty::rects_cover(final(self).dirty.rects@, x, y),
            dirty_extended(
                *final(self),
                *old(self),
                ellipse.x - spec_radius(ellipse.x_radius),
                ellipse.y - spec_radius(ellipse.y_radius),
                ellipse.x + spec_radius(ellipse.x_radius) + 1,
                ellipse.y + spec_radius(ellipse.y_radius) + 1,
            ),
    {
        let rx = radius_exec(ellipse.x_radius);
        let ry = radius_exec(ellipse.y_radius);
        let s = Shape::EllipseOutline {
            cx: ellipse.x as i64,
            cy: ellipse.y as i64,
            rx,
            ry,
            thin: false,
        };
        let ghost pre = *self;
        self.draw_shape(
            s,
            ch,
            ellipse.x as i128 - rx as i128,
            ellipse.y as i128 - ry as i128,
            ellipse.x as i128 + rx as i128 + 1,
            ellipse.y as i128 + ry as i128 + 1,
        );
        proof {
            if pre.dirty.enabled {
                let w = pre.buf().width as int;
                let h = pre.buf().height as int;
                let cx = ellipse.x as int;
                let cy = ellipse.y as int;
                let rxs = spec_radius(ellipse.x_radius) as int;
                let rys = spec_radius(ellipse.y_radius) as int;
                assert forall|x: int, y: int|
                    pre.in_bounds(x, y) && shape_hit(ellipse_shape(*ellipse, false), x, y) implies
                    crate::dirty::rects_cover(self.dirty.rects@, x, y) by {
                    assert(cx - rxs <= x <= cx + rxs && cy - rys <= y <= cy + rys);
                    assert(spec_intersects(w, h, cx - rxs, cy - rys, cx + rxs + 1, cy + rys + 1));
                    let c = spec_clamp(w, h, cx - rxs, cy - rys, cx + rxs + 1, cy + rys + 1);
                    assert(self.dirty.rects@ == pre.dirty.rects@.push(c));
                    assert(crate::dirty::rect_covers(c, x, y));
                    let k = self.dirty.rects@.len() - 1;
                    assert(0 <= k < self.dirty.rects@.len() && crate::dirty::rect_covers(
                        self.dirty.rects@[k],
                        x,
                        y,
                    ));
                }
            }
        }
    }

    /// Draws a thin ellipse outline: the boundary cells are stamped with
    /// line glyphs chosen from the local direction, under the current
    /// attribute.
    pub fn draw_thin_ellipse(&mut self, ellipse: &Ellipse)
        requires
            old(self).wf(),
        ensures
            final(self).wf(),
            final(self).frames_like(*old(self)),
            final(self).config_like(*old(self)),
            final(self).buf().same_dims(old(self).buf()),
            shape_stamped(*final(self), *old(self), ellipse_shape(*ellipse, true), 0),
            old(self).dirty.enabled ==> forall|x: int, y: int|
                old(self).in_bounds(x, y) && shape_hit(ellipse_shape(*ellipse, true), x, y)
                    ==> crate::dirty::rects_cover(final(self).dirty.rects@, x, y),
            dirty_extended(
                *final(self),
                *old(self),
                ellipse.x - spec_radius(ellipse.x_radius),
                ellipse.y - spec_radius(ellipse.y_radius),
                ellipse.x + spec_radius(ellipse.x_radius) + 1,
                ellipse.y + spec_radius(ellipse.y_radius) + 1,
            ),
    {
        let rx = radius_exec(ellipse.x_radius);
        let ry = radius_exec(ellipse.y_radius);
        let s = Shape::EllipseOutline {
            cx: ellipse.x as i64,
            cy: ellipse.y as i64,
            rx,
            ry,
            thin: true,
        };
        let ghost pre = *self;
        self.draw_shape(
            s,
            0,
            ellipse.x as i128 - rx as i128,
            ellipse.y as i128 - ry as i128,
            ellipse.x as i128 + rx as i128 + 1,
            ellipse.y as i128 + ry as i128 + 1,
        );
        proof {
            if pre.dirty.enabled {
                let w = pre.buf().width as int;
                let h = pre.buf().height as int;
                let cx = ellipse.x as int;
                let cy = ellipse.y as int;
                let rxs = spec_radius(ellipse.x_radius) as int;
                let rys = spec_radius(ellipse.y_radius) as int;
                assert forall|x: int, y: int|
                    pre.in_bounds(x, y) && shape_hit(ellipse_shape(*ellipse, true), x, y) implies
                    crate::dirty::rects_cover(self.dirty.rects@, x, y) by {
                    assert(cx - rxs <= x <= cx + rxs && cy - rys <= y <= cy + rys);
                    assert(spec_intersects(w, h, cx - rxs, cy - rys, cx + rxs + 1, cy + rys + 1));
                    let c = spec_clamp(w, h, cx - rxs, cy - rys, cx + rxs + 1, cy + rys + 1);
                    assert(self.dirty.rects@ == pre.dirty.rects@.push(c));
                    assert(crate::dirty::rect_covers(c, x, y));
                    let k = self.dirty.rects@.len() - 1;
                    assert(0 <= k < self.dirty.rects@.len() && crate::dirty::rect_covers(
                        self.dirty.rects@[k],
                        x,
                        y,
                    ));
                }
            }
        }
    }

    /// Fills an ellipse with `ch`: exactly the cells on or inside the
    /// ellipse are stamped with the current attribute.
    pub fn fill_ellipse(&mut self, ellipse: &Ellipse, ch: u32)
        requires
            old(self).wf(),
        ensures
            final(self).wf(),
            final(self).frames_like(*old(self)),
            final(self).config_like(*old(self)),
            final(self).buf().same_dims(old(self).buf()),
            shape_stamped(*final(self), *old(self), ellipse_fill_shape(*ellipse), ch),
            old(self).dirty.enabled ==> forall|x: int, y: int|
                old(self).in_bounds(x, y) && shape_hit(ellipse_fill_shape(*ellipse), x, y)
                    ==> crate::dirty::rects_cover(final(self).dirty.rects@, x, y),
            dirty_extended(
                *final(self),
                *old(self),
                ellipse.x - spec_radius(ellipse.x_radius),
                ellipse.y - spec_radius(ellipse.y_radius),
                ellipse.x + spec_radius(ellipse.x_radius) + 1,
                ellipse.y + spec_radius(ellipse.y_radius) + 1,
            ),
    {
        let rx = radius_exec(ellipse.x_radius);
        let ry = radius_exec(ellipse.y_radius);
        let s = Shape::FilledEllipse { cx: ellipse.x as i64, cy: ellipse.y as i64, rx, ry };
        let ghost pre = *self;
        self.draw_shape(
            s,
            ch,
            ellipse.x as i128 - rx as i128,
            ellipse.y as i128 - ry as i128,
            ellipse.x as i128 + rx as i128 + 1,
            ellipse.y as i128 + ry as i128 + 1,
        );
        proof {
            if pre.dirty.enabled {
                let w = pre.buf().width as int;
                let h = pre.buf().height as int;
                let cx = ellipse.x as int;
                let cy = ellipse.y as int;
                let rxs = spec_radius(ellipse.x_radius) as int;
                let rys = spec_radius(ellipse.y_radius) as int;
                assert forall|x: int, y: int|
                    pre.in_bounds(x, y) && shape_hit(ellipse_fill_shape(*ellipse), x, y) implies
                    crate::dirty::rects_cover(self.dirty.rects@, x, y) by {
                    assert(cx - rxs <= x <= cx + rxs && cy - rys <= y <= cy + rys);
                    assert(spec_intersects(w, h, cx - rxs, cy - rys, cx + rxs + 1, cy + rys + 1));
                    let c = spec_clamp(w, h, cx - rxs, cy - rys, cx + rxs + 1, cy + rys + 1);
                    assert(self.dirty.rects@ == pre.dirty.rects@.push(c));
                    assert(crate::dirty::rect_covers(c, x, y));
                    let k = self.dirty.rects@.len() - 1;
                    assert(0 <= k < self.dirty.rects@.len() && crate::dirty::rect_covers(
                        self.dirty.rects@[k],
                        x,
                        y,
                    ));
                }
            }
        }
    }

    /// Draws the outline of an axis-aligned box of `ch`: exactly the
    /// cells on the box's perimeter are stamped with the current
    /// attribute, and the box is recorded as dirty.  A box of zero width
    /// or height stamps nothing.
    pub fn draw_box(&mut self, rect: &Rectangle, ch: u32)
        requires
            old(self).wf(),
        ensures
            final(self).wf(),
            final(self).frames_like(*old(self)),
            final(self).config_like(*old(self)),
            final(self).buf().same_dims(old(self).buf()),
            shape_stamped(*final(self), *old(self), box_shape(*rect, false), ch),
            dirty_extended(
                *final(self),
                *old(self),
                rect.x as int,
                rect.y as int,
                spec_box_hi(rect.x as int, rect.width as int) + 1,
                spec_box_hi(rect.y as int, rect.height as int) + 1,
            ),
    {
        let x1 = box_hi_exec(rect.x, rect.width);
        let y1 = box_hi_exec(rect.y, rect.height);
        let s = Shape::BoxEdge { x0: rect.x as i64, y0: rect.y as i64, x1, y1, thin: false };
        self.draw_shape(
            s,
            ch,
            rect.x as i128,
            rect.y as i128,
            x1 as i128 + 1,
            y1 as i128 + 1,
        );
    }

    /// Draws a thin box outline: the perimeter cells receive
    /// box-drawing glyphs (corners, horizontal and vertical lines) under
    /// the current attribute.
    pub fn draw_thin_box(&mut self, rect: &Rectangle)
        requires
            old(self).wf(),
        ensures
            final(self).wf(),
            final(self).frames_like(*old(self)),
            final(self).config_like(*old(self)),
            final(self).buf().same_dims(old(self).buf()),
            shape_stamped(*final(self), *old(self), box_shape(*rect, true), 0),
            dirty_extended(
                *final(self),
                *old(self),
                rect.x as int,
                rect.y as int,
                spec_box_hi(rect.x as int, rect.width as int) + 1,
                spec_box_hi(rect.y as int, rect.height as int) + 1,
            ),
    {
        let x1 = box_hi_exec(rect.x, rect.width);
        let y1 = box_hi_exec(rect.y, rect.height);
        let s = Shape::BoxEdge { x0: rect.x as i64, y0: rect.y as i64, x1, y1, thin: true };
        self.draw_shape(
            s,
            0,
            rect.x as i128,
            rect.y as i128,
            x1 as i128 + 1,
            y1 as i128 + 1,
        );
    }

    /// Fills a triangle with `ch`: exactly the cells whose three edge
    /// functions agree in sign are stamped with the current attribute.
    pub fn fill_triangle(&mut self, triangle: &Triangle, ch: u32)
        requires
            old(self).wf(),
        ensures
            final(self).wf(),
            final(self).frames_like(*old(self)),
            final(self).config_like(*old(self)),
            final(self).buf().same_dims(old(self).buf()),
            shape_stamped(*final(self), *old(self), triangle_shape(*triangle), ch),
            final(self).dirty.enabled == old(self).dirty.enabled,
            old(self).dirty.rects@.is_prefix_of(final(self).dirty.rects@),
            old(self).dirty.enabled ==> forall|x: int, y: int|
                old(self).in_bounds(x, y) && shape_hit(triangle_shape(*triangle), x, y)
                    ==> crate::dirty::rects_cover(final(self).dirty.rects@, x, y),
    {
        let s = Shape::FilledTriangle {
            x1: triangle.vertex1.x as i64,
            y1: triangle.vertex1.y as i64,
            x2: triangle.vertex2.x as i64,
            y2: triangle.vertex2.y as i64,
            x3: triangle.vertex3.x as i64,
            y3: triangle.vertex3.y as i64,
        };
        let lox = imin3(triangle.vertex1.x, triangle.vertex2.x, triangle.vertex3.x);
        let loy = imin3(triangle.vertex1.y, triangle.vertex2.y, triangle.vertex3.y);
        let hix = imax3(triangle.vertex1.x, triangle.vertex2.x, triangle.vertex3.x);
        let hiy = imax3(triangle.vertex1.y, triangle.vertex2.y, triangle.vertex3.y);
        proof {
            broadcast use vstd::seq_lib::group_seq_properties;
        }
        let ghost pre = *self;
        self.draw_shape(
            s,
            ch,
            lox as i128,
            loy as i128,
            hix as i128 + 1,
            hiy as i128 + 1,
        );
        proof {
            if pre.dirty.enabled {
                let w = pre.buf().width as int;
                let h = pre.buf().height as int;
                assert forall|x: int, y: int|
                    pre.in_bounds(x, y) && shape_hit(triangle_shape(*triangle), x, y) implies
                    crate::dirty::rects_cover(self.dirty.rects@, x, y) by {
                    assert(lox <= x <= hix && loy <= y <= hiy);
                    assert(spec_intersects(w, h, lox as int, loy as int, hix + 1, hiy + 1));
                    let c = spec_clamp(w, h, lox as int, loy as int, hix + 1, hiy + 1);
                    assert(self.dirty.rects@ == pre.dirty.rects@.push(c));
                    assert(crate::dirty::rect_covers(c, x, y));
                    let k = self.dirty.rects@.len() - 1;
                    assert(0 <= k < self.dirty.rects@.len() && crate::dirty::rect_covers(
                        self.dirty.rects@[k],
                        x,
                        y,
                    ));
                }
            }
        }
    }

    /// Draws the outline of a triangle of `ch`: its three sides as
    /// lines, so every touched cell holds `ch` under the current
    /// attribute and each visible vertex is stamped.
    pub fn draw_triangle(&mut self, triangle: &Triangle, ch: u32)
        requires
            old(self).wf(),
        ensures
            final(self).wf(),
            final(self).frames_like(*old(self)),
            final(self).config_like(*old(self)),
            final(self).buf().same_dims(old(self).buf()),
            buf_kept_or(final(self).buf(), old(self).buf(), ch, old(self).cur_attr),
            forall|v: Point|
                (v == triangle.vertex1 || v == triangle.vertex2 || v == triangle.vertex3)
                    && old(self).in_bounds(v.x as int, v.y as int) ==> final(self).char_at(
                    v.x as int,
                    v.y as int,
                ) == ch && final(self).attr_at(v.x as int, v.y as int) == old(self).cur_attr,
            forall|x: int, y: int|
                old(self).in_bounds(x, y) ==> {
                    if polyline_covers(
                        seq![triangle.vertex1, triangle.vertex2, triangle.vertex3, triangle.vertex1],
                        x,
                        y,
                    ) {
                        final(self).char_at(x, y) == ch && final(self).attr_at(x, y) == old(self).cur_attr
                    } else {
                        final(self).char_at(x, y) == old(self).char_at(x, y)
                            && final(self).attr_at(x, y) == old(self).attr_at(x, y)
                    }
                },
            old(self).dirty.enabled ==> forall|x: int, y: int|
                old(self).in_bounds(x, y) && polyline_covers(
                    seq![triangle.vertex1, triangle.vertex2, triangle.vertex3, triangle.vertex1],
                    x,
                    y,
                ) ==> crate::dirty::rects_cover(final(self).dirty.rects@, x, y),
            final(self).dirty.enabled == old(self).dirty.enabled,
            old(self).dirty.rects@.is_prefix_of(final(self).dirty.rects@),
    {
        let mut pts: Vec<Point> = Vec::new();
        pts.push(triangle.vertex1);
        pts.push(triangle.vertex2);
        pts.push(triangle.vertex3);
        pts.push(triangle.vertex1);
        let ghost pv = pts@;
        self.draw_polyline(pts.as_slice(), ch);
        proof {
            assert(pv =~= seq![
                triangle.vertex1,
                triangle.vertex2,
                triangle.vertex3,
                triangle.vertex1,
            ]);
            assert(pv[0] == triangle.vertex1);
            assert(pv[1] == triangle.vertex2);
            assert(pv[2] == triangle.vertex3);
        }
    }

    /// Draws a thin triangle outline: its three sides as thin lines, so
    /// every touched cell holds a line glyph under the current
    /// attribute.
    pub fn draw_thin_triangle(&mut self, triangle: &Triangle)
        requires
            old(self).wf(),
        ensures
            final(self).wf(),
            final(self).frames_like(*old(self)),
            final(self).config_like(*old(self)),
            final(self).buf().same_dims(old(self).buf()),
            forall|x: int, y: int|
                old(self).in_bounds(x, y) ==> (final(self).char_at(x, y) == old(self).char_at(
                    x,
                    y,
                ) && final(self).attr_at(x, y) == old(self).attr_at(x, y)) || ((final(self).char_at(x, y) == GLYPH_HORIZONTAL || final(self).char_at(x, y)
                    == GLYPH_VERTICAL || final(self).char_at(x, y) == 0x5c || final(self).char_at(x, y) == 0x2f) && final(self).attr_at(x, y) == old(self).cur_attr),
            final(self).dirty.enabled == old(self).dirty.enabled,
            old(self).dirty.rects@.is_prefix_of(final(self).dirty.rects@),
    {
        let mut pts: Vec<Point> = Vec::new();
        pts.push(triangle.vertex1);
        pts.push(triangle.vertex2);
        pts.push(triangle.vertex3);
        pts.push(triangle.vertex1);
        self.draw_thin_polyline(pts.as_slice());
    }
}

/// The smallest of three coordinates.
fn imin3(a: i32, b: i32, c: i32) -> (r: i32)
    ensures
        r as int == imin(imin(a as int, b as int), c as int),
{
    let m = if a <= b { a } else { b };
    if m <= c { m } else { c }
}

/// The largest of three coordinates.
fn imax3(a: i32, b: i32, c: i32) -> (r: i32)
    ensures
        r as int == imax(imax(a as int, b as int), c as int),
{
    let m = if a >= b { a } else { b };
    if m >= c { m } else { c }
}


/// Outline and fill agree on edge cells for circles and ellipses: every
/// cell of the outline footprint lies in the filled footprint of the
/// same ellipse (the outline is defined as the boundary of that fill).
pub proof fn lemma_ellipse_outline_in_fill(e: Ellipse, thin: bool, x: int, y: int)
    requires
        shape_hit(ellipse_shape(e, thin), x, y),
    ensures
        shape_hit(ellipse_fill_shape(e), x, y),
{
}

/// Drawing a box records a cover of its footprint (when tracking is
/// on): after `draw_box` or `draw_thin_box`, every in-bounds cell of
/// the box's perimeter is covered by a recorded dirty rectangle.
pub proof fn lemma_box_dirty_cover(n: Canvas, o: Canvas, rect: Rectangle, thin: bool)
    requires
        o.wf(),
        o.dirty.enabled,
        dirty_extended(
            n,
            o,
            rect.x as int,
            rect.y as int,
            spec_box_hi(rect.x as int, rect.width as int) + 1,
            spec_box_hi(rect.y as int, rect.height as int) + 1,
        ),
    ensures
        forall|x: int, y: int|
            o.in_bounds(x, y) && shape_hit(box_shape(rect, thin), x, y)
                ==> crate::dirty::rects_cover(n.dirty.rects@, x, y),
{
    let w = o.buf().width as int;
    let h = o.buf().height as int;
    let x1 = spec_box_hi(rect.x as int, rect.width as int);
    let y1 = spec_box_hi(rect.y as int, rect.height as int);
    assert forall|x: int, y: int|
        o.in_bounds(x, y) && shape_hit(box_shape(rect, thin), x, y) implies
        crate::dirty::rects_cover(n.dirty.rects@, x, y) by {
        assert(rect.x <= x <= x1 && rect.y <= y <= y1);
        assert(spec_intersects(w, h, rect.x as int, rect.y as int, x1 + 1, y1 + 1));
        let c = spec_clamp(w, h, rect.x as int, rect.y as int, x1 + 1, y1 + 1);
        assert(n.dirty.rects@ == o.dirty.rects@.push(c));
        assert(crate::dirty::rect_covers(c, x, y));
        let k = n.dirty.rects@.len() - 1;
        assert(0 <= k < n.dirty.rects@.len() && crate::dirty::rect_covers(
            n.dirty.rects@[k],
            x,
            y,
        ));
    }
}

} // verus!
