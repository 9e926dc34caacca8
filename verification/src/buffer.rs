//! The character/attribute grid backing one frame of a canvas.

use vstd::prelude::*;

use crate::MAX_DIM;
use crate::attr::Attr;
use crate::attr::spec_default_attr;

verus! {

/// The character stored in a cell nothing has drawn into.
pub const EMPTY_CHAR: u32 = 0;

/// A rectangular grid of cells in row-major order.  A cell is a Unicode
/// code point (`0` meaning empty) paired with a packed attribute; the two
/// are kept in parallel vectors so renderers can read either plane whole.
#[derive(Clone)]
pub struct CellBuffer {
    pub width: usize,
    pub height: usize,
    pub chars: Vec<u32>,
    pub attrs: Vec<Attr>,
}

impl CellBuffer {
    /// Both planes hold exactly `width * height` cells and the dimensions
    /// stay within `MAX_DIM`.
    pub open spec fn wf(self) -> bool {
        &&& self.chars.len() == self.width * self.height
        &&& self.attrs.len() == self.width * self.height
        &&& self.width <= MAX_DIM
        &&& self.height <= MAX_DIM
    }

    pub open spec fn in_bounds(self, x: int, y: int) -> bool {
        0 <= x < self.width && 0 <= y < self.height
    }

    /// The row-major index of a coordinate.
    pub open spec fn idx(self, x: int, y: int) -> int {
        y * self.width + x
    }

    pub open spec fn char_at(self, x: int, y: int) -> u32 {
        self.chars@[self.idx(x, y)]
    }

    pub open spec fn attr_at(self, x: int, y: int) -> Attr {
        self.attrs@[self.idx(x, y)]
    }

    /// Two buffers have the same dimensions.
    pub open spec fn same_dims(self, other: CellBuffer) -> bool {
        self.width == other.width && self.height == other.height
    }

    /// Every cell holds the given character under an attribute whose
    /// packed value is `av`.
    pub open spec fn all_cells(self, ch: u32, av: u32) -> bool {
        forall|x: int, y: int|
            self.in_bounds(x, y) ==> self.char_at(x, y) == ch && self.attr_at(x, y)@ == av
    }
}

/// A coordinate inside the grid indexes inside the cell vectors.
pub proof fn lemma_idx_bounds(b: CellBuffer, x: int, y: int)
    requires
        b.in_bounds(x, y),
    ensures
        0 <= b.idx(x, y) < b.width * b.height,
{
    assert(y * b.width + x < b.height * b.width && b.height * b.width == b.width * b.height)
        by (nonlinear_arith)
        requires
            0 <= x < b.width,
            0 <= y < b.height,
    ;
}

/// Distinct coordinates have distinct row-major indices.
pub proof fn lemma_idx_injective(b: CellBuffer, x: int, y: int, i: int, j: int)
    requires
        b.in_bounds(x, y),
        b.in_bounds(i, j),
        x != i || y != j,
    ensures
        b.idx(x, y) != b.idx(i, j),
{
    assert(y * b.width + x != j * b.width + i) by (nonlinear_arith)
        requires
            0 <= x < b.width,
            0 <= i < b.width,
            0 <= y,
            0 <= j,
            x != i || y != j,
    ;
}

impl CellBuffer {
    /// A fresh buffer of the given size with every cell empty.
    pub fn create(width: usize, height: usize) -> (b: CellBuffer)
        requires
            width <= MAX_DIM,
            height <= MAX_DIM,
        ensures
            b.wf(),
            b.width == width,
            b.height == height,
            b.all_cells(EMPTY_CHAR, spec_default_attr()),
    {
        proof {
            assert(width * height <= MAX_DIM * MAX_DIM) by (nonlinear_arith)
                requires
                    width <= MAX_DIM,
                    height <= MAX_DIM,
            ;
        }
        let n = width * height;
        let mut chars: Vec<u32> = Vec::new();
        let mut attrs: Vec<Attr> = Vec::new();
        let default_attr = Attr::default();
        proof {
            assert(default_attr@ == spec_default_attr());
        }
        let mut i: usize = 0;
        while i < n
            invariant
                i <= n,
                chars.len() == i,
                attrs.len() == i,
                forall|k: int| 0 <= k < i ==> chars@[k] == EMPTY_CHAR,
                forall|k: int| 0 <= k < i ==> attrs@[k] == default_attr,
            decreases n - i,
        {
            chars.push(EMPTY_CHAR);
            attrs.push(default_attr);
            i += 1;
        }
        let b = CellBuffer { width, height, chars, attrs };
        proof {
            assert forall|x: int, y: int| b.in_bounds(x, y) implies b.char_at(x, y) == EMPTY_CHAR
                && b.attr_at(x, y)@ == spec_default_attr() by {
                lemma_idx_bounds(b, x, y);
            }
        }
        b
    }

    /// Reads the cell at a coordinate; out-of-bounds coordinates read as
    /// an empty cell with the default attribute.
    pub fn get(&self, x: usize, y: usize) -> (r: (u32, Attr))
        requires
            self.wf(),
        ensures
            self.in_bounds(x as int, y as int) ==> r == (
                self.char_at(x as int, y as int),
                self.attr_at(x as int, y as int),
            ),
            !self.in_bounds(x as int, y as int) ==> r.0 == EMPTY_CHAR && r.1@
                == spec_default_attr(),
    {
        if x < self.width && y < self.height {
            proof {
                lemma_idx_bounds(*self, x as int, y as int);
            }
            let i = y * self.width + x;
            (self.chars[i], self.attrs[i])
        } else {
            (EMPTY_CHAR, Attr::default())
        }
    }

    /// Writes the cell at a coordinate; out-of-bounds coordinates are a
    /// silent no-op.
    pub fn set(&mut self, x: usize, y: usize, ch: u32, attr: Attr)
        requires
            old(self).wf(),
        ensures
            final(self).wf(),
            final(self).same_dims(*old(self)),
            old(self).in_bounds(x as int, y as int) ==> {
                &&& final(self).char_at(x as int, y as int) == ch
                &&& final(self).attr_at(x as int, y as int) == attr
            },
            forall|i: int, j: int|
                old(self).in_bounds(i, j) && (i != x || j != y) ==> {
                    &&& final(self).char_at(i, j) == old(self).char_at(i, j)
                    &&& final(self).attr_at(i, j) == old(self).attr_at(i, j)
                },
            !old(self).in_bounds(x as int, y as int) ==> *final(self) == *old(self),
    {
        if x < self.width && y < self.height {
            proof {
                lemma_idx_bounds(*self, x as int, y as int);
            }
            let i = y * self.width + x;
            self.chars.set(i, ch);
            self.attrs.set(i, attr);
            proof {
                assert forall|a: int, b: int|
                    old(self).in_bounds(a, b) && (a != x || b != y) implies self.char_at(a, b)
                    == old(self).char_at(a, b) && self.attr_at(a, b) == old(self).attr_at(
                    a,
                    b,
                ) by {
                    lemma_idx_bounds(*old(self), a, b);
                    lemma_idx_injective(*old(self), x as int, y as int, a, b);
                }
            }
        }
    }

    /// Overwrites every cell with the given character and attribute.
    pub fn fill(&mut self, ch: u32, attr: Attr)
        requires
            old(self).wf(),
        ensures
            final(self).wf(),
            final(self).same_dims(*old(self)),
            final(self).all_cells(ch, attr@),
    {
        let n = self.chars.len();
        let mut chars: Vec<u32> = Vec::new();
        let mut attrs: Vec<Attr> = Vec::new();
        let mut i: usize = 0;
        while i < n
            invariant
                i <= n,
                chars.len() == i,
                attrs.len() == i,
                forall|k: int| 0 <= k < i ==> chars@[k] == ch,
                forall|k: int| 0 <= k < i ==> attrs@[k] == attr,
            decreases n - i,
        {
            chars.push(ch);
            attrs.push(attr);
            i += 1;
        }
        self.chars = chars;
        self.attrs = attrs;
        proof {
            assert forall|x: int, y: int| self.in_bounds(x, y) implies self.char_at(x, y) == ch
                && self.attr_at(x, y) == attr by {
                lemma_idx_bounds(*self, x, y);
            }
        }
    }
}

/// The element of a row-major sequence of row length `w` at column `x` of
/// row `y`.
pub open spec fn seq_at<T>(s: Seq<T>, w: int, x: int, y: int) -> T {
    s[y * w + x]
}

/// The cell `(ch, at)` is what a rebuilt buffer owes at a target
/// coordinate whose source coordinate is `(sx, sy)`: the source cell when
/// that coordinate exists, the empty cell otherwise.
pub open spec fn cell_matches(a: CellBuffer, sx: int, sy: int, ch: u32, at: Attr) -> bool {
    if a.in_bounds(sx, sy) {
        ch == a.char_at(sx, sy) && at == a.attr_at(sx, sy)
    } else {
        ch == EMPTY_CHAR && at@ == spec_default_attr()
    }
}

/// `b` is `a` resized to `nw` by `nh`: the overlapping region is kept,
/// cells beyond the old bounds are empty.
pub open spec fn is_resize_of(b: CellBuffer, a: CellBuffer, nw: int, nh: int) -> bool {
    &&& b.wf()
    &&& b.width == nw
    &&& b.height == nh
    &&& forall|x: int, y: int|
        b.in_bounds(x, y) ==> cell_matches(a, x, y, b.char_at(x, y), b.attr_at(x, y))
}

/// `b` is `a` with its rows in reverse order (a vertical mirror).
pub open spec fn is_flip_of(b: CellBuffer, a: CellBuffer) -> bool {
    &&& b.wf()
    &&& b.same_dims(a)
    &&& forall|x: int, y: int|
        b.in_bounds(x, y) ==> b.char_at(x, y) == a.char_at(x, a.height - 1 - y) && b.attr_at(
            x,
            y,
        ) == a.attr_at(x, a.height - 1 - y)
}

/// `b` is `a` with its columns in reverse order (a horizontal mirror).
pub open spec fn is_flop_of(b: CellBuffer, a: CellBuffer) -> bool {
    &&& b.wf()
    &&& b.same_dims(a)
    &&& forall|x: int, y: int|
        b.in_bounds(x, y) ==> b.char_at(x, y) == a.char_at(a.width - 1 - x, y) && b.attr_at(
            x,
            y,
        ) == a.attr_at(a.width - 1 - x, y)
}

/// `b` is `a` turned through 180 degrees.
pub open spec fn is_half_turn_of(b: CellBuffer, a: CellBuffer) -> bool {
    &&& b.wf()
    &&& b.same_dims(a)
    &&& forall|x: int, y: int|
        b.in_bounds(x, y) ==> b.char_at(x, y) == a.char_at(a.width - 1 - x, a.height - 1 - y)
            && b.attr_at(x, y) == a.attr_at(a.width - 1 - x, a.height - 1 - y)
}

/// `b` is `a` rotated a quarter turn counter-clockwise; width and height
/// swap.
pub open spec fn is_left_rotation_of(b: CellBuffer, a: CellBuffer) -> bool {
    &&& b.wf()
    &&& b.width == a.height
    &&& b.height == a.width
    &&& forall|x: int, y: int|
        b.in_bounds(x, y) ==> b.char_at(x, y) == a.char_at(a.width - 1 - y, x) && b.attr_at(
            x,
            y,
        ) == a.attr_at(a.width - 1 - y, x)
}

/// `b` is `a` rotated a quarter turn clockwise; width and height swap.
pub open spec fn is_right_rotation_of(b: CellBuffer, a: CellBuffer) -> bool {
    &&& b.wf()
    &&& b.width == a.height
    &&& b.height == a.width
    &&& forall|x: int, y: int|
        b.in_bounds(x, y) ==> b.char_at(x, y) == a.char_at(y, a.height - 1 - x) && b.attr_at(
            x,
            y,
        ) == a.attr_at(y, a.height - 1 - x)
}

/// `b` is `a` compressed to half its width, keeping the left cell of
/// every column pair.
pub open spec fn is_left_stretch_of(b: CellBuffer, a: CellBuffer) -> bool {
    &&& b.wf()
    &&& b.width == (a.width + 1) / 2
    &&& b.height == a.height
    &&& forall|x: int, y: int|
        b.in_bounds(x, y) ==> b.char_at(x, y) == a.char_at(2 * x, y) && b.attr_at(x, y)
            == a.attr_at(2 * x, y)
}

/// `b` is `a` expanded to twice its width, each column written twice.
pub open spec fn is_right_stretch_of(b: CellBuffer, a: CellBuffer) -> bool {
    &&& b.wf()
    &&& b.width == 2 * a.width
    &&& b.height == a.height
    &&& forall|x: int, y: int|
        b.in_bounds(x, y) ==> b.char_at(x, y) == a.char_at(x / 2, y) && b.attr_at(x, y)
            == a.attr_at(x / 2, y)
}

impl CellBuffer {
    /// Resizes to `nw` by `nh`, keeping the cells of the maximal common
    /// top-left sub-rectangle and clearing any newly exposed area.
    pub fn resize(&mut self, nw: usize, nh: usize)
        requires
            old(self).wf(),
            nw <= MAX_DIM,
            nh <= MAX_DIM,
        ensures
            is_resize_of(*final(self), *old(self), nw as int, nh as int),
    {
        let b = rebuild(&*self, nw, nh, MapKind::Grow, 0, 0);
        *self = b;
    }

    /// Mirrors the rows: the top row becomes the bottom row.
    pub fn flip(&mut self)
        requires
            old(self).wf(),
        ensures
            is_flip_of(*final(self), *old(self)),
    {
        let b = rebuild(&*self, self.width, self.height, MapKind::MirrorRows, 0, 0);
        *self = b;
    }

    /// Mirrors the columns: the leftmost column becomes the rightmost.
    pub fn flop(&mut self)
        requires
            old(self).wf(),
        ensures
            is_flop_of(*final(self), *old(self)),
    {
        let b = rebuild(&*self, self.width, self.height, MapKind::MirrorCols, 0, 0);
        *self = b;
    }

    /// Rotates the buffer through 180 degrees.
    pub fn rotate_180(&mut self)
        requires
            old(self).wf(),
        ensures
            is_half_turn_of(*final(self), *old(self)),
    {
        let b = rebuild(&*self, self.width, self.height, MapKind::HalfTurn, 0, 0);
        *self = b;
    }

    /// Rotates a quarter turn counter-clockwise, swapping the dimensions.
    pub fn rotate_left(&mut self)
        requires
            old(self).wf(),
        ensures
            is_left_rotation_of(*final(self), *old(self)),
    {
        let b = rebuild(&*self, self.height, self.width, MapKind::QuarterLeft, 0, 0);
        *self = b;
    }

    /// Rotates a quarter turn clockwise, swapping the dimensions.
    pub fn rotate_right(&mut self)
        requires
            old(self).wf(),
        ensures
            is_right_rotation_of(*final(self), *old(self)),
    {
        let b = rebuild(&*self, self.height, self.width, MapKind::QuarterRight, 0, 0);
        *self = b;
    }

    /// Compresses to half width, keeping the left cell of each pair.
    pub fn stretch_left(&mut self)
        requires
            old(self).wf(),
        ensures
            is_left_stretch_of(*final(self), *old(self)),
    {
        let nw = (self.width + 1) / 2;
        let b = rebuild(&*self, nw, self.height, MapKind::HalveWidth, 0, 0);
        *self = b;
    }

    /// Expands to double width, writing each column twice.
    pub fn stretch_right(&mut self)
        requires
            old(self).wf(),
            2 * old(self).width <= MAX_DIM,
        ensures
            is_right_stretch_of(*final(self), *old(self)),
    {
        let nw = 2 * self.width;
        let b = rebuild(&*self, nw, self.height, MapKind::DoubleWidth, 0, 0);
        *self = b;
    }
}

/// `b` is the `nw` by `nh` window of `a` whose top-left corner sits at
/// `(ox, oy)` in `a`; cells of the window outside `a` are empty.
pub open spec fn is_window_of(b: CellBuffer, a: CellBuffer, ox: int, oy: int, nw: int, nh: int) -> bool {
    &&& b.wf()
    &&& b.width == nw
    &&& b.height == nh
    &&& forall|x: int, y: int|
        b.in_bounds(x, y) ==> cell_matches(a, ox + x, oy + y, b.char_at(x, y), b.attr_at(x, y))
}

impl CellBuffer {
    /// Crops (or extends) the buffer to the window of size `nw` by `nh`
    /// anchored at `(ox, oy)`; newly exposed cells are empty.
    pub fn window(&mut self, ox: i64, oy: i64, nw: usize, nh: usize)
        requires
            old(self).wf(),
            nw <= MAX_DIM,
            nh <= MAX_DIM,
            -0x100000000 <= ox <= 0x100000000,
            -0x100000000 <= oy <= 0x100000000,
        ensures
            is_window_of(*final(self), *old(self), ox as int, oy as int, nw as int, nh as int),
    {
        let b = rebuild(&*self, nw, nh, MapKind::Window, ox, oy);
        *self = b;
    }

    /// Swaps the foreground and background colour of every cell, leaving
    /// characters and style bits alone.
    pub fn invert(&mut self)
        requires
            old(self).wf(),
        ensures
            final(self).wf(),
            final(self).same_dims(*old(self)),
            forall|x: int, y: int|
                old(self).in_bounds(x, y) ==> {
                    &&& final(self).char_at(x, y) == old(self).char_at(x, y)
                    &&& final(self).attr_at(x, y)@ == crate::attr::spec_invert_attr(
                        old(self).attr_at(x, y)@,
                    )
                },
    {
        let n = self.attrs.len();
        let mut i: usize = 0;
        while i < n
            invariant
                old(self).wf(),
                n == old(self).attrs.len(),
                i <= n,
                self.width == old(self).width,
                self.height == old(self).height,
                self.chars == old(self).chars,
                self.attrs.len() == n,
                forall|k: int|
                    0 <= k < i ==> self.attrs@[k]@ == crate::attr::spec_invert_attr(
                        old(self).attrs@[k]@,
                    ),
                forall|k: int| i <= k < n ==> self.attrs@[k] == old(self).attrs@[k],
            decreases n - i,
        {
            let v = self.attrs[i].value();
            let inv = (v & 0xf) | (((v >> 18) & 0x3fff) << 4) | (((v >> 4) & 0x3fff) << 18);
            self.attrs.set(i, Attr::new(inv));
            i += 1;
        }
        proof {
            assert forall|x: int, y: int| old(self).in_bounds(x, y) implies self.char_at(x, y)
                == old(self).char_at(x, y) && self.attr_at(x, y)@
                == crate::attr::spec_invert_attr(old(self).attr_at(x, y)@) by {
                lemma_idx_bounds(*old(self), x, y);
            }
        }
    }
}

/// Resizing and then resizing back to the original dimensions preserves
/// every cell that existed in both sizes' overlapping region.
pub proof fn lemma_resize_roundtrip(
    a: CellBuffer,
    b: CellBuffer,
    c: CellBuffer,
    nw: int,
    nh: int,
)
    requires
        a.wf(),
        is_resize_of(b, a, nw, nh),
        is_resize_of(c, b, a.width as int, a.height as int),
    ensures
        c.same_dims(a),
        forall|x: int, y: int|
            a.in_bounds(x, y) && b.in_bounds(x, y) ==> c.char_at(x, y) == a.char_at(x, y)
                && c.attr_at(x, y) == a.attr_at(x, y),
{
    assert forall|x: int, y: int| a.in_bounds(x, y) && b.in_bounds(x, y) implies c.char_at(x, y)
        == a.char_at(x, y) && c.attr_at(x, y) == a.attr_at(x, y) by {
        assert(c.in_bounds(x, y));
        assert(cell_matches(b, x, y, c.char_at(x, y), c.attr_at(x, y)));
        assert(cell_matches(a, x, y, b.char_at(x, y), b.attr_at(x, y)));
    }
}

/// Mirroring the rows twice restores the original buffer cell for cell.
pub proof fn lemma_flip_involution(a: CellBuffer, b: CellBuffer, c: CellBuffer)
    requires
        a.wf(),
        is_flip_of(b, a),
        is_flip_of(c, b),
    ensures
        c.same_dims(a),
        forall|x: int, y: int|
            a.in_bounds(x, y) ==> c.char_at(x, y) == a.char_at(x, y) && c.attr_at(x, y)
                == a.attr_at(x, y),
{
    assert forall|x: int, y: int| a.in_bounds(x, y) implies c.char_at(x, y) == a.char_at(x, y)
        && c.attr_at(x, y) == a.attr_at(x, y) by {
        assert(c.in_bounds(x, y));
        assert(c.char_at(x, y) == b.char_at(x, b.height - 1 - y));
        assert(b.char_at(x, b.height - 1 - y) == a.char_at(x, y));
        assert(c.attr_at(x, y) == b.attr_at(x, b.height - 1 - y));
        assert(b.attr_at(x, b.height - 1 - y) == a.attr_at(x, y));
    }
}

/// Mirroring the columns twice restores the original buffer cell for
/// cell.
pub proof fn lemma_flop_involution(a: CellBuffer, b: CellBuffer, c: CellBuffer)
    requires
        a.wf(),
        is_flop_of(b, a),
        is_flop_of(c, b),
    ensures
        c.same_dims(a),
        forall|x: int, y: int|
            a.in_bounds(x, y) ==> c.char_at(x, y) == a.char_at(x, y) && c.attr_at(x, y)
                == a.attr_at(x, y),
{
    assert forall|x: int, y: int| a.in_bounds(x, y) implies c.char_at(x, y) == a.char_at(x, y)
        && c.attr_at(x, y) == a.attr_at(x, y) by {
        assert(c.in_bounds(x, y));
        assert(c.char_at(x, y) == b.char_at(b.width - 1 - x, y));
        assert(b.char_at(b.width - 1 - x, y) == a.char_at(x, y));
        assert(c.attr_at(x, y) == b.attr_at(b.width - 1 - x, y));
        assert(b.attr_at(b.width - 1 - x, y) == a.attr_at(x, y));
    }
}

/// A 180 degree rotation applied twice restores the original buffer cell
/// for cell.
pub proof fn lemma_half_turn_involution(a: CellBuffer, b: CellBuffer, c: CellBuffer)
    requires
        a.wf(),
        is_half_turn_of(b, a),
        is_half_turn_of(c, b),
    ensures
        c.same_dims(a),
        forall|x: int, y: int|
            a.in_bounds(x, y) ==> c.char_at(x, y) == a.char_at(x, y) && c.attr_at(x, y)
                == a.attr_at(x, y),
{
    assert forall|x: int, y: int| a.in_bounds(x, y) implies c.char_at(x, y) == a.char_at(x, y)
        && c.attr_at(x, y) == a.attr_at(x, y) by {
        assert(c.in_bounds(x, y));
        assert(c.char_at(x, y) == b.char_at(b.width - 1 - x, b.height - 1 - y));
        assert(b.char_at(b.width - 1 - x, b.height - 1 - y) == a.char_at(x, y));
        assert(c.attr_at(x, y) == b.attr_at(b.width - 1 - x, b.height - 1 - y));
        assert(b.attr_at(b.width - 1 - x, b.height - 1 - y) == a.attr_at(x, y));
    }
}

/// A quarter turn left followed by a quarter turn right restores the
/// original dimensions and every cell.
pub proof fn lemma_rotate_roundtrip(a: CellBuffer, b: CellBuffer, c: CellBuffer)
    requires
        a.wf(),
        is_left_rotation_of(b, a),
        is_right_rotation_of(c, b),
    ensures
        c.same_dims(a),
        forall|x: int, y: int|
            a.in_bounds(x, y) ==> c.char_at(x, y) == a.char_at(x, y) && c.attr_at(x, y)
                == a.attr_at(x, y),
{
    assert forall|x: int, y: int| a.in_bounds(x, y) implies c.char_at(x, y) == a.char_at(x, y)
        && c.attr_at(x, y) == a.attr_at(x, y) by {
        assert(c.in_bounds(x, y));
        assert(c.char_at(x, y) == b.char_at(y, b.height - 1 - x));
        assert(b.char_at(y, b.height - 1 - x) == a.char_at(a.width - 1 - (b.height - 1 - x), y));
        assert(a.width - 1 - (b.height - 1 - x) == x);
        assert(c.attr_at(x, y) == b.attr_at(y, b.height - 1 - x));
        assert(b.attr_at(y, b.height - 1 - x) == a.attr_at(x, y));
    }
}

/// The coordinate maps realised by `rebuild`.
#[derive(Copy, Clone)]
enum MapKind {
    Window,
    Grow,
    MirrorRows,
    MirrorCols,
    HalfTurn,
    QuarterLeft,
    QuarterRight,
    HalveWidth,
    DoubleWidth,
}

/// The source column read for target coordinate `(x, y)`.
spec fn src_x(kind: MapKind, ox: int, sw: int, sh: int, x: int, y: int) -> int {
    match kind {
        MapKind::Window => ox + x,
        MapKind::Grow => x,
        MapKind::MirrorRows => x,
        MapKind::MirrorCols => sw - 1 - x,
        MapKind::HalfTurn => sw - 1 - x,
        MapKind::QuarterLeft => sw - 1 - y,
        MapKind::QuarterRight => y,
        MapKind::HalveWidth => 2 * x,
        MapKind::DoubleWidth => x / 2,
    }
}

/// The source row read for target coordinate `(x, y)`.
spec fn src_y(kind: MapKind, oy: int, sw: int, sh: int, x: int, y: int) -> int {
    match kind {
        MapKind::Window => oy + y,
        MapKind::Grow => y,
        MapKind::MirrorRows => sh - 1 - y,
        MapKind::MirrorCols => y,
        MapKind::HalfTurn => sh - 1 - y,
        MapKind::QuarterLeft => x,
        MapKind::QuarterRight => sh - 1 - x,
        MapKind::HalveWidth => y,
        MapKind::DoubleWidth => y,
    }
}

/// The target dimensions each map kind allows for a `sw` by `sh` source.
spec fn dims_ok(kind: MapKind, sw: int, sh: int, nw: int, nh: int) -> bool {
    match kind {
        MapKind::Window => true,
        MapKind::Grow => true,
        MapKind::MirrorRows => nw == sw && nh == sh,
        MapKind::MirrorCols => nw == sw && nh == sh,
        MapKind::HalfTurn => nw == sw && nh == sh,
        MapKind::QuarterLeft => nw == sh && nh == sw,
        MapKind::QuarterRight => nw == sh && nh == sw,
        MapKind::HalveWidth => nw == (sw + 1) / 2 && nh == sh,
        MapKind::DoubleWidth => nw == 2 * sw && nh == sh,
    }
}

/// Coordinates filled earlier in a row-major build lie below the write
/// index of the current cell.
proof fn lemma_rm_prefix(w: int, x: int, y: int, i: int, j: int)
    requires
        0 <= i < w,
        0 <= j,
        0 <= x,
        j < y || (j == y && i < x),
    ensures
        0 <= j * w + i < y * w + x,
{
    assert(0 <= j * w + i < y * w + x) by (nonlinear_arith)
        requires
            0 <= i < w,
            0 <= j,
            0 <= x,
            j < y || (j == y && i < x),
    ;
}

/// Builds a fresh buffer of dimensions `nw` by `nh` whose cell at
/// `(x, y)` is the source cell at the kind's source coordinate, or the
/// empty cell where that coordinate falls outside the source.
fn rebuild(a: &CellBuffer, nw: usize, nh: usize, kind: MapKind, ox: i64, oy: i64) -> (b:
    CellBuffer)
    requires
        a.wf(),
        nw <= MAX_DIM,
        nh <= MAX_DIM,
        dims_ok(kind, a.width as int, a.height as int, nw as int, nh as int),
        -0x100000000 <= ox <= 0x100000000,
        -0x100000000 <= oy <= 0x100000000,
    ensures
        b.wf(),
        b.width == nw,
        b.height == nh,
        forall|x: int, y: int|
            b.in_bounds(x, y) ==> cell_matches(
                *a,
                src_x(kind, ox as int, a.width as int, a.height as int, x, y),
                src_y(kind, oy as int, a.width as int, a.height as int, x, y),
                b.char_at(x, y),
                b.attr_at(x, y),
            ),
{
    let sw = a.width;
    let sh = a.height;
    let ghost swi = sw as int;
    let ghost shi = sh as int;
    let mut chars: Vec<u32> = Vec::new();
    let mut attrs: Vec<Attr> = Vec::new();
    let mut y: usize = 0;
    while y < nh
        invariant
            a.wf(),
            sw == a.width,
            sh == a.height,
            swi == sw as int,
            shi == sh as int,
            nw <= MAX_DIM,
            nh <= MAX_DIM,
            dims_ok(kind, swi, shi, nw as int, nh as int),
            -0x100000000 <= ox <= 0x100000000,
            -0x100000000 <= oy <= 0x100000000,
            y <= nh,
            chars.len() == y * nw,
            attrs.len() == y * nw,
            forall|ii: int, jj: int|
                0 <= ii < nw && 0 <= jj < y ==> cell_matches(
                    *a,
                    src_x(kind, ox as int, swi, shi, ii, jj),
                    src_y(kind, oy as int, swi, shi, ii, jj),
                    seq_at(chars@, nw as int, ii, jj),
                    seq_at(attrs@, nw as int, ii, jj),
                ),
        decreases nh - y,
    {
        let mut x: usize = 0;
        while x < nw
            invariant
                a.wf(),
                sw == a.width,
                sh == a.height,
                swi == sw as int,
                shi == sh as int,
                nw <= MAX_DIM,
                nh <= MAX_DIM,
                dims_ok(kind, swi, shi, nw as int, nh as int),
                -0x100000000 <= ox <= 0x100000000,
                -0x100000000 <= oy <= 0x100000000,
                y < nh,
                x <= nw,
                chars.len() == y * nw + x,
                attrs.len() == y * nw + x,
                forall|ii: int, jj: int|
                    0 <= ii < nw && (0 <= jj < y || (jj == y && 0 <= ii < x)) ==> cell_matches(
                        *a,
                        src_x(kind, ox as int, swi, shi, ii, jj),
                        src_y(kind, oy as int, swi, shi, ii, jj),
                        seq_at(chars@, nw as int, ii, jj),
                        seq_at(attrs@, nw as int, ii, jj),
                    ),
            decreases nw - x,
        {
            let (in_src, sx, sy): (bool, usize, usize) = match kind {
                MapKind::Window => {
                    let wx: i64 = ox + x as i64;
                    let wy: i64 = oy + y as i64;
                    if 0 <= wx && wx < sw as i64 && 0 <= wy && wy < sh as i64 {
                        (true, wx as usize, wy as usize)
                    } else {
                        (false, 0, 0)
                    }
                },
                MapKind::Grow => (x < sw && y < sh, x, y),
                MapKind::MirrorRows => (true, x, sh - 1 - y),
                MapKind::MirrorCols => (true, sw - 1 - x, y),
                MapKind::HalfTurn => (true, sw - 1 - x, sh - 1 - y),
                MapKind::QuarterLeft => (true, sw - 1 - y, x),
                MapKind::QuarterRight => (true, y, sh - 1 - x),
                MapKind::HalveWidth => (true, 2 * x, y),
                MapKind::DoubleWidth => (true, x / 2, y),
            };
            let (ch, at) = if in_src {
                a.get(sx, sy)
            } else {
                (EMPTY_CHAR, Attr::default())
            };
            let ghost pre_chars = chars@;
            let ghost pre_attrs = attrs@;
            chars.push(ch);
            attrs.push(at);
            proof {
                assert(seq_at(chars@, nw as int, x as int, y as int) == ch);
                assert(seq_at(attrs@, nw as int, x as int, y as int) == at);
                assert(in_src ==> a.in_bounds(sx as int, sy as int) && sx as int == src_x(
                    kind,
                    ox as int,
                    swi,
                    shi,
                    x as int,
                    y as int,
                ) && sy as int == src_y(kind, oy as int, swi, shi, x as int, y as int));
                assert(!in_src ==> !a.in_bounds(
                    src_x(kind, ox as int, swi, shi, x as int, y as int),
                    src_y(kind, oy as int, swi, shi, x as int, y as int),
                ));
                assert forall|ii: int, jj: int|
                    0 <= ii < nw && (0 <= jj < y || (jj == y && 0 <= ii < x + 1)) implies
                    cell_matches(
                    *a,
                    src_x(kind, ox as int, swi, shi, ii, jj),
                    src_y(kind, oy as int, swi, shi, ii, jj),
                    seq_at(chars@, nw as int, ii, jj),
                    seq_at(attrs@, nw as int, ii, jj),
                ) by {
                    if jj < y || ii < x {
                        lemma_rm_prefix(nw as int, x as int, y as int, ii, jj);
                        assert(seq_at(chars@, nw as int, ii, jj) == seq_at(
                            pre_chars,
                            nw as int,
                            ii,
                            jj,
                        ));
                        assert(seq_at(attrs@, nw as int, ii, jj) == seq_at(
                            pre_attrs,
                            nw as int,
                            ii,
                            jj,
                        ));
                    } else {
                        assert(ii == x && jj == y);
                        assert(seq_at(chars@, nw as int, ii, jj) == ch);
                        assert(seq_at(attrs@, nw as int, ii, jj) == at);
                    }
                }
            }
            x += 1;
        }
        proof {
            assert((y + 1) * (nw as int) == y * (nw as int) + nw) by (nonlinear_arith);
        }
        y += 1;
    }
    let b = CellBuffer { width: nw, height: nh, chars, attrs };
    proof {
        assert(b.chars.len() == nh * nw);
        assert(nh * nw == nw * nh) by (nonlinear_arith);
        assert forall|x: int, y: int| b.in_bounds(x, y) implies cell_matches(
            *a,
            src_x(kind, ox as int, swi, shi, x, y),
            src_y(kind, oy as int, swi, shi, x, y),
            b.char_at(x, y),
            b.attr_at(x, y),
        ) by {
            lemma_idx_bounds(b, x, y);
            assert(b.char_at(x, y) == seq_at(b.chars@, nw as int, x, y));
            assert(b.attr_at(x, y) == seq_at(b.attrs@, nw as int, x, y));
        }
    }
    b
}

} // verus!
