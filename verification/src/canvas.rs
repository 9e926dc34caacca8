//! The canvas: a multi-frame cell grid with a current attribute, cursor,
//! handle offset and dirty-rectangle tracking.

use vstd::prelude::*;

use crate::Boundaries;
use crate::MAX_DIM;
use crate::Point;
use crate::Rectangle;
use crate::attr::Attr;
use crate::buffer::CellBuffer;
use crate::buffer::EMPTY_CHAR;
use crate::dirty::DirtyRects;
use crate::dirty::rect_covers;
use crate::error::Error;
use vstd::string::StrSliceExecFns;

verus! {

/// One animation layer: a named cell buffer.
#[derive(Clone)]
pub struct Frame {
    pub name: String,
    pub buf: CellBuffer,
}

/// A drawing surface made of one or more frames, of which exactly one is
/// active and receives all reads and writes.
#[derive(Clone)]
pub struct Canvas {
    pub frames: Vec<Frame>,
    pub active: usize,
    pub dirty: DirtyRects,
    pub cursor_x: i32,
    pub cursor_y: i32,
    pub handle_x: i32,
    pub handle_y: i32,
    pub cur_attr: Attr,
    pub in_use: bool,
}

/// The larger of two mathematical integers.
pub open spec fn imax(a: int, b: int) -> int {
    if a >= b {
        a
    } else {
        b
    }
}

/// The smaller of two mathematical integers.
pub open spec fn imin(a: int, b: int) -> int {
    if a <= b {
        a
    } else {
        b
    }
}

/// The intersection of the half-open box `[x0, x1) x [y0, y1)` with the
/// `w` by `h` grid, as a rectangle anchored inside the grid.
pub open spec fn spec_clamp(w: int, h: int, x0: int, y0: int, x1: int, y1: int) -> Rectangle {
    Rectangle {
        x: imax(x0, 0) as i32,
        y: imax(y0, 0) as i32,
        width: (imin(x1, w) - imax(x0, 0)) as usize,
        height: (imin(y1, h) - imax(y0, 0)) as usize,
    }
}

/// True when the box `[x0, x1) x [y0, y1)` meets the `w` by `h` grid.
pub open spec fn spec_intersects(w: int, h: int, x0: int, y0: int, x1: int, y1: int) -> bool {
    imax(x0, 0) < imin(x1, w) && imax(y0, 0) < imin(y1, h)
}

/// Intersects a half-open box with the `w` by `h` grid; `None` when the
/// intersection is empty.
pub fn clamp_rect(w: usize, h: usize, x0: i128, y0: i128, x1: i128, y1: i128) -> (r: Option<
    Rectangle,
>)
    requires
        w <= MAX_DIM,
        h <= MAX_DIM,
    ensures
        r is Some <==> spec_intersects(w as int, h as int, x0 as int, y0 as int, x1 as int, y1 as int),
        r matches Some(c) ==> c == spec_clamp(
            w as int,
            h as int,
            x0 as int,
            y0 as int,
            x1 as int,
            y1 as int,
        ),
        r matches Some(c) ==> forall|i: int, j: int|
            rect_covers(c, i, j) <==> (x0 <= i < x1 && y0 <= j < y1 && 0 <= i < w && 0 <= j < h),
{
    let a0: i128 = if x0 > 0 {
        x0
    } else {
        0
    };
    let b0: i128 = if y0 > 0 {
        y0
    } else {
        0
    };
    let a1: i128 = if x1 < w as i128 {
        x1
    } else {
        w as i128
    };
    let b1: i128 = if y1 < h as i128 {
        y1
    } else {
        h as i128
    };
    if a0 < a1 && b0 < b1 {
        Some(
            Rectangle {
                x: a0 as i32,
                y: b0 as i32,
                width: (a1 - a0) as usize,
                height: (b1 - b0) as usize,
            },
        )
    } else {
        None
    }
}

impl Canvas {
    /// At least one frame, a valid active index, and every frame's
    /// buffer well formed and at least one cell wide and tall (the
    /// constructor and every resizing operation keep it so).
    pub open spec fn wf(self) -> bool {
        &&& self.frames.len() >= 1
        &&& (self.active as int) < self.frames.len()
        &&& forall|k: int|
            0 <= k < self.frames.len() ==> (#[trigger] self.frames@[k]).buf.wf()
                && self.frames@[k].buf.width >= 1 && self.frames@[k].buf.height >= 1
    }

    /// The buffer of the active frame.
    pub open spec fn buf(self) -> CellBuffer {
        self.frames@[self.active as int].buf
    }

    pub open spec fn in_bounds(self, x: int, y: int) -> bool {
        self.buf().in_bounds(x, y)
    }

    pub open spec fn char_at(self, x: int, y: int) -> u32 {
        self.buf().char_at(x, y)
    }

    pub open spec fn attr_at(self, x: int, y: int) -> Attr {
        self.buf().attr_at(x, y)
    }

    /// Same frame count, same active index, every inactive frame
    /// untouched, and the active frame's name untouched.
    pub open spec fn frames_like(self, o: Canvas) -> bool {
        &&& self.frames.len() == o.frames.len()
        &&& self.active == o.active
        &&& forall|k: int|
            0 <= k < self.frames.len() && k != self.active ==> self.frames@[k] == o.frames@[k]
        &&& self.frames@[self.active as int].name == o.frames@[o.active as int].name
    }

    /// Cursor, handle, current attribute and the in-use flag untouched.
    pub open spec fn config_like(self, o: Canvas) -> bool {
        &&& self.cursor_x == o.cursor_x
        &&& self.cursor_y == o.cursor_y
        &&& self.handle_x == o.handle_x
        &&& self.handle_y == o.handle_y
        &&& self.cur_attr == o.cur_attr
        &&& self.in_use == o.in_use
    }

    /// The dirty tracker untouched.
    pub open spec fn dirty_like(self, o: Canvas) -> bool {
        self.dirty.enabled == o.dirty.enabled && self.dirty.rects@ == o.dirty.rects@
    }

    /// A fresh canvas.  Fails with `InvalidSize` when either dimension is
    /// zero or exceeds `MAX_DIM`; otherwise yields a one-frame canvas of
    /// empty cells with dirty tracking enabled and the whole surface
    /// marked dirty.
    pub fn new(boundaries: &Boundaries) -> (r: Result<Canvas, Error>)
        ensures
            r is Ok <==> (1 <= boundaries.width <= MAX_DIM && 1 <= boundaries.height <= MAX_DIM),
            r matches Err(e) ==> e == Error::InvalidSize,
            r matches Ok(c) ==> {
                &&& c.wf()
                &&& c.buf().width == boundaries.width
                &&& c.buf().height == boundaries.height
                &&& c.buf().all_cells(EMPTY_CHAR, crate::attr::spec_default_attr())
                &&& c.frames.len() == 1
                &&& c.active == 0
                &&& c.cursor_x == 0 && c.cursor_y == 0
                &&& c.handle_x == 0 && c.handle_y == 0
                &&& c.cur_attr@ == crate::attr::spec_default_attr()
                &&& !c.in_use
                &&& c.dirty.enabled
                &&& c.dirty.rects@ == seq![
                    Rectangle {
                        x: 0,
                        y: 0,
                        width: boundaries.width,
                        height: boundaries.height,
                    },
                ]
            },
    {
        let width = boundaries.width;
        let height = boundaries.height;
        if width == 0 || height == 0 || width > MAX_DIM || height > MAX_DIM {
            return Err(Error::InvalidSize);
        }
        let buf = CellBuffer::create(width, height);
        let frame = Frame { name: String::new(), buf };
        let mut frames: Vec<Frame> = Vec::new();
        frames.push(frame);
        let dirty = DirtyRects::create(Rectangle { x: 0, y: 0, width, height });
        Ok(
            Canvas {
                frames,
                active: 0,
                dirty,
                cursor_x: 0,
                cursor_y: 0,
                handle_x: 0,
                handle_y: 0,
                cur_attr: Attr::default(),
                in_use: false,
            },
        )
    }

    /// The width of the active frame.
    pub fn width(&self) -> (r: usize)
        requires
            self.wf(),
        ensures
            r == self.buf().width,
    {
        self.frames[self.active].buf.width
    }

    /// The height of the active frame.
    pub fn height(&self) -> (r: usize)
        requires
            self.wf(),
        ensures
            r == self.buf().height,
    {
        self.frames[self.active].buf.height
    }

    /// Width and height together.
    pub fn size(&self) -> (r: Boundaries)
        requires
            self.wf(),
        ensures
            r.width == self.buf().width,
            r.height == self.buf().height,
    {
        Boundaries { width: self.width(), height: self.height() }
    }

    /// The character plane of the active frame, row-major.
    pub fn chars(&self) -> (r: &Vec<u32>)
        requires
            self.wf(),
        ensures
            r@ == self.buf().chars@,
    {
        &self.frames[self.active].buf.chars
    }

    /// The attribute plane of the active frame, row-major.
    pub fn attrs(&self) -> (r: &Vec<Attr>)
        requires
            self.wf(),
        ensures
            r@ == self.buf().attrs@,
    {
        &self.frames[self.active].buf.attrs
    }

    /// Moves the cursor; any coordinates are accepted.
    pub fn gotoxy(&mut self, point: &Point)
        ensures
            final(self).cursor_x == point.x,
            final(self).cursor_y == point.y,
            final(self).frames == old(self).frames,
            final(self).active == old(self).active,
            final(self).dirty_like(*old(self)),
            final(self).handle_x == old(self).handle_x,
            final(self).handle_y == old(self).handle_y,
            final(self).cur_attr == old(self).cur_attr,
            final(self).in_use == old(self).in_use,
    {
        self.cursor_x = point.x;
        self.cursor_y = point.y;
    }

    /// The cursor column, clamped to non-negative.
    pub fn wherex(&self) -> (r: i32)
        ensures
            r == imax(self.cursor_x as int, 0),
    {
        if self.cursor_x >= 0 {
            self.cursor_x
        } else {
            0
        }
    }

    /// The cursor row, clamped to non-negative.
    pub fn wherey(&self) -> (r: i32)
        ensures
            r == imax(self.cursor_y as int, 0),
    {
        if self.cursor_y >= 0 {
            self.cursor_y
        } else {
            0
        }
    }

    /// Moves the handle, the origin used to place this canvas in blits.
    pub fn set_handle(&mut self, point: Point)
        ensures
            final(self).handle_x == point.x,
            final(self).handle_y == point.y,
            final(self).frames == old(self).frames,
            final(self).active == old(self).active,
            final(self).dirty_like(*old(self)),
            final(self).cursor_x == old(self).cursor_x,
            final(self).cursor_y == old(self).cursor_y,
            final(self).cur_attr == old(self).cur_attr,
            final(self).in_use == old(self).in_use,
    {
        self.handle_x = point.x;
        self.handle_y = point.y;
    }

    pub fn get_handle_x(&self) -> (r: i32)
        ensures
            r == self.handle_x,
    {
        self.handle_x
    }

    pub fn get_handle_y(&self) -> (r: i32)
        ensures
            r == self.handle_y,
    {
        self.handle_y
    }

    pub fn get_hande(&self) -> (r: Point)
        ensures
            r.x == self.handle_x,
            r.y == self.handle_y,
    {
        Point { x: self.handle_x, y: self.handle_y }
    }

    /// Writes one character at `point` with the current attribute and
    /// returns its display width.  Out-of-bounds points are a silent
    /// no-op; the written cell is recorded as dirty.
    pub fn put_char(&mut self, point: &Point, ch: u32) -> (r: usize)
        requires
            old(self).wf(),
        ensures
            final(self).wf(),
            final(self).frames_like(*old(self)),
            final(self).config_like(*old(self)),
            final(self).buf().same_dims(old(self).buf()),
            r == spec_char_width(ch),
            old(self).in_bounds(point.x as int, point.y as int) ==> {
                &&& final(self).char_at(point.x as int, point.y as int) == ch
                &&& final(self).attr_at(point.x as int, point.y as int) == old(self).cur_attr
            },
            forall|i: int, j: int|
                old(self).in_bounds(i, j) && (i != point.x || j != point.y) ==> {
                    &&& final(self).char_at(i, j) == old(self).char_at(i, j)
                    &&& final(self).attr_at(i, j) == old(self).attr_at(i, j)
                },
            !old(self).in_bounds(point.x as int, point.y as int) ==> final(self).buf() == old(self).buf() && final(self).dirty_like(*old(self)),
            final(self).dirty.enabled == old(self).dirty.enabled,
            old(self).in_bounds(point.x as int, point.y as int) && old(self).dirty.enabled
                ==> final(self).dirty.rects@ == old(self).dirty.rects@.push(
                Rectangle { x: point.x, y: point.y, width: 1, height: 1 },
            ),
            !old(self).dirty.enabled ==> final(self).dirty.rects@ == old(self).dirty.rects@,
    {
        let r = char_width(ch);
        if point.x >= 0 && point.y >= 0 {
            let x = point.x as usize;
            let y = point.y as usize;
            let fi = self.active;
            if x < self.frames[fi].buf.width && y < self.frames[fi].buf.height {
                let a = self.cur_attr;
                let fr = &mut self.frames[fi];
                fr.buf.set(x, y, ch, a);
                self.dirty.add(Rectangle { x: point.x, y: point.y, width: 1, height: 1 });
            }
        }
        r
    }

    /// Reads the character at `point`; out-of-bounds points read as the
    /// empty character.
    pub fn get_char(&self, point: &Point) -> (r: u32)
        requires
            self.wf(),
        ensures
            self.in_bounds(point.x as int, point.y as int) ==> r == self.char_at(
                point.x as int,
                point.y as int,
            ),
            !self.in_bounds(point.x as int, point.y as int) ==> r == EMPTY_CHAR,
    {
        if point.x >= 0 && point.y >= 0 {
            let c = self.frames[self.active].buf.get(point.x as usize, point.y as usize);
            c.0
        } else {
            EMPTY_CHAR
        }
    }

    /// Reads the attribute at `point`; out-of-bounds points read as the
    /// default attribute.
    pub fn get_attr(&self, point: &Point) -> (r: Attr)
        requires
            self.wf(),
        ensures
            self.in_bounds(point.x as int, point.y as int) ==> r == self.attr_at(
                point.x as int,
                point.y as int,
            ),
            !self.in_bounds(point.x as int, point.y as int) ==> r@
                == crate::attr::spec_default_attr(),
    {
        if point.x >= 0 && point.y >= 0 {
            let c = self.frames[self.active].buf.get(point.x as usize, point.y as usize);
            c.1
        } else {
            Attr::default()
        }
    }

    /// Replaces the current drawing attribute.
    pub fn set_attr(&mut self, attr: Attr)
        ensures
            final(self).cur_attr == attr,
            final(self).frames == old(self).frames,
            final(self).active == old(self).active,
            final(self).dirty_like(*old(self)),
            final(self).cursor_x == old(self).cursor_x,
            final(self).cursor_y == old(self).cursor_y,
            final(self).handle_x == old(self).handle_x,
            final(self).handle_y == old(self).handle_y,
            final(self).in_use == old(self).in_use,
    {
        self.cur_attr = attr;
    }

    /// Clears in the current drawing attribute every bit set in `attr`.
    pub fn unset_attr(&mut self, attr: Attr)
        ensures
            final(self).cur_attr@ == old(self).cur_attr@ & !attr@,
            final(self).frames == old(self).frames,
            final(self).active == old(self).active,
            final(self).dirty_like(*old(self)),
            final(self).cursor_x == old(self).cursor_x,
            final(self).cursor_y == old(self).cursor_y,
            final(self).handle_x == old(self).handle_x,
            final(self).handle_y == old(self).handle_y,
            final(self).in_use == old(self).in_use,
    {
        self.cur_attr = Attr::new(self.cur_attr.value() & !attr.value());
    }

    /// Toggles in the current drawing attribute every bit set in `attr`.
    pub fn toggle_attr(&mut self, attr: Attr)
        ensures
            final(self).cur_attr@ == old(self).cur_attr@ ^ attr@,
            final(self).frames == old(self).frames,
            final(self).active == old(self).active,
            final(self).dirty_like(*old(self)),
            final(self).cursor_x == old(self).cursor_x,
            final(self).cursor_y == old(self).cursor_y,
            final(self).handle_x == old(self).handle_x,
            final(self).handle_y == old(self).handle_y,
            final(self).in_use == old(self).in_use,
    {
        self.cur_attr = Attr::new(self.cur_attr.value() ^ attr.value());
    }

    /// Writes an attribute at `point` without touching the character
    /// there or the current drawing attribute.
    pub fn put_attr(&mut self, point: &Point, attr: Attr)
        requires
            old(self).wf(),
        ensures
            final(self).wf(),
            final(self).frames_like(*old(self)),
            final(self).config_like(*old(self)),
            final(self).buf().same_dims(old(self).buf()),
            old(self).in_bounds(point.x as int, point.y as int) ==> {
                &&& final(self).char_at(point.x as int, point.y as int) == old(self).char_at(
                    point.x as int,
                    point.y as int,
                )
                &&& final(self).attr_at(point.x as int, point.y as int) == attr
            },
            forall|i: int, j: int|
                old(self).in_bounds(i, j) && (i != point.x || j != point.y) ==> {
                    &&& final(self).char_at(i, j) == old(self).char_at(i, j)
                    &&& final(self).attr_at(i, j) == old(self).attr_at(i, j)
                },
            !old(self).in_bounds(point.x as int, point.y as int) ==> final(self).buf() == old(self).buf() && final(self).dirty_like(*old(self)),
            final(self).dirty.enabled == old(self).dirty.enabled,
            old(self).in_bounds(point.x as int, point.y as int) && old(self).dirty.enabled
                ==> final(self).dirty.rects@ == old(self).dirty.rects@.push(
                Rectangle { x: point.x, y: point.y, width: 1, height: 1 },
            ),
            !old(self).dirty.enabled ==> final(self).dirty.rects@ == old(self).dirty.rects@,
    {
        if point.x >= 0 && point.y >= 0 {
            let x = point.x as usize;
            let y = point.y as usize;
            let fi = self.active;
            if x < self.frames[fi].buf.width && y < self.frames[fi].buf.height {
                let fr = &mut self.frames[fi];
                let c = fr.buf.get(x, y);
                fr.buf.set(x, y, c.0, attr);
                self.dirty.add(Rectangle { x: point.x, y: point.y, width: 1, height: 1 });
            }
        }
    }

    /// Sets the current colours from ANSI codes, keeping the style bits.
    /// Fails with `InvalidColor` when either code names no colour.
    pub fn set_color_ansi(&mut self, fg: u8, bg: u8) -> (r: Result<(), Error>)
        ensures
            r is Ok <==> (crate::Color::valid_code(fg as u32) && crate::Color::valid_code(
                bg as u32,
            )),
            r matches Err(e) ==> e == Error::InvalidColor && *final(self) == *old(self),
            r is Ok ==> final(self).cur_attr@ == (old(self).cur_attr@ & 0xf) | ((fg as u32) << 4)
                | ((bg as u32) << 18),
            final(self).frames == old(self).frames,
            final(self).active == old(self).active,
            final(self).dirty_like(*old(self)),
            final(self).cursor_x == old(self).cursor_x,
            final(self).cursor_y == old(self).cursor_y,
            final(self).handle_x == old(self).handle_x,
            final(self).handle_y == old(self).handle_y,
            final(self).in_use == old(self).in_use,
    {
        let fg_ok = fg <= 0x10 || fg == 0x20;
        let bg_ok = bg <= 0x10 || bg == 0x20;
        if !fg_ok || !bg_ok {
            return Err(Error::InvalidColor);
        }
        self.cur_attr = Attr::new(
            (self.cur_attr.value() & 0xf) | ((fg as u32) << 4) | ((bg as u32) << 18),
        );
        Ok(())
    }

    /// Sets the current colours from 12-bit RGB values (high bits beyond
    /// 12 are ignored), keeping the style bits.
    pub fn set_color_argb(&mut self, fg: u16, bg: u16)
        ensures
            final(self).cur_attr@ == (old(self).cur_attr@ & 0xf) | ((0x2000u32 | ((fg as u32)
                & 0xfff)) << 4) | ((0x2000u32 | ((bg as u32) & 0xfff)) << 18),
            final(self).frames == old(self).frames,
            final(self).active == old(self).active,
            final(self).dirty_like(*old(self)),
            final(self).cursor_x == old(self).cursor_x,
            final(self).cursor_y == old(self).cursor_y,
            final(self).handle_x == old(self).handle_x,
            final(self).handle_y == old(self).handle_y,
            final(self).in_use == old(self).in_use,
    {
        self.cur_attr = Attr::new(
            (self.cur_attr.value() & 0xf) | ((0x2000u32 | ((fg as u32) & 0xfff)) << 4) | ((
            0x2000u32 | ((bg as u32) & 0xfff)) << 18),
        );
    }

    /// Clears the whole active frame to empty characters under the
    /// current attribute and resets the dirty set to the whole surface.
    pub fn clear(&mut self)
        requires
            old(self).wf(),
        ensures
            final(self).wf(),
            final(self).frames_like(*old(self)),
            final(self).config_like(*old(self)),
            final(self).buf().same_dims(old(self).buf()),
            final(self).buf().all_cells(EMPTY_CHAR, old(self).cur_attr@),
            final(self).dirty.enabled == old(self).dirty.enabled,
            old(self).dirty.enabled ==> final(self).dirty.rects@ == seq![
                Rectangle {
                    x: 0,
                    y: 0,
                    width: old(self).buf().width,
                    height: old(self).buf().height,
                },
            ],
            !old(self).dirty.enabled ==> final(self).dirty.rects@ == Seq::<Rectangle>::empty(),
    {
        let a = self.cur_attr;
        let fi = self.active;
        let w = self.frames[fi].buf.width;
        let h = self.frames[fi].buf.height;
        let fr = &mut self.frames[fi];
        fr.buf.fill(EMPTY_CHAR, a);
        self.dirty.clear();
        self.dirty.add(Rectangle { x: 0, y: 0, width: w, height: h });
    }

    /// Marks or releases the canvas as bound to an active output; while
    /// bound, size-changing operations fail with `CanvasInUse`.
    pub fn set_in_use(&mut self, flag: bool)
        ensures
            final(self).in_use == flag,
            final(self).frames == old(self).frames,
            final(self).active == old(self).active,
            final(self).dirty_like(*old(self)),
            final(self).cursor_x == old(self).cursor_x,
            final(self).cursor_y == old(self).cursor_y,
            final(self).handle_x == old(self).handle_x,
            final(self).handle_y == old(self).handle_y,
            final(self).cur_attr == old(self).cur_attr,
    {
        self.in_use = flag;
    }
}

impl Canvas {
    /// Stops tracking changes; the recorded set is left as it is and the
    /// whole buffer must be treated as dirty until tracking resumes.
    pub fn disable_dirty_rect(&mut self)
        ensures
            !final(self).dirty.enabled,
            final(self).dirty.rects@ == old(self).dirty.rects@,
            final(self).frames == old(self).frames,
            final(self).active == old(self).active,
            final(self).config_like(*old(self)),
    {
        self.dirty.enabled = false;
    }

    /// Resumes tracking.  Anything may have changed while tracking was
    /// off, so the whole surface is recorded as dirty; enabling an
    /// already enabled tracker changes nothing.
    pub fn enable_dirty_rect(&mut self) -> (r: Result<(), Error>)
        requires
            old(self).wf(),
        ensures
            r is Ok,
            final(self).dirty.enabled,
            old(self).dirty.enabled ==> final(self).dirty.rects@ == old(self).dirty.rects@,
            !old(self).dirty.enabled ==> final(self).dirty.rects@ == old(self).dirty.rects@.push(
                Rectangle {
                    x: 0,
                    y: 0,
                    width: old(self).buf().width,
                    height: old(self).buf().height,
                },
            ),
            final(self).frames == old(self).frames,
            final(self).active == old(self).active,
            final(self).config_like(*old(self)),
    {
        if !self.dirty.enabled {
            let fi = self.active;
            let w = self.frames[fi].buf.width;
            let h = self.frames[fi].buf.height;
            self.dirty.enabled = true;
            self.dirty.rects.push(Rectangle { x: 0, y: 0, width: w, height: h });
        }
        Ok(())
    }

    /// How many dirty rectangles are recorded.
    pub fn get_dirty_rect_count(&self) -> (r: usize)
        ensures
            r == self.dirty.rects@.len(),
    {
        self.dirty.rects.len()
    }

    /// The recorded rectangle at `index`; fails with `OutOfBounds` when
    /// `index` does not name one.
    pub fn get_dirty_rect(&self, index: i32) -> (r: Result<Rectangle, Error>)
        ensures
            r is Ok <==> 0 <= index < self.dirty.rects@.len(),
            r matches Ok(rect) ==> rect == self.dirty.rects@[index as int],
            r matches Err(e) ==> e == Error::OutOfBounds,
    {
        if index >= 0 && (index as usize) < self.dirty.rects.len() {
            Ok(self.dirty.rects[index as usize])
        } else {
            Err(Error::OutOfBounds)
        }
    }

    /// Records a rectangle as dirty, clamped to the buffer.  Fails with
    /// `OutOfBounds` when the rectangle misses the buffer entirely;
    /// while tracking is disabled a valid rectangle is accepted and
    /// ignored.
    pub fn caca_add_dirty_rect(&mut self, rectangle: &Rectangle) -> (r: Result<(), Error>)
        requires
            old(self).wf(),
        ensures
            r is Ok <==> spec_intersects(
                old(self).buf().width as int,
                old(self).buf().height as int,
                rectangle.x as int,
                rectangle.y as int,
                rectangle.x + rectangle.width,
                rectangle.y + rectangle.height,
            ),
            r matches Err(e) ==> e == Error::OutOfBounds && *final(self) == *old(self),
            final(self).dirty.enabled == old(self).dirty.enabled,
            r is Ok && old(self).dirty.enabled ==> final(self).dirty.rects@ == old(self).dirty.rects@.push(
                spec_clamp(
                    old(self).buf().width as int,
                    old(self).buf().height as int,
                    rectangle.x as int,
                    rectangle.y as int,
                    rectangle.x + rectangle.width,
                    rectangle.y + rectangle.height,
                ),
            ),
            r is Ok && !old(self).dirty.enabled ==> final(self).dirty.rects@ == old(self).dirty.rects@,
            final(self).frames == old(self).frames,
            final(self).active == old(self).active,
            final(self).config_like(*old(self)),
    {
        let fi = self.active;
        let w = self.frames[fi].buf.width;
        let h = self.frames[fi].buf.height;
        let clamped = clamp_rect(
            w,
            h,
            rectangle.x as i128,
            rectangle.y as i128,
            rectangle.x as i128 + rectangle.width as i128,
            rectangle.y as i128 + rectangle.height as i128,
        );
        match clamped {
            Some(c) => {
                self.dirty.add(c);
                Ok(())
            },
            None => Err(Error::OutOfBounds),
        }
    }

    /// Removes from the recorded set every rectangle lying entirely
    /// inside the given one (clamped to the buffer); a conservative
    /// subtraction that never uncovers cells outside it.  Fails with
    /// `OutOfBounds` when the rectangle misses the buffer entirely.
    pub fn remove_dirty_rect(&mut self, rectangle: &Rectangle) -> (r: Result<(), Error>)
        requires
            old(self).wf(),
        ensures
            r is Ok <==> spec_intersects(
                old(self).buf().width as int,
                old(self).buf().height as int,
                rectangle.x as int,
                rectangle.y as int,
                rectangle.x + rectangle.width,
                rectangle.y + rectangle.height,
            ),
            r matches Err(e) ==> e == Error::OutOfBounds && *final(self) == *old(self),
            final(self).dirty.enabled == old(self).dirty.enabled,
            r is Ok ==> final(self).dirty.rects@ == old(self).dirty.rects@.filter(
                (|q: Rectangle|
                    !crate::dirty::rect_inside(
                        q,
                        spec_clamp(
                            old(self).buf().width as int,
                            old(self).buf().height as int,
                            rectangle.x as int,
                            rectangle.y as int,
                            rectangle.x + rectangle.width,
                            rectangle.y + rectangle.height,
                        ),
                    )),
            ),
            final(self).frames == old(self).frames,
            final(self).active == old(self).active,
            final(self).config_like(*old(self)),
    {
        let fi = self.active;
        let w = self.frames[fi].buf.width;
        let h = self.frames[fi].buf.height;
        let clamped = clamp_rect(
            w,
            h,
            rectangle.x as i128,
            rectangle.y as i128,
            rectangle.x as i128 + rectangle.width as i128,
            rectangle.y as i128 + rectangle.height as i128,
        );
        match clamped {
            Some(c) => {
                self.dirty.remove_inside(c);
                Ok(())
            },
            None => Err(Error::OutOfBounds),
        }
    }

    /// Forgets every recorded dirty rectangle.
    pub fn clear_dirty_rect_list(&mut self)
        ensures
            final(self).dirty.enabled == old(self).dirty.enabled,
            final(self).dirty.rects@ == Seq::<Rectangle>::empty(),
            final(self).frames == old(self).frames,
            final(self).active == old(self).active,
            final(self).config_like(*old(self)),
    {
        self.dirty.clear();
    }

    /// How many frames the canvas holds.
    pub fn frame_count(&self) -> (r: usize)
        ensures
            r == self.frames.len(),
    {
        self.frames.len()
    }

    /// The name of the active frame.
    pub fn frame_name(&self) -> (r: String)
        requires
            self.wf(),
        ensures
            r@ == self.frames@[self.active as int].name@,
    {
        self.frames[self.active].name.clone()
    }

    /// Makes the frame at `id` active; fails with `InvalidFrameIndex`
    /// when `id` names no frame.  Frame content is never copied.
    pub fn set_frame(&mut self, id: usize) -> (r: Result<(), Error>)
        requires
            old(self).wf(),
        ensures
            r is Ok <==> id < old(self).frames.len(),
            r matches Err(e) ==> e == Error::InvalidFrameIndex && *final(self) == *old(self),
            r is Ok ==> final(self).active == id,
            final(self).wf(),
            final(self).frames == old(self).frames,
            final(self).dirty_like(*old(self)),
            final(self).cursor_x == old(self).cursor_x,
            final(self).cursor_y == old(self).cursor_y,
            final(self).handle_x == old(self).handle_x,
            final(self).handle_y == old(self).handle_y,
            final(self).cur_attr == old(self).cur_attr,
            final(self).in_use == old(self).in_use,
    {
        if id < self.frames.len() {
            self.active = id;
            Ok(())
        } else {
            Err(Error::InvalidFrameIndex)
        }
    }

    /// Renames the active frame.
    pub fn set_frame_name(&mut self, name: &str) -> (r: Result<(), Error>)
        requires
            old(self).wf(),
        ensures
            r is Ok,
            final(self).wf(),
            final(self).frames.len() == old(self).frames.len(),
            final(self).active == old(self).active,
            forall|k: int|
                0 <= k < final(self).frames.len() && k != final(self).active
                    ==> final(self).frames@[k] == old(self).frames@[k],
            final(self).frames@[final(self).active as int].name@ == name@,
            final(self).buf() == old(self).buf(),
            final(self).dirty_like(*old(self)),
            final(self).config_like(*old(self)),
    {
        let fi = self.active;
        let fr = &mut self.frames[fi];
        fr.name = name.to_owned();
        Ok(())
    }

    /// Creates a new frame before index `id` (appends when `id` is past
    /// the end).  The frame copies the dimensions of the active frame,
    /// not its content: it starts empty and unnamed.  The active frame
    /// stays the same frame.
    pub fn create_frame(&mut self, id: usize) -> (r: Result<(), Error>)
        requires
            old(self).wf(),
            old(self).frames.len() < usize::MAX,
        ensures
            r is Ok,
            final(self).wf(),
            final(self).frames.len() == old(self).frames.len() + 1,
            ({
                let pos = imin(id as int, old(self).frames.len() as int);
                &&& final(self).frames@ == old(self).frames@.insert(
                    pos,
                    final(self).frames@[pos],
                )
                &&& final(self).frames@[pos].buf.same_dims(old(self).buf())
                &&& final(self).frames@[pos].buf.all_cells(
                    EMPTY_CHAR,
                    crate::attr::spec_default_attr(),
                )
                &&& final(self).frames@[pos].name@ == Seq::<char>::empty()
                &&& final(self).active == if pos <= old(self).active {
                    old(self).active + 1
                } else {
                    old(self).active as int
                }
            }),
            final(self).buf() == old(self).buf(),
            final(self).dirty_like(*old(self)),
            final(self).config_like(*old(self)),
    {
        let fi = self.active;
        let w = self.frames[fi].buf.width;
        let h = self.frames[fi].buf.height;
        let pos = if id < self.frames.len() {
            id
        } else {
            self.frames.len()
        };
        let fresh = Frame { name: String::new(), buf: CellBuffer::create(w, h) };
        self.frames.insert(pos, fresh);
        if pos <= self.active {
            self.active = self.active + 1;
        }
        Ok(())
    }

    /// Frees the frame at `id`; fails with `InvalidFrameIndex` when `id`
    /// names no frame or names the last remaining frame.  If the active
    /// frame is freed, frame `0` becomes active.
    pub fn free_frame(&mut self, id: usize) -> (r: Result<(), Error>)
        requires
            old(self).wf(),
        ensures
            r is Ok <==> (id < old(self).frames.len() && old(self).frames.len() > 1),
            r matches Err(e) ==> e == Error::InvalidFrameIndex && *final(self) == *old(self),
            r is Ok ==> {
                &&& final(self).wf()
                &&& final(self).frames@ == old(self).frames@.remove(id as int)
                &&& final(self).active == (if id < old(self).active {
                    old(self).active - 1
                } else if id == old(self).active {
                    0int
                } else {
                    old(self).active as int
                })
            },
            final(self).dirty_like(*old(self)),
            final(self).config_like(*old(self)),
    {
        if id >= self.frames.len() || self.frames.len() == 1 {
            return Err(Error::InvalidFrameIndex);
        }
        self.frames.remove(id);
        if id < self.active {
            self.active = self.active - 1;
        } else if id == self.active {
            self.active = 0;
        }
        Ok(())
    }
}

impl Canvas {
    /// Resizes the active frame, keeping the overlapping region and
    /// clearing newly exposed cells.  Fails with `CanvasInUse` while the
    /// canvas is bound to an output, and with `InvalidSize` when either
    /// dimension is zero or exceeds `MAX_DIM`.  The dirty set is reset to
    /// the whole new surface.
    pub fn set_size(&mut self, boundaries: &Boundaries) -> (r: Result<(), Error>)
        requires
            old(self).wf(),
        ensures
            r is Ok <==> (!old(self).in_use && 1 <= boundaries.width <= MAX_DIM && 1
                <= boundaries.height <= MAX_DIM),
            r == Err::<(), Error>(Error::CanvasInUse) <==> old(self).in_use,
            r matches Err(e) ==> (e == Error::CanvasInUse || e == Error::InvalidSize)
                && *final(self) == *old(self),
            r is Ok ==> {
                &&& final(self).wf()
                &&& final(self).frames_like(*old(self))
                &&& final(self).config_like(*old(self))
                &&& crate::buffer::is_resize_of(
                    final(self).buf(),
                    old(self).buf(),
                    boundaries.width as int,
                    boundaries.height as int,
                )
                &&& final(self).dirty.enabled == old(self).dirty.enabled
                &&& (old(self).dirty.enabled ==> final(self).dirty.rects@ == seq![
                    Rectangle {
                        x: 0,
                        y: 0,
                        width: boundaries.width,
                        height: boundaries.height,
                    },
                ])
                &&& (!old(self).dirty.enabled ==> final(self).dirty.rects@ == Seq::<
                    Rectangle,
                >::empty())
            },
    {
        if self.in_use {
            return Err(Error::CanvasInUse);
        }
        let w = boundaries.width;
        let h = boundaries.height;
        if w == 0 || h == 0 || w > MAX_DIM || h > MAX_DIM {
            return Err(Error::InvalidSize);
        }
        let fi = self.active;
        let fr = &mut self.frames[fi];
        fr.buf.resize(w, h);
        self.dirty.clear();
        self.dirty.add(Rectangle { x: 0, y: 0, width: w, height: h });
        Ok(())
    }

    /// Crops or extends the canvas to the given window: the cell at
    /// `(x, y)` of the window becomes cell `(0, 0)`, cells outside the
    /// old surface are empty.  Fails with `CanvasInUse` while bound to an
    /// output and with `InvalidSize` for a degenerate or oversized
    /// window.  The dirty set is reset to the whole new surface.
    pub fn set_boundaries(&mut self, boundaries: &Rectangle) -> (r: Result<(), Error>)
        requires
            old(self).wf(),
        ensures
            r is Ok <==> (!old(self).in_use && 1 <= boundaries.width <= MAX_DIM && 1
                <= boundaries.height <= MAX_DIM),
            r == Err::<(), Error>(Error::CanvasInUse) <==> old(self).in_use,
            r matches Err(e) ==> (e == Error::CanvasInUse || e == Error::InvalidSize)
                && *final(self) == *old(self),
            r is Ok ==> {
                &&& final(self).wf()
                &&& final(self).frames_like(*old(self))
                &&& final(self).config_like(*old(self))
                &&& crate::buffer::is_window_of(
                    final(self).buf(),
                    old(self).buf(),
                    boundaries.x as int,
                    boundaries.y as int,
                    boundaries.width as int,
                    boundaries.height as int,
                )
                &&& final(self).dirty.enabled == old(self).dirty.enabled
                &&& (old(self).dirty.enabled ==> final(self).dirty.rects@ == seq![
                    Rectangle {
                        x: 0,
                        y: 0,
                        width: boundaries.width,
                        height: boundaries.height,
                    },
                ])
                &&& (!old(self).dirty.enabled ==> final(self).dirty.rects@ == Seq::<
                    Rectangle,
                >::empty())
            },
    {
        if self.in_use {
            return Err(Error::CanvasInUse);
        }
        let w = boundaries.width;
        let h = boundaries.height;
        if w == 0 || h == 0 || w > MAX_DIM || h > MAX_DIM {
            return Err(Error::InvalidSize);
        }
        let fi = self.active;
        let fr = &mut self.frames[fi];
        fr.buf.window(boundaries.x as i64, boundaries.y as i64, w, h);
        self.dirty.clear();
        self.dirty.add(Rectangle { x: 0, y: 0, width: w, height: h });
        Ok(())
    }

    /// Swaps foreground and background colours of every cell of the
    /// active frame.
    pub fn invert(&mut self)
        requires
            old(self).wf(),
        ensures
            final(self).wf(),
            final(self).frames_like(*old(self)),
            final(self).config_like(*old(self)),
            final(self).buf().same_dims(old(self).buf()),
            forall|x: int, y: int|
                old(self).in_bounds(x, y) ==> {
                    &&& final(self).char_at(x, y) == old(self).char_at(x, y)
                    &&& final(self).attr_at(x, y)@ == crate::attr::spec_invert_attr(
                        old(self).attr_at(x, y)@,
                    )
                },
            final(self).dirty.enabled == old(self).dirty.enabled,
            old(self).dirty.enabled ==> final(self).dirty.rects@ == old(self).dirty.rects@.push(
                Rectangle {
                    x: 0,
                    y: 0,
                    width: old(self).buf().width,
                    height: old(self).buf().height,
                },
            ),
            !old(self).dirty.enabled ==> final(self).dirty.rects@ == old(self).dirty.rects@,
    {
        let fi = self.active;
        let w = self.frames[fi].buf.width;
        let h = self.frames[fi].buf.height;
        let fr = &mut self.frames[fi];
        fr.buf.invert();
        self.dirty.add(Rectangle { x: 0, y: 0, width: w, height: h });
    }

    /// Mirrors the rows of the active frame (top becomes bottom).
    pub fn flip(&mut self)
        requires
            old(self).wf(),
        ensures
            final(self).wf(),
            final(self).frames_like(*old(self)),
            final(self).config_like(*old(self)),
            crate::buffer::is_flip_of(final(self).buf(), old(self).buf()),
            final(self).dirty.enabled == old(self).dirty.enabled,
            old(self).dirty.enabled ==> final(self).dirty.rects@ == old(self).dirty.rects@.push(
                Rectangle {
                    x: 0,
                    y: 0,
                    width: old(self).buf().width,
                    height: old(self).buf().height,
                },
            ),
            !old(self).dirty.enabled ==> final(self).dirty.rects@ == old(self).dirty.rects@,
    {
        let fi = self.active;
        let w = self.frames[fi].buf.width;
        let h = self.frames[fi].buf.height;
        let fr = &mut self.frames[fi];
        fr.buf.flip();
        self.dirty.add(Rectangle { x: 0, y: 0, width: w, height: h });
    }

    /// Mirrors the columns of the active frame (left becomes right).
    pub fn flop(&mut self)
        requires
            old(self).wf(),
        ensures
            final(self).wf(),
            final(self).frames_like(*old(self)),
            final(self).config_like(*old(self)),
            crate::buffer::is_flop_of(final(self).buf(), old(self).buf()),
            final(self).dirty.enabled == old(self).dirty.enabled,
            old(self).dirty.enabled ==> final(self).dirty.rects@ == old(self).dirty.rects@.push(
                Rectangle {
                    x: 0,
                    y: 0,
                    width: old(self).buf().width,
                    height: old(self).buf().height,
                },
            ),
            !old(self).dirty.enabled ==> final(self).dirty.rects@ == old(self).dirty.rects@,
    {
        let fi = self.active;
        let w = self.frames[fi].buf.width;
        let h = self.frames[fi].buf.height;
        let fr = &mut self.frames[fi];
        fr.buf.flop();
        self.dirty.add(Rectangle { x: 0, y: 0, width: w, height: h });
    }

    /// Rotates the active frame through 180 degrees.
    pub fn rotate_180(&mut self)
        requires
            old(self).wf(),
        ensures
            final(self).wf(),
            final(self).frames_like(*old(self)),
            final(self).config_like(*old(self)),
            crate::buffer::is_half_turn_of(final(self).buf(), old(self).buf()),
            final(self).dirty.enabled == old(self).dirty.enabled,
            old(self).dirty.enabled ==> final(self).dirty.rects@ == old(self).dirty.rects@.push(
                Rectangle {
                    x: 0,
                    y: 0,
                    width: old(self).buf().width,
                    height: old(self).buf().height,
                },
            ),
            !old(self).dirty.enabled ==> final(self).dirty.rects@ == old(self).dirty.rects@,
    {
        let fi = self.active;
        let w = self.frames[fi].buf.width;
        let h = self.frames[fi].buf.height;
        let fr = &mut self.frames[fi];
        fr.buf.rotate_180();
        self.dirty.add(Rectangle { x: 0, y: 0, width: w, height: h });
    }

    /// Rotates the active frame a quarter turn counter-clockwise; width
    /// and height swap.  Fails with `CanvasInUse` while the canvas is
    /// bound to an output.  The dirty set is reset to the whole new
    /// surface.
    pub fn rotate_left(&mut self) -> (r: Result<(), Error>)
        requires
            old(self).wf(),
        ensures
            r is Ok <==> !old(self).in_use,
            r matches Err(e) ==> e == Error::CanvasInUse && *final(self) == *old(self),
            r is Ok ==> {
                &&& final(self).wf()
                &&& final(self).frames_like(*old(self))
                &&& final(self).config_like(*old(self))
                &&& crate::buffer::is_left_rotation_of(final(self).buf(), old(self).buf())
                &&& final(self).dirty.enabled == old(self).dirty.enabled
                &&& (old(self).dirty.enabled ==> final(self).dirty.rects@ == seq![
                    Rectangle {
                        x: 0,
                        y: 0,
                        width: old(self).buf().height,
                        height: old(self).buf().width,
                    },
                ])
                &&& (!old(self).dirty.enabled ==> final(self).dirty.rects@ == Seq::<
                    Rectangle,
                >::empty())
            },
    {
        if self.in_use {
            return Err(Error::CanvasInUse);
        }
        let fi = self.active;
        let w = self.frames[fi].buf.width;
        let h = self.frames[fi].buf.height;
        let fr = &mut self.frames[fi];
        fr.buf.rotate_left();
        self.dirty.clear();
        self.dirty.add(Rectangle { x: 0, y: 0, width: h, height: w });
        Ok(())
    }

    /// Rotates the active frame a quarter turn clockwise; width and
    /// height swap.  Fails with `CanvasInUse` while the canvas is bound
    /// to an output.  The dirty set is reset to the whole new surface.
    pub fn rotate_right(&mut self) -> (r: Result<(), Error>)
        requires
            old(self).wf(),
        ensures
            r is Ok <==> !old(self).in_use,
            r matches Err(e) ==> e == Error::CanvasInUse && *final(self) == *old(self),
            r is Ok ==> {
                &&& final(self).wf()
                &&& final(self).frames_like(*old(self))
                &&& final(self).config_like(*old(self))
                &&& crate::buffer::is_right_rotation_of(final(self).buf(), old(self).buf())
                &&& final(self).dirty.enabled == old(self).dirty.enabled
                &&& (old(self).dirty.enabled ==> final(self).dirty.rects@ == seq![
                    Rectangle {
                        x: 0,
                        y: 0,
                        width: old(self).buf().height,
                        height: old(self).buf().width,
                    },
                ])
                &&& (!old(self).dirty.enabled ==> final(self).dirty.rects@ == Seq::<
                    Rectangle,
                >::empty())
            },
    {
        if self.in_use {
            return Err(Error::CanvasInUse);
        }
        let fi = self.active;
        let w = self.frames[fi].buf.width;
        let h = self.frames[fi].buf.height;
        let fr = &mut self.frames[fi];
        fr.buf.rotate_right();
        self.dirty.clear();
        self.dirty.add(Rectangle { x: 0, y: 0, width: h, height: w });
        Ok(())
    }

    /// Compresses the active frame to half its width, keeping the left
    /// cell of each column pair.  Fails with `CanvasInUse` while the
    /// canvas is bound to an output.  The dirty set is reset to the
    /// whole new surface.
    pub fn stretch_left(&mut self) -> (r: Result<(), Error>)
        requires
            old(self).wf(),
        ensures
            r is Ok <==> !old(self).in_use,
            r matches Err(e) ==> e == Error::CanvasInUse && *final(self) == *old(self),
            r is Ok ==> {
                &&& final(self).wf()
                &&& final(self).frames_like(*old(self))
                &&& final(self).config_like(*old(self))
                &&& crate::buffer::is_left_stretch_of(final(self).buf(), old(self).buf())
                &&& final(self).dirty.enabled == old(self).dirty.enabled
                &&& (old(self).dirty.enabled ==> final(self).dirty.rects@ == seq![
                    Rectangle {
                        x: 0,
                        y: 0,
                        width: ((old(self).buf().width + 1) / 2) as usize,
                        height: old(self).buf().height,
                    },
                ])
                &&& (!old(self).dirty.enabled ==> final(self).dirty.rects@ == Seq::<
                    Rectangle,
                >::empty())
            },
    {
        if self.in_use {
            return Err(Error::CanvasInUse);
        }
        let fi = self.active;
        let w = self.frames[fi].buf.width;
        let h = self.frames[fi].buf.height;
        let fr = &mut self.frames[fi];
        fr.buf.stretch_left();
        self.dirty.clear();
        self.dirty.add(Rectangle { x: 0, y: 0, width: (w + 1) / 2, height: h });
        Ok(())
    }

    /// Expands the active frame to twice its width, writing each column
    /// twice.  Fails with `CanvasInUse` while the canvas is bound to an
    /// output, and with `InvalidSize` when the doubled width would
    /// exceed `MAX_DIM`.  The dirty set is reset to the whole new
    /// surface.
    pub fn stretch_right(&mut self) -> (r: Result<(), Error>)
        requires
            old(self).wf(),
        ensures
            r is Ok <==> (!old(self).in_use && 2 * old(self).buf().width <= MAX_DIM),
            r == Err::<(), Error>(Error::CanvasInUse) <==> old(self).in_use,
            r matches Err(e) ==> (e == Error::CanvasInUse || e == Error::InvalidSize)
                && *final(self) == *old(self),
            r is Ok ==> {
                &&& final(self).wf()
                &&& final(self).frames_like(*old(self))
                &&& final(self).config_like(*old(self))
                &&& crate::buffer::is_right_stretch_of(final(self).buf(), old(self).buf())
                &&& final(self).dirty.enabled == old(self).dirty.enabled
                &&& (old(self).dirty.enabled ==> final(self).dirty.rects@ == seq![
                    Rectangle {
                        x: 0,
                        y: 0,
                        width: (2 * old(self).buf().width) as usize,
                        height: old(self).buf().height,
                    },
                ])
                &&& (!old(self).dirty.enabled ==> final(self).dirty.rects@ == Seq::<
                    Rectangle,
                >::empty())
            },
    {
        if self.in_use {
            return Err(Error::CanvasInUse);
        }
        let fi = self.active;
        let w = self.frames[fi].buf.width;
        let h = self.frames[fi].buf.height;
        if w > MAX_DIM / 2 {
            return Err(Error::InvalidSize);
        }
        let fr = &mut self.frames[fi];
        fr.buf.stretch_right();
        self.dirty.clear();
        self.dirty.add(Rectangle { x: 0, y: 0, width: 2 * w, height: h });
        Ok(())
    }
}

/// The total display width of the first `k` characters of a string.
pub open spec fn spec_advance(s: Seq<char>, k: int) -> int
    decreases k,
{
    if k <= 0 {
        0
    } else {
        spec_advance(s, k - 1) + spec_char_width(s[k - 1] as u32)
    }
}

/// The total display width of a whole string, saturated at the largest
/// `usize` (the value `put_str` returns).
pub open spec fn spec_advance_sat(s: Seq<char>) -> int {
    let a = spec_advance(s, s.len() as int);
    if a > usize::MAX {
        usize::MAX as int
    } else {
        a
    }
}

/// Later characters start strictly further right: every character
/// advances by at least one column.
pub proof fn lemma_advance_mono(s: Seq<char>, k1: int, k2: int)
    requires
        0 <= k1 < k2 <= s.len(),
    ensures
        spec_advance(s, k1) < spec_advance(s, k2),
    decreases k2,
{
    if k2 == k1 + 1 {
        assert(spec_char_width(s[k2 - 1] as u32) >= 1);
    } else {
        lemma_advance_mono(s, k1, k2 - 1);
        assert(spec_char_width(s[k2 - 1] as u32) >= 1);
    }
}

impl Canvas {
    /// Writes the string's code points left to right starting at
    /// `point`, each under the current attribute, advancing by each
    /// glyph's display width (two columns for full-width characters).
    /// Out-of-bounds cells clip silently; the written span is recorded
    /// as dirty; the returned value is the total advance in columns.
    pub fn put_str(&mut self, point: &Point, s: &str) -> (r: usize)
        requires
            old(self).wf(),
        ensures
            final(self).wf(),
            final(self).frames_like(*old(self)),
            final(self).config_like(*old(self)),
            final(self).buf().same_dims(old(self).buf()),
            r == spec_advance_sat(s@),
            forall|k: int|
                0 <= k < s@.len() && old(self).in_bounds(
                    point.x + spec_advance(s@, k),
                    point.y as int,
                ) ==> final(self).char_at(point.x + spec_advance(s@, k), point.y as int)
                    == s@[k] as u32 && final(self).attr_at(
                    point.x + spec_advance(s@, k),
                    point.y as int,
                ) == old(self).cur_attr,
            forall|i: int, j: int|
                old(self).in_bounds(i, j) && (j != point.y || !(exists|k: int|
                    0 <= k < s@.len() && i == point.x + spec_advance(s@, k))) ==> final(self).char_at(i, j) == old(self).char_at(i, j) && final(self).attr_at(i, j) == old(self).attr_at(i, j),
            dirty_extended(
                *final(self),
                *old(self),
                point.x as int,
                point.y as int,
                point.x + r,
                point.y + 1,
            ),
    {
        let n = s.unicode_len();
        let fi = self.active;
        let a = self.cur_attr;
        let w = self.frames[fi].buf.width;
        let h = self.frames[fi].buf.height;
        let ghost b0 = self.frames@[fi as int].buf;
        let ghost name0 = self.frames@[fi as int].name;
        let fr = &mut self.frames[fi];
        let mut adv: u128 = 0;
        let mut k: usize = 0;
        while k < n
            invariant
                fr.buf.wf(),
                b0.wf(),
                fr.buf.same_dims(b0),
                w == b0.width,
                h == b0.height,
                w <= MAX_DIM,
                h <= MAX_DIM,
                n == s@.len(),
                k <= n,
                fr.name == name0,
                adv == spec_advance(s@, k as int),
                adv <= 2 * (k as u128),
                forall|m: int|
                    0 <= m < k && b0.in_bounds(point.x + spec_advance(s@, m), point.y as int)
                        ==> fr.buf.char_at(point.x + spec_advance(s@, m), point.y as int)
                        == s@[m] as u32 && fr.buf.attr_at(
                        point.x + spec_advance(s@, m),
                        point.y as int,
                    ) == a,
                forall|i: int, j: int|
                    b0.in_bounds(i, j) && (j != point.y || !(exists|m: int|
                        0 <= m < k && i == point.x + spec_advance(s@, m))) ==> fr.buf.char_at(
                        i,
                        j,
                    ) == b0.char_at(i, j) && fr.buf.attr_at(i, j) == b0.attr_at(i, j),
            decreases n - k,
        {
            let c = s.get_char(k);
            let cw = char_width(c as u32);
            let wx: i128 = point.x as i128 + adv as i128;
            let ghost pre = fr.buf;
            if 0 <= wx && wx < w as i128 && 0 <= point.y && (point.y as usize) < h {
                fr.buf.set(wx as usize, point.y as usize, c as u32, a);
            }
            proof {
                assert(spec_advance(s@, k + 1) == spec_advance(s@, k as int) + spec_char_width(
                    s@[k as int] as u32,
                ));
                assert forall|m: int|
                    0 <= m < k + 1 && b0.in_bounds(point.x + spec_advance(s@, m), point.y as int)
                        implies fr.buf.char_at(point.x + spec_advance(s@, m), point.y as int)
                    == s@[m] as u32 && fr.buf.attr_at(
                    point.x + spec_advance(s@, m),
                    point.y as int,
                ) == a by {
                    if m < k {
                        lemma_advance_mono(s@, m, k as int);
                    }
                }
                assert forall|i: int, j: int|
                    b0.in_bounds(i, j) && (j != point.y || !(exists|m: int|
                        0 <= m < k + 1 && i == point.x + spec_advance(s@, m))) implies
                    fr.buf.char_at(i, j) == b0.char_at(i, j) && fr.buf.attr_at(i, j)
                    == b0.attr_at(i, j) by {
                    if j == point.y && i == point.x + spec_advance(s@, k as int) {
                        assert(exists|m: int| 0 <= m < k + 1 && i == point.x + spec_advance(s@, m));
                    }
                }
            }
            adv = adv + cw as u128;
            k += 1;
        }
        let total: usize = if adv > usize::MAX as u128 {
            usize::MAX
        } else {
            adv as usize
        };
        let clamped = clamp_rect(
            w,
            h,
            point.x as i128,
            point.y as i128,
            point.x as i128 + total as i128,
            point.y as i128 + 1,
        );
        match clamped {
            Some(c) => {
                self.dirty.add(c);
            },
            None => {},
        }
        total
    }
}

/// The dirty set of `n` extends the dirty set of `o` by the box
/// `[x0, x1) x [y0, y1)` clamped to the buffer, or is unchanged when
/// tracking is off or the box misses the buffer.
pub open spec fn dirty_extended(n: Canvas, o: Canvas, x0: int, y0: int, x1: int, y1: int) -> bool {
    let w = o.buf().width as int;
    let h = o.buf().height as int;
    &&& n.dirty.enabled == o.dirty.enabled
    &&& (o.dirty.enabled && spec_intersects(w, h, x0, y0, x1, y1) ==> n.dirty.rects@
        == o.dirty.rects@.push(spec_clamp(w, h, x0, y0, x1, y1)))
    &&& (!(o.dirty.enabled && spec_intersects(w, h, x0, y0, x1, y1)) ==> n.dirty.rects@
        == o.dirty.rects@)
}

/// Whether a mask lets the source cell at `(si, sj)` through: a missing
/// mask lets everything through, otherwise the mask cell must hold a
/// non-empty character.
pub open spec fn blit_pass(mask: Option<&Canvas>, si: int, sj: int) -> bool {
    match mask {
        None => true,
        Some(m) => m.char_at(si, sj) != EMPTY_CHAR,
    }
}

impl Canvas {
    /// Composites `src` onto this canvas.  The source's top-left corner
    /// lands at `point` translated by the source's handle; a mask, when
    /// given, must have exactly the source's dimensions (else
    /// `InvalidMaskSize`) and suppresses every source cell whose mask
    /// cell is empty.  The blit rectangle is recorded as dirty.
    pub fn blit(&mut self, point: &Point, src: &Canvas, mask: Option<&Canvas>) -> (r: Result<
        (),
        Error,
    >)
        requires
            old(self).wf(),
            src.wf(),
            mask matches Some(m) ==> m.wf(),
        ensures
            r is Ok <==> (mask matches Some(m) ==> (m.buf().width == src.buf().width
                && m.buf().height == src.buf().height)),
            r matches Err(e) ==> e == Error::InvalidMaskSize && *final(self) == *old(self),
            final(self).wf(),
            r is Ok ==> {
                let ox = point.x - src.handle_x;
                let oy = point.y - src.handle_y;
                &&& final(self).frames_like(*old(self))
                &&& final(self).config_like(*old(self))
                &&& final(self).buf().same_dims(old(self).buf())
                &&& forall|x: int, y: int|
                    old(self).in_bounds(x, y) ==> {
                        if src.buf().in_bounds(x - ox, y - oy) && blit_pass(mask, x - ox, y - oy) {
                            final(self).char_at(x, y) == src.char_at(x - ox, y - oy) && final(self).attr_at(x, y) == src.attr_at(x - ox, y - oy)
                        } else {
                            final(self).char_at(x, y) == old(self).char_at(x, y) && final(self).attr_at(x, y) == old(self).attr_at(x, y)
                        }
                    }
                &&& dirty_extended(
                    *final(self),
                    *old(self),
                    ox as int,
                    oy as int,
                    ox + src.buf().width,
                    oy + src.buf().height,
                )
            },
    {
        let sw = src.width();
        let sh = src.height();
        match mask {
            Some(m) => {
                if m.width() != sw || m.height() != sh {
                    return Err(Error::InvalidMaskSize);
                }
            },
            None => {},
        }
        let ox: i64 = point.x as i64 - src.handle_x as i64;
        let oy: i64 = point.y as i64 - src.handle_y as i64;
        let fi = self.active;
        let w = self.frames[fi].buf.width;
        let h = self.frames[fi].buf.height;
        let ghost b0 = self.frames@[fi as int].buf;
        let fr = &mut self.frames[fi];
        let mut sj: usize = 0;
        while sj < sh
            invariant
                fr.buf.wf(),
                b0.wf(),
                src.wf(),
                mask matches Some(m) ==> m.wf() && m.buf().width == sw && m.buf().height == sh,
                fr.buf.same_dims(b0),
                w == b0.width,
                h == b0.height,
                sw == src.buf().width,
                sh == src.buf().height,
                sj <= sh,
                ox == point.x - src.handle_x,
                oy == point.y - src.handle_y,
                fr.name == old(self).frames@[fi as int].name,
                forall|x: int, y: int|
                    b0.in_bounds(x, y) ==> {
                        if src.buf().in_bounds(x - ox, y - oy) && y - oy < sj && blit_pass(
                            mask,
                            x - ox,
                            y - oy,
                        ) {
                            fr.buf.char_at(x, y) == src.char_at(x - ox, y - oy) && fr.buf.attr_at(
                                x,
                                y,
                            ) == src.attr_at(x - ox, y - oy)
                        } else {
                            fr.buf.char_at(x, y) == b0.char_at(x, y) && fr.buf.attr_at(x, y)
                                == b0.attr_at(x, y)
                        }
                    },
            decreases sh - sj,
        {
            let mut si: usize = 0;
            while si < sw
                invariant
                    fr.buf.wf(),
                    b0.wf(),
                    src.wf(),
                    mask matches Some(m) ==> m.wf() && m.buf().width == sw && m.buf().height
                        == sh,
                    fr.buf.same_dims(b0),
                    w == b0.width,
                    h == b0.height,
                    sw == src.buf().width,
                    sh == src.buf().height,
                    sj < sh,
                    si <= sw,
                    ox == point.x - src.handle_x,
                    oy == point.y - src.handle_y,
                    fr.name == old(self).frames@[fi as int].name,
                    forall|x: int, y: int|
                        b0.in_bounds(x, y) ==> {
                            if src.buf().in_bounds(x - ox, y - oy) && (y - oy < sj || (y - oy
                                == sj && x - ox < si)) && blit_pass(mask, x - ox, y - oy) {
                                fr.buf.char_at(x, y) == src.char_at(x - ox, y - oy)
                                    && fr.buf.attr_at(x, y) == src.attr_at(x - ox, y - oy)
                            } else {
                                fr.buf.char_at(x, y) == b0.char_at(x, y) && fr.buf.attr_at(x, y)
                                    == b0.attr_at(x, y)
                            }
                        },
                decreases sw - si,
            {
                let pass = match mask {
                    Some(m) => {
                        let c = m.frames[m.active].buf.get(si, sj);
                        c.0 != EMPTY_CHAR
                    },
                    None => true,
                };
                if pass {
                    let dx: i64 = ox + si as i64;
                    let dy: i64 = oy + sj as i64;
                    if 0 <= dx && dx < w as i64 && 0 <= dy && dy < h as i64 {
                        let c = src.frames[src.active].buf.get(si, sj);
                        fr.buf.set(dx as usize, dy as usize, c.0, c.1);
                    }
                }
                si += 1;
            }
            sj += 1;
        }
        let clamped = clamp_rect(
            w,
            h,
            ox as i128,
            oy as i128,
            ox as i128 + sw as i128,
            oy as i128 + sh as i128,
        );
        match clamped {
            Some(c) => {
                self.dirty.add(c);
            },
            None => {},
        }
        Ok(())
    }
}

/// The display width in columns of a code point: `2` for the common
/// East-Asian full-width ranges, `1` otherwise.
pub open spec fn spec_char_width(ch: u32) -> usize {
    if (0x1100 <= ch && ch <= 0x115f) || (0x2e80 <= ch && ch <= 0xa4cf) || (0xac00 <= ch && ch
        <= 0xd7a3) || (0xf900 <= ch && ch <= 0xfaff) || (0xfe30 <= ch && ch <= 0xfe4f) || (0xff00
        <= ch && ch <= 0xff60) || (0xffe0 <= ch && ch <= 0xffe6) || (0x20000 <= ch && ch
        <= 0x2fffd) || (0x30000 <= ch && ch <= 0x3fffd) {
        2
    } else {
        1
    }
}

/// Computes the display width of a code point.
#[verifier::when_used_as_spec(spec_char_width)]
pub fn char_width(ch: u32) -> (r: usize)
    ensures
        r == spec_char_width(ch),
{
    if (0x1100 <= ch && ch <= 0x115f) || (0x2e80 <= ch && ch <= 0xa4cf) || (0xac00 <= ch && ch
        <= 0xd7a3) || (0xf900 <= ch && ch <= 0xfaff) || (0xfe30 <= ch && ch <= 0xfe4f) || (0xff00
        <= ch && ch <= 0xff60) || (0xffe0 <= ch && ch <= 0xffe6) || (0x20000 <= ch && ch
        <= 0x2fffd) || (0x30000 <= ch && ch <= 0x3fffd) {
        2
    } else {
        1
    }
}

} // verus!
