//! Dirty-rectangle tracking: an ordered set of rectangles covering every
//! cell changed since the last flush.

use vstd::prelude::*;

use crate::Rectangle;

verus! {

/// True when `(x, y)` lies inside the rectangle.
pub open spec fn rect_covers(r: Rectangle, x: int, y: int) -> bool {
    r.x <= x < r.x + r.width && r.y <= y < r.y + r.height
}

/// True when some rectangle of the sequence covers `(x, y)`.
pub open spec fn rects_cover(s: Seq<Rectangle>, x: int, y: int) -> bool {
    exists|k: int| 0 <= k < s.len() && rect_covers(s[k], x, y)
}

/// True when every cell of `inner` lies inside `outer`.
pub open spec fn rect_inside(inner: Rectangle, outer: Rectangle) -> bool {
    forall|x: int, y: int| rect_covers(inner, x, y) ==> rect_covers(outer, x, y)
}

/// The recorded set of changed regions.  While disabled, writes to the
/// set are ignored and the whole buffer must be treated as dirty.
#[derive(Clone)]
pub struct DirtyRects {
    pub enabled: bool,
    pub rects: Vec<Rectangle>,
}

impl DirtyRects {
    /// A fresh tracker, enabled, holding the given initial rectangle
    /// (normally the whole buffer, which is dirty until first rendered).
    pub fn create(initial: Rectangle) -> (d: DirtyRects)
        ensures
            d.enabled,
            d.rects@ == seq![initial],
    {
        let mut rects: Vec<Rectangle> = Vec::new();
        rects.push(initial);
        DirtyRects { enabled: true, rects }
    }

    /// Records a rectangle; ignored while disabled.
    pub fn add(&mut self, r: Rectangle)
        ensures
            final(self).enabled == old(self).enabled,
            old(self).enabled ==> final(self).rects@ == old(self).rects@.push(r),
            !old(self).enabled ==> final(self).rects@ == old(self).rects@,
    {
        if self.enabled {
            self.rects.push(r);
        }
    }

    /// Forgets every recorded rectangle.
    pub fn clear(&mut self)
        ensures
            final(self).enabled == old(self).enabled,
            final(self).rects@ == Seq::<Rectangle>::empty(),
    {
        self.rects = Vec::new();
    }

    /// Drops every recorded rectangle that lies entirely inside `r`; a
    /// conservative removal that never uncovers a cell outside `r`.
    pub fn remove_inside(&mut self, r: Rectangle)
        ensures
            final(self).enabled == old(self).enabled,
            final(self).rects@ == old(self).rects@.filter(|q: Rectangle| !rect_inside(q, r)),
    {
        let mut kept: Vec<Rectangle> = Vec::new();
        let n = self.rects.len();
        let mut i: usize = 0;
        while i < n
            invariant
                i <= n,
                n == self.rects.len(),
                kept@ == self.rects@.take(i as int).filter(|q: Rectangle| !rect_inside(q, r)),
            decreases n - i,
        {
            let q = self.rects[i];
            let keep = !rect_inside_exec(&q, &r);
            if keep {
                kept.push(q);
            }
            proof {
                let t1 = self.rects@.take(i + 1);
                let t0 = self.rects@.take(i as int);
                assert(t1.drop_last() =~= t0);
                assert(t1.last() == self.rects@[i as int]);
                reveal_with_fuel(Seq::filter, 2);
            }
            i += 1;
        }
        proof {
            assert(self.rects@.take(n as int) =~= self.rects@);
        }
        self.rects = kept;
    }
}

/// Decides containment of one rectangle in another.
pub fn rect_inside_exec(inner: &Rectangle, outer: &Rectangle) -> (b: bool)
    ensures
        b == rect_inside(*inner, *outer),
{
    if inner.width == 0 || inner.height == 0 {
        proof {
            assert forall|x: int, y: int| rect_covers(*inner, x, y) implies rect_covers(
                *outer,
                x,
                y,
            ) by {}
        }
        return true;
    }
    let ix0 = inner.x as i128;
    let iy0 = inner.y as i128;
    let ix1 = inner.x as i128 + inner.width as i128;
    let iy1 = inner.y as i128 + inner.height as i128;
    let ox0 = outer.x as i128;
    let oy0 = outer.y as i128;
    let ox1 = outer.x as i128 + outer.width as i128;
    let oy1 = outer.y as i128 + outer.height as i128;
    let b = ox0 <= ix0 && ix1 <= ox1 && oy0 <= iy0 && iy1 <= oy1;
    proof {
        if b {
            assert forall|x: int, y: int| rect_covers(*inner, x, y) implies rect_covers(
                *outer,
                x,
                y,
            ) by {}
        } else {
            assert(rect_covers(*inner, ix0 as int, iy0 as int) && !rect_covers(
                *outer,
                ix0 as int,
                iy0 as int,
            ) || rect_covers(*inner, ix1 - 1 as int, iy1 - 1 as int) && !rect_covers(
                *outer,
                ix1 - 1 as int,
                iy1 - 1 as int,
            ) || !rect_inside(*inner, *outer));
        }
    }
    b
}

} // verus!
