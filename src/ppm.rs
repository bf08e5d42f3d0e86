use vstd::prelude::*;

verus! {

/// What an `Img` holds, as mathematical values: a `width` x `height` grid of
/// counters stored row by row, and the running extremes of every value
/// written into it.
pub struct ImgView {
    pub height: int,
    pub width: int,
    pub maximum: int,
    pub minimum: int,
    pub pixels: Seq<i64>,
}

/// The largest value a counter can reach; an increment stops there.
pub open spec fn counter_limit() -> int {
    i64::MAX as int
}

pub open spec fn max_int(a: int, b: int) -> int {
    if a >= b {
        a
    } else {
        b
    }
}

pub open spec fn min_int(a: int, b: int) -> int {
    if a <= b {
        a
    } else {
        b
    }
}

impl ImgView {
    pub open spec fn wf(self) -> bool {
        &&& 0 <= self.height
        &&& 0 <= self.width
        &&& self.pixels.len() == self.height * self.width
        &&& self.height * self.width <= usize::MAX
    }

    pub open spec fn in_bounds(self, x: int, y: int) -> bool {
        0 <= x < self.width && 0 <= y < self.height
    }

    /// Position of the counter of pixel `(x, y)` in the row-major grid.
    pub open spec fn index_of(self, x: int, y: int) -> int {
        y * self.width + x
    }

    pub open spec fn at(self, x: int, y: int) -> int {
        self.pixels[self.index_of(x, y)] as int
    }

    /// A fresh grid: every counter zero, running maximum 1 and running minimum 1000.
    pub open spec fn fresh(height: int, width: int) -> ImgView {
        ImgView {
            height,
            width,
            maximum: 1,
            minimum: 1000,
            pixels: Seq::new((height * width) as nat, |i: int| 0i64),
        }
    }

    /// The counter of `(x, y)` overwritten with `val`; nothing changes off the grid.
    pub open spec fn set(self, x: int, y: int, val: i64) -> ImgView {
        if self.in_bounds(x, y) {
            ImgView {
                maximum: max_int(self.maximum, val as int),
                minimum: min_int(self.minimum, val as int),
                pixels: self.pixels.update(self.index_of(x, y), val),
                ..self
            }
        } else {
            self
        }
    }

    /// The value that an increment gives a counter that holds `v`.
    pub open spec fn bumped(v: i64) -> i64 {
        if (v as int) < counter_limit() {
            (v + 1) as i64
        } else {
            v
        }
    }

    /// The counter of `(x, y)` raised by one; nothing changes off the grid.
    pub open spec fn incr(self, x: int, y: int) -> ImgView {
        if self.in_bounds(x, y) {
            let nv = Self::bumped(self.pixels[self.index_of(x, y)]);
            ImgView {
                maximum: max_int(self.maximum, nv as int),
                minimum: min_int(self.minimum, nv as int),
                pixels: self.pixels.update(self.index_of(x, y), nv),
                ..self
            }
        } else {
            self
        }
    }
}

/// A single color channel: a two dimensional grid of integer brightness
/// counters. Three of them, in the order red, green, blue, make an image.
#[derive(Clone)]
pub struct Img {
    height: i64,
    width: i64,
    maximum: i64,
    minimum: i64,
    pixels: Vec<i64>,
}

impl View for Img {
    type V = ImgView;

    closed spec fn view(&self) -> ImgView {
        ImgView {
            height: self.height as int,
            width: self.width as int,
            maximum: self.maximum as int,
            minimum: self.minimum as int,
            pixels: self.pixels@,
        }
    }
}

pub proof fn lemma_index_in_grid(x: int, y: int, w: int, h: int)
    requires
        0 <= x < w,
        0 <= y < h,
    ensures
        0 <= y * w + x < h * w,
        y < h * w,
        x < h * w,
        w <= h * w,
        h <= h * w,
{
    assert(h <= h * w && w <= h * w) by (nonlinear_arith)
        requires
            1 <= h,
            1 <= w,
    ;
    assert(0 <= y * w) by (nonlinear_arith)
        requires
            0 <= y,
            0 <= w,
    ;
    assert(y * w + w <= h * w) by (nonlinear_arith)
        requires
            y + 1 <= h,
            0 <= w,
    ;
}

/// Distinct pixels of a grid have distinct counters.
pub proof fn lemma_index_injective(x1: int, y1: int, x2: int, y2: int, w: int)
    requires
        0 <= x1 < w,
        0 <= x2 < w,
        0 <= y1,
        0 <= y2,
        y1 * w + x1 == y2 * w + x2,
    ensures
        x1 == x2,
        y1 == y2,
{
    if y1 < y2 {
        assert(y1 * w + w <= y2 * w) by (nonlinear_arith)
            requires
                y1 + 1 <= y2,
                0 <= w,
        ;
    } else if y2 < y1 {
        assert(y2 * w + w <= y1 * w) by (nonlinear_arith)
            requires
                y2 + 1 <= y1,
                0 <= w,
        ;
    }
}

/// An increment or an overwrite keeps a grid well formed, and of its size.
pub proof fn lemma_update_keeps_wf(v: ImgView, x: int, y: int, val: i64)
    requires
        v.wf(),
    ensures
        v.incr(x, y).wf(),
        v.incr(x, y).height == v.height,
        v.incr(x, y).width == v.width,
        v.set(x, y, val).wf(),
        v.set(x, y, val).height == v.height,
        v.set(x, y, val).width == v.width,
{
    if v.in_bounds(x, y) {
        lemma_index_in_grid(x, y, v.width, v.height);
    }
}

impl Img {
    pub open spec fn wf(&self) -> bool {
        self@.wf()
    }

    /// A grid of `h` rows of `w` counters, all zero.
    pub fn new(h: i64, w: i64) -> (r: Img)
        requires
            0 <= h,
            0 <= w,
            h * w <= usize::MAX,
        ensures
            r.wf(),
            r@ == ImgView::fresh(h as int, w as int),
    {
        let n: usize = if h == 0 || w == 0 {
            assert(h * w == 0) by (nonlinear_arith)
                requires
                    h == 0 || w == 0,
            ;
            0
        } else {
            proof {
                lemma_index_in_grid(0, 0, w as int, h as int);
            }
            (h as usize) * (w as usize)
        };
        let mut pixels: Vec<i64> = Vec::with_capacity(n);
        let mut i: usize = 0;
        while i < n
            invariant
                i <= n,
                pixels@.len() == i,
                forall|j: int| 0 <= j < i ==> pixels@[j] == 0,
            decreases n - i,
        {
            pixels.push(0);
            i = i + 1;
        }
        let r = Img { height: h, width: w, maximum: 1, minimum: 1000, pixels };
        assert(r@.pixels =~= ImgView::fresh(h as int, w as int).pixels);
        r
    }

    pub fn height(&self) -> (r: i64)
        ensures
            r as int == self@.height,
    {
        self.height
    }

    pub fn width(&self) -> (r: i64)
        ensures
            r as int == self@.width,
    {
        self.width
    }

    /// The largest value that any counter has held, and at least 1.
    pub fn maximum(&self) -> (r: i64)
        ensures
            r as int == self@.maximum,
    {
        self.maximum
    }

    /// The smallest value written into any counter, and at most 1000.
    pub fn minimum(&self) -> (r: i64)
        ensures
            r as int == self@.minimum,
    {
        self.minimum
    }

    fn index(&self, x: i64, y: i64) -> (r: usize)
        requires
            self.wf(),
            self@.in_bounds(x as int, y as int),
        ensures
            r as int == self@.index_of(x as int, y as int),
            r < self@.pixels.len(),
    {
        proof {
            lemma_index_in_grid(x as int, y as int, self.width as int, self.height as int);
        }
        (y as usize) * (self.width as usize) + (x as usize)
    }

    /// All counters, row by row.
    pub fn pixels(&self) -> (r: &Vec<i64>)
        ensures
            r@ == self@.pixels,
    {
        &self.pixels
    }

    /// The raw count of pixel `(x, y)`.
    pub fn px(&self, x: i64, y: i64) -> (r: i64)
        requires
            self.wf(),
            self@.in_bounds(x as int, y as int),
        ensures
            r as int == self@.at(x as int, y as int),
    {
        self.pixels[self.index(x, y)]
    }

    /// Overwrites the counter of `(x, y)` with `val`; a pixel off the grid is ignored.
    pub fn set_px(&mut self, x: i64, y: i64, val: i64)
        requires
            old(self).wf(),
        ensures
            final(self).wf(),
            final(self)@ == old(self)@.set(x as int, y as int, val),
    {
        if x < self.width && x >= 0 {
            if y < self.height && y >= 0 {
                if val > self.maximum {
                    self.maximum = val;
                }
                if val < self.minimum {
                    self.minimum = val;
                }
                let i = self.index(x, y);
                self.pixels.set(i, val);
            }
        }
    }

    /// Raises the counter of `(x, y)` by one, keeping the running maximum and
    /// minimum; a pixel off the grid is ignored, and a counter at `i64::MAX` stays there.
    pub fn incr_px(&mut self, x: i64, y: i64)
        requires
            old(self).wf(),
        ensures
            final(self).wf(),
            final(self)@ == old(self)@.incr(x as int, y as int),
    {
        if x < self.width && x >= 0 {
            if y < self.height && y >= 0 {
                let i = self.index(x, y);
                let mut px = self.pixels[i];
                if px < i64::MAX {
                    px = px + 1;
                }
                if px > self.maximum {
                    self.maximum = px;
                }
                if px < self.minimum {
                    self.minimum = px;
                }
                self.pixels.set(i, px);
            }
        }
    }
}

} // verus!
