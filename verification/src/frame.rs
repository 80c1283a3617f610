//! Where the elements of a strided view lie in the buffer under it.
use vstd::prelude::*;

verus! {

/// The geometry of a two-dimensional strided view: the offset of element
/// `(0, 0)`, the lengths of the two axes, and the step in elements from one
/// index to the next along each axis. A step may be negative or zero.
#[derive(Clone, Copy, Debug, PartialEq, Eq, Structural)]
pub struct Frame {
    pub start: usize,
    pub d0: usize,
    pub d1: usize,
    pub s0: isize,
    pub s1: isize,
}

impl Frame {
    /// `(i, j)` is an index of the view.
    pub open spec fn holds(self, i: int, j: int) -> bool {
        0 <= i < self.d0 && 0 <= j < self.d1
    }

    /// Where element `(i, j)` lies in the buffer.
    pub open spec fn offset(self, i: int, j: int) -> int {
        self.start + i * self.s0 + j * self.s1
    }

    /// Every element lies inside a buffer of `len` elements.
    pub open spec fn fits(self, len: nat) -> bool {
        forall|i: int, j: int| #[trigger] self.holds(i, j) ==> 0 <= self.offset(i, j) < len
    }

    /// The view has no element.
    pub open spec fn empty(self) -> bool {
        self.d0 == 0 || self.d1 == 0
    }

    /// The lengths of the two axes.
    pub open spec fn shape(self) -> (usize, usize) {
        (self.d0, self.d1)
    }

    /// The steps along the two axes.
    pub open spec fn steps(self) -> (isize, isize) {
        (self.s0, self.s1)
    }

    /// The same elements with the two axes exchanged.
    pub open spec fn swapped(self) -> Frame {
        Frame { start: self.start, d0: self.d1, d1: self.d0, s0: self.s1, s1: self.s0 }
    }

    /// The elements follow each other without gaps, the second index running
    /// fastest. The step along an axis of length one is not looked at, and an
    /// empty view passes.
    pub open spec fn standard(self) -> bool {
        self.empty() || ((self.d1 == 1 || self.s1 == 1) && (self.d0 == 1 || self.s0 == self.d1))
    }

    /// Place `k` of the buffer holds an element of the view.
    pub open spec fn covers(self, k: int) -> bool {
        exists|i: int, j: int| #[trigger] self.holds(i, j) && self.offset(i, j) == k
    }

    /// No two indices share an offset.
    pub open spec fn distinct(self) -> bool {
        forall|i: int, j: int, p: int, q: int|
            #![trigger self.holds(i, j), self.holds(p, q)]
            self.holds(i, j) && self.holds(p, q) && self.offset(i, j) == self.offset(p, q) ==> i
                == p && j == q
    }

    /// The size of a step.
    pub open spec fn span(s: isize) -> int {
        if s < 0 {
            -s
        } else {
            s as int
        }
    }

    /// A test that keeps the elements apart: along each axis that has more
    /// than one index the step is not zero, and where both have, the larger
    /// step clears the whole extent of the other axis. A view without
    /// elements passes.
    pub open spec fn separated(self) -> bool {
        self.empty() || {
            &&& self.d0 == 1 || Self::span(self.s0) >= 1
            &&& self.d1 == 1 || Self::span(self.s1) >= 1
            &&& self.d0 == 1 || self.d1 == 1 || Self::span(self.s1) > (self.d0 - 1) * Self::span(
                self.s0,
            ) || Self::span(self.s0) > (self.d1 - 1) * Self::span(self.s1)
        }
    }

    /// The unit-stride geometry of `d0` by `d1` elements in row-major order
    /// from the start of a buffer: steps `(d1, 1)`, or both zero when there
    /// is no element.
    pub open spec fn row_major(d0: usize, d1: usize) -> Frame
        recommends
            d0 * d1 <= isize::MAX,
    {
        if d0 == 0 || d1 == 0 {
            Frame { start: 0, d0, d1, s0: 0, s1: 0 }
        } else {
            Frame { start: 0, d0, d1, s0: d1 as isize, s1: 1 }
        }
    }

    /// The unit-stride geometry of `d0` by `d1` elements in column-major
    /// order from the start of a buffer: steps `(1, d0)`, or both zero when
    /// there is no element.
    pub open spec fn col_major(d0: usize, d1: usize) -> Frame
        recommends
            d0 * d1 <= isize::MAX,
    {
        Frame::row_major(d1, d0).swapped()
    }

    /// The smallest of the four corner offsets of a view that has elements.
    pub open spec fn low(self) -> int {
        self.start + (if self.s0 < 0 { (self.d0 - 1) * self.s0 } else { 0 })
            + (if self.s1 < 0 { (self.d1 - 1) * self.s1 } else { 0 })
    }

    /// The largest of the four corner offsets of a view that has elements.
    pub open spec fn high(self) -> int {
        self.start + (if self.s0 > 0 { (self.d0 - 1) * self.s0 } else { 0 })
            + (if self.s1 > 0 { (self.d1 - 1) * self.s1 } else { 0 })
    }

    /// The row-major geometry of `d0` by `d1` elements, as a value.
    pub fn contiguous(d0: usize, d1: usize) -> (r: Frame)
        requires
            d0 * d1 <= isize::MAX,
        ensures
            r == Frame::row_major(d0, d1),
    {
        if d0 == 0 || d1 == 0 {
            Frame { start: 0, d0, d1, s0: 0, s1: 0 }
        } else {
            assert(d1 <= d0 * d1) by (nonlinear_arith)
                requires
                    d0 >= 1,
            ;
            Frame { start: 0, d0, d1, s0: d1 as isize, s1: 1 }
        }
    }

    /// The exchange of axes, as a value.
    pub fn swap(self) -> (r: Frame)
        ensures
            r == self.swapped(),
    {
        Frame { start: self.start, d0: self.d1, d1: self.d0, s0: self.s1, s1: self.s0 }
    }

    /// Whether the elements lie in row-major order without gaps.
    pub fn is_standard(self) -> (r: bool)
        ensures
            r == self.standard(),
    {
        if self.d0 == 0 || self.d1 == 0 {
            return true;
        }
        if self.d1 != 1 && self.s1 != 1 {
            return false;
        }
        if self.d0 == 1 {
            return true;
        }
        self.s0 >= 0 && self.s0 as usize == self.d1
    }

    /// Whether the steps keep the elements apart.
    pub fn is_separated(self) -> (r: bool)
        ensures
            r == self.separated(),
    {
        if self.d0 == 0 || self.d1 == 0 {
            return true;
        }
        let a0: i128 = if self.s0 < 0 {
            -(self.s0 as i128)
        } else {
            self.s0 as i128
        };
        let a1: i128 = if self.s1 < 0 {
            -(self.s1 as i128)
        } else {
            self.s1 as i128
        };
        if self.d0 != 1 && a0 == 0 {
            return false;
        }
        if self.d1 != 1 && a1 == 0 {
            return false;
        }
        if self.d0 == 1 || self.d1 == 1 {
            return true;
        }
        let last0: i128 = (self.d0 - 1) as i128;
        let last1: i128 = (self.d1 - 1) as i128;
        proof {
            lemma_product_bound(last0 as int, a0 as int - 1);
            lemma_product_bound(last1 as int, a1 as int - 1);
            assert(last0 * a0 == last0 * (a0 - 1) + last0) by (nonlinear_arith);
            assert(last1 * a1 == last1 * (a1 - 1) + last1) by (nonlinear_arith);
        }
        a1 > last0 * a0 || a0 > last1 * a1
    }

    /// Whether every element lies inside a buffer of `len` elements.
    pub fn check(self, len: usize) -> (r: bool)
        ensures
            r == self.fits(len as nat),
    {
        if self.d0 == 0 || self.d1 == 0 {
            return true;
        }
        let last0: i128 = (self.d0 - 1) as i128;
        let last1: i128 = (self.d1 - 1) as i128;
        let s0: i128 = self.s0 as i128;
        let s1: i128 = self.s1 as i128;
        let n: i128 = len as i128;
        let base: i128 = self.start as i128;
        proof {
            lemma_product_bound(last0 as int, s0 as int);
            lemma_product_bound(last1 as int, s1 as int);
            self.lemma_corners(len as nat);
        }
        let p0: i128 = last0 * s0;
        let p1: i128 = last1 * s1;
        if base + p0 < 0 || base + p0 >= n {
            return false;
        }
        if base + p1 < 0 || base + p1 >= n {
            return false;
        }
        let low: i128 = base + (if p0 < 0 { p0 } else { 0 }) + (if p1 < 0 { p1 } else { 0 });
        let high: i128 = base + (if p0 > 0 { p0 } else { 0 }) + (if p1 > 0 { p1 } else { 0 });
        proof {
            lemma_sign_of_product(last0 as int, s0 as int);
            lemma_sign_of_product(last1 as int, s1 as int);
            if 0 <= low && high < n {
                self.lemma_fits_between(len as nat);
            }
        }
        0 <= low && high < n
    }

    /// The stretch of memory that a view of this shape and these strides
    /// reaches over: how many elements below element `(0, 0)` it begins, and
    /// how many elements it is long. A view placed that far into a buffer of
    /// that length fits it, and no shorter buffer would do. There is no
    /// answer if the stretch is longer than can be counted.
    pub fn reach(shape: (usize, usize), strides: (isize, isize)) -> (r: Option<(usize, usize)>)
        ensures
            ({
                let f = Frame { start: 0, d0: shape.0, d1: shape.1, s0: strides.0, s1: strides.1 };
                &&& r is None <==> !f.empty() && f.high() - f.low() + 1 > usize::MAX
                &&& r matches Some(p) ==> {
                    &&& (Frame { start: p.0, ..f }).fits(p.1 as nat)
                    &&& f.empty() ==> p.0 == 0 && p.1 == 0
                    &&& !f.empty() ==> p.0 == -f.low() && p.1 == f.high() - f.low() + 1
                }
            }),
    {
        if shape.0 == 0 || shape.1 == 0 {
            return Some((0, 0));
        }
        let ghost f = Frame { start: 0, d0: shape.0, d1: shape.1, s0: strides.0, s1: strides.1 };
        let last0: i128 = (shape.0 - 1) as i128;
        let last1: i128 = (shape.1 - 1) as i128;
        let s0: i128 = strides.0 as i128;
        let s1: i128 = strides.1 as i128;
        let most: i128 = usize::MAX as i128;
        proof {
            lemma_product_bound(last0 as int, s0 as int);
            lemma_product_bound(last1 as int, s1 as int);
            lemma_sign_of_product(last0 as int, s0 as int);
            lemma_sign_of_product(last1 as int, s1 as int);
        }
        let p0: i128 = last0 * s0;
        let p1: i128 = last1 * s1;
        if p0 < -most || p0 > most || p1 < -most || p1 > most {
            return None;
        }
        let below: i128 = (if p0 < 0 { -p0 } else { 0 }) + (if p1 < 0 { -p1 } else { 0 });
        let above: i128 = (if p0 > 0 { p0 } else { 0 }) + (if p1 > 0 { p1 } else { 0 });
        if below + above + 1 > most {
            return None;
        }
        proof {
            let placed = Frame { start: below as usize, ..f };
            placed.lemma_fits_between((below + above + 1) as nat);
        }
        Some((below as usize, (below + above + 1) as usize))
    }

    /// The offset of element `(i, j)` of a view that fits a buffer of `len`
    /// elements.
    pub fn index(self, i: usize, j: usize, len: usize) -> (r: usize)
        requires
            self.fits(len as nat),
            self.holds(i as int, j as int),
        ensures
            r == self.offset(i as int, j as int),
            r < len,
    {
        proof {
            lemma_product_bound(i as int, self.s0 as int);
            lemma_product_bound(j as int, self.s1 as int);
        }
        let p0: i128 = (i as i128) * (self.s0 as i128);
        let p1: i128 = (j as i128) * (self.s1 as i128);
        let at: i128 = self.start as i128 + p0 + p1;
        at as usize
    }

    /// What holds of the row-major geometry: element `(i, j)` is the
    /// `i * d1 + j`-th of the buffer, all of them lie in the first `d0 * d1`
    /// places, each in one of its own, in standard order.
    pub proof fn lemma_row_major(d0: usize, d1: usize)
        requires
            d0 * d1 <= isize::MAX,
        ensures
            Frame::row_major(d0, d1).fits((d0 * d1) as nat),
            Frame::row_major(d0, d1).separated(),
            Frame::row_major(d0, d1).standard(),
            forall|i: int, j: int| #[trigger]
                Frame::row_major(d0, d1).holds(i, j) ==> Frame::row_major(d0, d1).offset(i, j)
                    == i * d1 + j,
    {
        let f = Frame::row_major(d0, d1);
        if d0 != 0 && d1 != 0 {
            assert(d1 <= d0 * d1) by (nonlinear_arith)
                requires
                    d0 >= 1,
            ;
            assert((d1 - 1) * 1 == d1 - 1);
            assert forall|i: int, j: int| #[trigger] f.holds(i, j) implies f.offset(i, j) == i
                * d1 + j && 0 <= f.offset(i, j) < d0 * d1 by {
                assert(0 <= i * d1 && i * d1 + d1 <= d0 * d1) by (nonlinear_arith)
                    requires
                        0 <= i < d0,
                        d1 >= 0,
                ;
            }
        }
    }

    /// Exchanging the axes keeps the elements where they are.
    pub proof fn lemma_swapped(self, len: nat)
        ensures
            self.fits(len) ==> self.swapped().fits(len),
            self.separated() ==> self.swapped().separated(),
            self.swapped().swapped() == self,
            forall|i: int, j: int| #[trigger] self.swapped().offset(i, j) == self.offset(j, i),
    {
        let t = self.swapped();
        if self.fits(len) {
            assert forall|i: int, j: int| #[trigger] t.holds(i, j) implies 0 <= t.offset(i, j)
                < len by {
                assert(self.holds(j, i));
            }
        }
    }

    /// A view and its transpose lie in the same places of the buffer.
    pub proof fn lemma_covers_swapped(self, k: int)
        ensures
            self.swapped().covers(k) == self.covers(k),
    {
        let t = self.swapped();
        if self.covers(k) {
            let (i, j) = choose|i: int, j: int| #[trigger] self.holds(i, j) && self.offset(i, j) == k;
            assert(t.holds(j, i) && t.offset(j, i) == k);
        }
        if t.covers(k) {
            let (i, j) = choose|i: int, j: int| #[trigger] t.holds(i, j) && t.offset(i, j) == k;
            assert(self.holds(j, i) && self.offset(j, i) == k);
        }
    }

    /// The four corners of a view that has elements are indices of it, so a
    /// view that fits has its extreme offsets inside the buffer.
    pub proof fn lemma_corners(self, len: nat)
        requires
            !self.empty(),
        ensures
            self.fits(len) ==> 0 <= self.start + (self.d0 - 1) * self.s0 < len,
            self.fits(len) ==> 0 <= self.start + (self.d1 - 1) * self.s1 < len,
            self.fits(len) ==> 0 <= self.low() && self.high() < len,
    {
        if self.fits(len) {
            assert(self.holds(0, 0));
            assert(self.holds(self.d0 - 1, 0));
            assert(self.holds(0, self.d1 - 1));
            assert(self.holds(self.d0 - 1, self.d1 - 1));
            assert(self.offset(self.d0 - 1, 0) == self.start + (self.d0 - 1) * self.s0)
                by (nonlinear_arith);
            assert(self.offset(0, self.d1 - 1) == self.start + (self.d1 - 1) * self.s1)
                by (nonlinear_arith);
        }
    }

    /// Every offset of a view that has elements lies between the extreme
    /// corners.
    pub proof fn lemma_fits_between(self, len: nat)
        requires
            !self.empty(),
            0 <= self.low(),
            self.high() < len,
        ensures
            self.fits(len),
    {
        assert forall|i: int, j: int| #[trigger] self.holds(i, j) implies 0 <= self.offset(i, j)
            < len by {
            lemma_between(i, self.d0 - 1, self.s0 as int);
            lemma_between(j, self.d1 - 1, self.s1 as int);
        }
    }
}

/// A product is no larger than its factors allow, and no smaller than its
/// step unless it is zero.
pub proof fn lemma_product_range(x: int, s: isize, last: int)
    requires
        -last <= x <= last,
    ensures
        -(last * Frame::span(s)) <= x * s <= last * Frame::span(s),
        x != 0 ==> x * s >= Frame::span(s) || x * s <= -Frame::span(s),
        x == 0 ==> x * s == 0,
{
    let a = Frame::span(s);
    assert(-(last * a) <= x * s <= last * a) by (nonlinear_arith)
        requires
            -last <= x <= last,
            a == s || a == -s,
            a >= 0,
    ;
    assert(x != 0 ==> x * s >= a || x * s <= -a) by (nonlinear_arith)
        requires
            a == s || a == -s,
            a >= 0,
    ;
}

impl Frame {
    /// Steps that pass the test keep the elements apart.
    pub proof fn lemma_separated_distinct(self)
        requires
            self.separated(),
        ensures
            self.distinct(),
    {
        assert forall|i: int, j: int, p: int, q: int|
            #![trigger self.holds(i, j), self.holds(p, q)]
            self.holds(i, j) && self.holds(p, q) && self.offset(i, j) == self.offset(
                p,
                q,
            ) implies i == p && j == q by {
            let x = i - p;
            let y = j - q;
            let u = x * self.s0;
            let v = y * self.s1;
            assert(u + v == 0) by (nonlinear_arith)
                requires
                    self.start + i * self.s0 + j * self.s1 == self.start + p * self.s0 + q
                        * self.s1,
                    x == i - p,
                    y == j - q,
                    u == x * self.s0,
                    v == y * self.s1,
            ;
            lemma_product_range(x, self.s0, self.d0 - 1);
            lemma_product_range(y, self.s1, self.d1 - 1);
        }
    }
}

/// A product of an index and a step cannot leave 128 bits.
pub proof fn lemma_product_bound(i: int, s: int)
    requires
        0 <= i <= 0xffff_ffff_ffff_ffff,
        -0x8000_0000_0000_0000 <= s <= 0x7fff_ffff_ffff_ffff,
    ensures
        -(0xffff_ffff_ffff_ffff * 0x8000_0000_0000_0000) <= i * s,
        i * s <= 0xffff_ffff_ffff_ffff * 0x7fff_ffff_ffff_ffff,
{
    assert(i * s <= 0xffff_ffff_ffff_ffff * 0x7fff_ffff_ffff_ffff) by (nonlinear_arith)
        requires
            0 <= i <= 0xffff_ffff_ffff_ffff,
            s <= 0x7fff_ffff_ffff_ffff,
    ;
    assert(i * s >= 0xffff_ffff_ffff_ffff * (-0x8000_0000_0000_0000)) by (nonlinear_arith)
        requires
            0 <= i <= 0xffff_ffff_ffff_ffff,
            s >= -0x8000_0000_0000_0000,
    ;
}

/// The sign of a product with a non-negative factor is that of the other.
pub proof fn lemma_sign_of_product(i: int, s: int)
    requires
        0 <= i,
    ensures
        s < 0 ==> i * s <= 0,
        s > 0 ==> i * s >= 0,
        s == 0 ==> i * s == 0,
        i * s < 0 ==> s < 0,
        i * s > 0 ==> s > 0,
{
    assert(s < 0 ==> i * s <= 0) by (nonlinear_arith)
        requires
            0 <= i,
    ;
    assert(s > 0 ==> i * s >= 0) by (nonlinear_arith)
        requires
            0 <= i,
    ;
}

/// Along one axis the offsets run between those of the first and the last
/// index.
pub proof fn lemma_between(i: int, last: int, s: int)
    requires
        0 <= i <= last,
    ensures
        s >= 0 ==> 0 <= i * s <= last * s,
        s <= 0 ==> last * s <= i * s <= 0,
{
    assert(s >= 0 ==> 0 <= i * s <= last * s) by (nonlinear_arith)
        requires
            0 <= i <= last,
    ;
    assert(s <= 0 ==> last * s <= i * s <= 0) by (nonlinear_arith)
        requires
            0 <= i <= last,
    ;
}

} // verus!
