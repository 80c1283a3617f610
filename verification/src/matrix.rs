//! Strided views of two-dimensional data: shared, exclusive and owned.
use crate::flags::BLASLayout;
use crate::frame::Frame;
use crate::layout::{classify, layout_of};
use crate::scalar::BLASFloat;
use vstd::arithmetic::div_mod::{
    lemma_div_pos_is_pos, lemma_fundamental_div_mod, lemma_mod_pos_bound, lemma_multiply_divide_lt,
};
use vstd::prelude::*;

verus! {

/// `x`, or its conjugate where `conj` asks for it.
pub open spec fn conj_if<F: BLASFloat>(x: F, conj: bool) -> F {
    if conj {
        x.conj_of()
    } else {
        x
    }
}

/// The buffer with every element that lies in the view conjugated, and
/// every place between them as it is.
pub open spec fn conj_within<F: BLASFloat>(buffer: Seq<F>, frame: Frame) -> Seq<F> {
    Seq::new(
        buffer.len(),
        |k: int|
            if frame.covers(k) {
                buffer[k].conj_of()
            } else {
                buffer[k]
            },
    )
}

/// The elements that lie in `buffer` by `frame`, gathered row after row
/// without gaps, each conjugated where `conj` asks for it.
pub open spec fn gathered<F: BLASFloat>(buffer: Seq<F>, frame: Frame, conj: bool) -> Seq<F> {
    Seq::new(
        (frame.d0 * frame.d1) as nat,
        |k: int| conj_if(buffer[frame.offset(k / (frame.d1 as int), k % (frame.d1 as int))], conj),
    )
}

/// A buffer that holds the elements of a view row after row is the one that
/// `gathered` names.
pub proof fn lemma_gathered<F: BLASFloat>(out: Seq<F>, buffer: Seq<F>, frame: Frame, conj: bool)
    requires
        out.len() == frame.d0 * frame.d1,
        forall|p: int, q: int| #[trigger]
            frame.holds(p, q) ==> out[place(p, q, frame.d1 as int)] == conj_if(
                buffer[frame.offset(p, q)],
                conj,
            ),
    ensures
        out == gathered(buffer, frame, conj),
{
    let d1 = frame.d1 as int;
    assert forall|k: int| 0 <= k < out.len() implies out[k] == gathered(buffer, frame, conj)[k] by {
        assert(d1 > 0) by (nonlinear_arith)
            requires
                0 <= k < frame.d0 * d1,
                frame.d0 >= 0,
        ;
        lemma_fundamental_div_mod(k, d1);
        lemma_mod_pos_bound(k, d1);
        lemma_div_pos_is_pos(k, d1);
        assert(frame.d0 * d1 == d1 * frame.d0) by (nonlinear_arith);
        lemma_multiply_divide_lt(k, d1, frame.d0 as int);
        assert(frame.holds(k / d1, k % d1));
        assert(place(k / d1, k % d1, d1) == k) by (nonlinear_arith)
            requires
                k == d1 * (k / d1) + (k % d1),
        ;
    }
    assert(out =~= gathered(buffer, frame, conj));
}

/// A shared view of a matrix inside a caller's buffer. It owns nothing.
pub struct MatRef<'a, F> {
    buf: &'a [F],
    frame: Frame,
}

/// An exclusive view of a matrix inside a caller's buffer: what is written
/// through it is written into the caller's memory.
pub struct MatMut<'a, F> {
    buf: &'a mut [F],
    frame: Frame,
}

/// A matrix that owns its buffer.
pub struct MatOwned<F> {
    buf: Vec<F>,
    frame: Frame,
}

/// A matrix that is either seen in a caller's buffer or owned, as a copy had
/// to be made or not.
pub enum MatCow<'a, F> {
    Borrowed(MatRef<'a, F>),
    Owned(MatOwned<F>),
}

impl<'a, F: BLASFloat> MatRef<'a, F> {
    /// Where the elements lie.
    pub closed spec fn frame(&self) -> Frame {
        self.frame
    }

    /// The buffer under the view, all of it.
    pub closed spec fn buffer(&self) -> Seq<F> {
        self.buf@
    }

    /// Every element of the view lies inside the buffer.
    pub open spec fn wf(&self) -> bool {
        self.frame().fits(self.buffer().len())
    }

    /// Element `(i, j)`.
    pub open spec fn at(&self, i: int, j: int) -> F {
        self.buffer()[self.frame().offset(i, j)]
    }

    /// The view of `shape` with `strides` whose element `(0, 0)` is
    /// `buf[start]`, if all of its elements lie inside `buf`.
    pub fn new(
        buf: &'a [F],
        start: usize,
        shape: (usize, usize),
        strides: (isize, isize),
    ) -> (r: Option<Self>)
        ensures
            r is Some <==> (Frame {
                start,
                d0: shape.0,
                d1: shape.1,
                s0: strides.0,
                s1: strides.1,
            }).fits(buf@.len()),
            r matches Some(m) ==> m.wf() && m.buffer() == buf@ && m.frame() == (Frame {
                start,
                d0: shape.0,
                d1: shape.1,
                s0: strides.0,
                s1: strides.1,
            }),
    {
        let frame = Frame { start, d0: shape.0, d1: shape.1, s0: strides.0, s1: strides.1 };
        if frame.check(buf.len()) {
            Some(MatRef { buf, frame })
        } else {
            None
        }
    }

    /// The lengths of the two axes.
    pub fn dim(&self) -> (r: (usize, usize))
        ensures
            r == self.frame().shape(),
    {
        (self.frame.d0, self.frame.d1)
    }

    /// The steps along the two axes.
    pub fn strides(&self) -> (r: (isize, isize))
        ensures
            r == self.frame().steps(),
    {
        (self.frame.s0, self.frame.s1)
    }

    /// The offset of element `(0, 0)` in the buffer.
    pub fn start(&self) -> (r: usize)
        ensures
            r == self.frame().start,
    {
        self.frame.start
    }

    /// The buffer under the view.
    pub fn as_slice(&self) -> (r: &'a [F])
        ensures
            r@ == self.buffer(),
    {
        self.buf
    }

    /// Element `(i, j)`.
    pub fn get(&self, i: usize, j: usize) -> (r: F)
        requires
            self.wf(),
            self.frame().holds(i as int, j as int),
        ensures
            r == self.at(i as int, j as int),
    {
        let at = self.frame.index(i, j, self.buf.len());
        self.buf[at]
    }

    /// Another view of the same elements.
    pub fn view(&self) -> (r: MatRef<'a, F>)
        ensures
            r == *self,
    {
        MatRef { buf: self.buf, frame: self.frame }
    }

    /// The transposed view of the same buffer.
    pub fn t(&self) -> (r: MatRef<'a, F>)
        ensures
            r.frame() == self.frame().swapped(),
            r.buffer() == self.buffer(),
            self.wf() ==> r.wf(),
    {
        proof {
            self.frame.lemma_swapped(self.buf@.len());
        }
        MatRef { buf: self.buf, frame: self.frame.swap() }
    }

    /// Whether the elements lie in row-major order without gaps.
    pub fn is_standard_layout(&self) -> (r: bool)
        ensures
            r == self.frame().standard(),
    {
        self.frame.is_standard()
    }

    /// A fresh row-major copy of the matrix, each element conjugated where
    /// `conj` asks for it. There is none if the elements cannot be counted.
    pub fn copied(&self, conj: bool) -> (r: Option<MatOwned<F>>)
        requires
            self.wf(),
        ensures
            r is Some <==> self.frame().d0 * self.frame().d1 <= isize::MAX,
            r matches Some(m) ==> {
                &&& m.wf()
                &&& m.frame() == Frame::row_major(self.frame().d0, self.frame().d1)
                &&& m.buffer() == gathered(self.buffer(), self.frame(), conj)
                &&& m.buffer().len() == self.frame().d0 * self.frame().d1
                &&& forall|i: int, j: int| #[trigger]
                    self.frame().holds(i, j) ==> m.at(i, j) == conj_if(self.at(i, j), conj)
            },
    {
        let d0 = self.frame.d0;
        let d1 = self.frame.d1;
        let total = match d0.checked_mul(d1) {
            Some(t) => t,
            None => {
                return None;
            },
        };
        if total > isize::MAX as usize {
            return None;
        }
        let mut out: Vec<F> = Vec::with_capacity(total);
        let mut i: usize = 0;
        while i < d0
            invariant
                self.wf(),
                d0 == self.frame().d0,
                d1 == self.frame().d1,
                i <= d0,
                out@.len() == i * d1,
                forall|p: int, q: int|
                    0 <= p < i && 0 <= q < d1 ==> out@[place(p, q, d1 as int)] == conj_if(
                        #[trigger] self.at(p, q),
                        conj,
                    ),
            decreases d0 - i,
        {
            let mut j: usize = 0;
            while j < d1
                invariant
                    self.wf(),
                    d0 == self.frame().d0,
                    d1 == self.frame().d1,
                    i < d0,
                    j <= d1,
                    out@.len() == i * d1 + j,
                    forall|p: int, q: int|
                        (0 <= p < i && 0 <= q < d1) || (p == i && 0 <= q < j) ==> out@[place(p, q, d1 as int)]
                            == conj_if(#[trigger] self.at(p, q), conj),
                decreases d1 - j,
            {
                let x = self.get(i, j);
                let y = if conj {
                    x.conj()
                } else {
                    x
                };
                proof {
                    assert forall|p: int, q: int|
                        (0 <= p < i && 0 <= q < d1) || (p == i && 0 <= q < j) implies #[trigger] place(
                        p,
                        q,
                        d1 as int,
                    ) < i * d1 + j by {
                        lemma_row_major_order(p, q, i as int, d1 as int);
                    }
                }
                out.push(y);
                j = j + 1;
            }
            proof {
                assert((i + 1) * d1 == i * d1 + d1) by (nonlinear_arith);
            }
            i = i + 1;
        }
        proof {
            Frame::lemma_row_major(d0, d1);
            assert forall|p: int, q: int| #[trigger] self.frame().holds(p, q) implies out@[place(
                p,
                q,
                d1 as int,
            )] == conj_if(self.buffer()[self.frame().offset(p, q)], conj) by {
                assert(out@[place(p, q, d1 as int)] == conj_if(self.at(p, q), conj));
            }
            lemma_gathered(out@, self.buffer(), self.frame(), conj);
        }
        let frame = Frame::contiguous(d0, d1);
        let m = MatOwned { buf: out, frame };
        proof {
            assert forall|p: int, q: int| #[trigger] self.frame().holds(p, q) implies m.at(p, q)
                == conj_if(self.at(p, q), conj) by {
                assert(frame.holds(p, q));
            }
        }
        Some(m)
    }

    /// A fresh column-major copy of the matrix, each element conjugated where
    /// `conj` asks for it. There is none if the elements cannot be counted.
    pub fn copied_f(&self, conj: bool) -> (r: Option<MatOwned<F>>)
        requires
            self.wf(),
        ensures
            r is Some <==> self.frame().d0 * self.frame().d1 <= isize::MAX,
            r matches Some(m) ==> {
                &&& m.wf()
                &&& m.frame() == Frame::col_major(self.frame().d0, self.frame().d1)
                &&& m.buffer() == gathered(self.buffer(), self.frame().swapped(), conj)
                &&& m.buffer().len() == self.frame().d0 * self.frame().d1
                &&& forall|i: int, j: int| #[trigger]
                    self.frame().holds(i, j) ==> m.at(i, j) == conj_if(self.at(i, j), conj)
            },
    {
        proof {
            assert(self.frame.d0 * self.frame.d1 == self.frame.d1 * self.frame.d0)
                by (nonlinear_arith);
        }
        let turned = self.t();
        match turned.copied(conj) {
            Some(c) => {
                let m = c.reversed_axes();
                proof {
                    assert forall|i: int, j: int| #[trigger]
                        self.frame().holds(i, j) implies m.at(i, j) == conj_if(
                        self.at(i, j),
                        conj,
                    ) by {
                        assert(turned.frame().holds(j, i));
                    }
                }
                Some(m)
            },
            None => None,
        }
    }

    /// The matrix in row-major order without gaps: the view itself where it
    /// has that order already, a fresh copy where it has not. There is none
    /// if a copy is needed and the elements cannot be counted.
    pub fn as_standard_layout(&self) -> (r: Option<MatCow<'a, F>>)
        requires
            self.wf(),
        ensures
            r is Some <==> self.frame().standard() || self.frame().d0 * self.frame().d1
                <= isize::MAX,
            r matches Some(c) ==> {
                &&& c.wf()
                &&& c.frame().shape() == self.frame().shape()
                &&& c.frame().standard()
                &&& c is Borrowed <==> self.frame().standard()
                &&& c matches MatCow::Borrowed(m) ==> m.frame() == self.frame() && m.buffer()
                    == self.buffer()
                &&& c matches MatCow::Owned(m) ==> m.frame() == Frame::row_major(
                    self.frame().d0,
                    self.frame().d1,
                ) && m.buffer() == gathered(self.buffer(), self.frame(), false)
                &&& forall|i: int, j: int| #[trigger]
                    self.frame().holds(i, j) ==> c.at(i, j) == self.at(i, j)
            },
    {
        if self.frame.is_standard() {
            Some(MatCow::Borrowed(self.view()))
        } else {
            match self.copied(false) {
                Some(m) => {
                    proof {
                        Frame::lemma_row_major(self.frame.d0, self.frame.d1);
                    }
                    Some(MatCow::Owned(m))
                },
                None => None,
            }
        }
    }
}

/// The place of element `(p, q)` in a row-major buffer with rows of `d1`.
pub open spec fn place(p: int, q: int, d1: int) -> int {
    p * d1 + q
}

/// In row-major order every place of an earlier row comes before the places
/// of a later one.
pub proof fn lemma_row_major_order(p: int, q: int, i: int, d1: int)
    requires
        0 <= q,
        (0 <= p < i && q < d1) || p == i,
    ensures
        p < i ==> p * d1 + q < i * d1,
        p == i ==> p * d1 + q == i * d1 + q,
{
    if p < i {
        assert(p * d1 + d1 <= i * d1) by (nonlinear_arith)
            requires
                0 <= p < i,
                d1 >= 0,
        ;
    }
}

impl<F: BLASFloat> MatOwned<F> {
    /// Where the elements lie.
    pub closed spec fn frame(&self) -> Frame {
        self.frame
    }

    /// The buffer, all of it.
    pub closed spec fn buffer(&self) -> Seq<F> {
        self.buf@
    }

    /// Every element lies inside the buffer, each in a place of its own.
    pub open spec fn wf(&self) -> bool {
        self.frame().fits(self.buffer().len()) && self.frame().separated()
    }

    /// Element `(i, j)`.
    pub open spec fn at(&self, i: int, j: int) -> F {
        self.buffer()[self.frame().offset(i, j)]
    }

    /// The lengths of the two axes.
    pub fn dim(&self) -> (r: (usize, usize))
        ensures
            r == self.frame().shape(),
    {
        (self.frame.d0, self.frame.d1)
    }

    /// The steps along the two axes.
    pub fn strides(&self) -> (r: (isize, isize))
        ensures
            r == self.frame().steps(),
    {
        (self.frame.s0, self.frame.s1)
    }

    /// Element `(i, j)`.
    pub fn get(&self, i: usize, j: usize) -> (r: F)
        requires
            self.wf(),
            self.frame().holds(i as int, j as int),
        ensures
            r == self.at(i as int, j as int),
    {
        let at = self.frame.index(i, j, self.buf.len());
        self.buf[at]
    }

    /// A matrix of `d0` by `d1` elements in column-major order, each of them
    /// `value`. There is none if the elements cannot be counted.
    pub fn filled_f(d0: usize, d1: usize, value: F) -> (r: Option<MatOwned<F>>)
        ensures
            r is Some <==> d0 * d1 <= isize::MAX,
            r matches Some(m) ==> {
                &&& m.wf()
                &&& m.frame() == Frame::col_major(d0, d1)
                &&& m.buffer() == Seq::new((d0 * d1) as nat, |k: int| value)
            },
    {
        let total = match d0.checked_mul(d1) {
            Some(t) => t,
            None => {
                return None;
            },
        };
        if total > isize::MAX as usize {
            return None;
        }
        let mut buf: Vec<F> = Vec::with_capacity(total);
        let mut k: usize = 0;
        while k < total
            invariant
                k <= total,
                buf@.len() == k,
                forall|n: int| 0 <= n < k ==> buf@[n] == value,
            decreases total - k,
        {
            buf.push(value);
            k = k + 1;
        }
        proof {
            assert(d0 * d1 == d1 * d0) by (nonlinear_arith);
            Frame::lemma_row_major(d1, d0);
            Frame::row_major(d1, d0).lemma_swapped(total as nat);
            assert(buf@ =~= Seq::new((d0 * d1) as nat, |k: int| value));
        }
        let frame = Frame::contiguous(d1, d0).swap();
        Some(MatOwned { buf, frame })
    }

    /// The matrix of `shape` whose rows follow each other in `buf`. There is
    /// none unless `buf` holds as many elements as the shape has.
    pub fn from_vec(buf: Vec<F>, shape: (usize, usize)) -> (r: Option<MatOwned<F>>)
        ensures
            r is Some <==> shape.0 * shape.1 == buf@.len() && buf@.len() <= isize::MAX,
            r matches Some(m) ==> m.wf() && m.buffer() == buf@ && m.frame() == Frame::row_major(
                shape.0,
                shape.1,
            ),
    {
        let total = match shape.0.checked_mul(shape.1) {
            Some(t) => t,
            None => {
                return None;
            },
        };
        if total != buf.len() || total > isize::MAX as usize {
            return None;
        }
        proof {
            Frame::lemma_row_major(shape.0, shape.1);
        }
        let frame = Frame::contiguous(shape.0, shape.1);
        Some(MatOwned { buf, frame })
    }

    /// The buffer, given up.
    pub fn into_vec(self) -> (r: Vec<F>)
        ensures
            r@ == self.buffer(),
    {
        self.buf
    }

    /// The offset of element `(0, 0)` in the buffer.
    pub fn start(&self) -> (r: usize)
        ensures
            r == self.frame().start,
    {
        self.frame.start
    }

    /// A shared view of the whole matrix.
    pub fn view(&self) -> (r: MatRef<'_, F>)
        ensures
            r.frame() == self.frame(),
            r.buffer() == self.buffer(),
            self.wf() ==> r.wf(),
    {
        MatRef { buf: self.buf.as_slice(), frame: self.frame }
    }

    /// An exclusive view of the whole matrix. What is written through it
    /// shows in `self` afterwards.
    pub fn view_mut(&mut self) -> (r: MatMut<'_, F>)
        ensures
            r.frame() == old(self).frame(),
            r.buffer() == old(self).buffer(),
            final(self).frame() == old(self).frame(),
            final(self).buffer() == final(r.cell())@,
    {
        MatMut { buf: self.buf.as_mut_slice(), frame: self.frame }
    }

    /// The buffer, to be written by a kernel. What is written shows in `self`
    /// afterwards.
    pub fn as_mut_slice(&mut self) -> (r: &mut [F])
        ensures
            r@ == old(self).buffer(),
            final(self).frame() == old(self).frame(),
            final(self).buffer() == final(r)@,
    {
        self.buf.as_mut_slice()
    }

    /// The same matrix with its two axes exchanged. Nothing moves.
    pub fn reversed_axes(self) -> (r: MatOwned<F>)
        ensures
            r.frame() == self.frame().swapped(),
            r.buffer() == self.buffer(),
            self.wf() ==> r.wf(),
    {
        proof {
            self.frame.lemma_swapped(self.buf@.len());
        }
        MatOwned { buf: self.buf, frame: self.frame.swap() }
    }
}

impl<'a, F: BLASFloat> MatMut<'a, F> {
    /// Where the elements lie.
    pub closed spec fn frame(&self) -> Frame {
        self.frame
    }

    /// The buffer under the view, all of it, as it is now.
    pub closed spec fn buffer(&self) -> Seq<F> {
        self.buf@
    }

    /// The borrow of the caller's buffer that the view holds.
    pub closed spec fn cell(&self) -> &mut [F] {
        self.buf
    }

    /// Every element of the view lies inside the buffer, each in a place of
    /// its own.
    pub open spec fn wf(&self) -> bool {
        self.frame().fits(self.buffer().len()) && self.frame().separated()
    }

    /// Element `(i, j)`.
    pub open spec fn at(&self, i: int, j: int) -> F {
        self.buffer()[self.frame().offset(i, j)]
    }

    /// A view that is written no more leaves the caller's buffer as the view
    /// has it.
    pub proof fn lemma_laid_down(self)
        requires
            has_resolved(self),
        ensures
            final(self.cell())@ == self.buffer(),
    {
    }

    /// The view of `shape` with `strides` whose element `(0, 0)` is
    /// `buf[start]`, if all of its elements lie inside `buf` and the strides
    /// keep them apart.
    pub fn new(
        buf: &'a mut [F],
        start: usize,
        shape: (usize, usize),
        strides: (isize, isize),
    ) -> (r: Option<Self>)
        ensures
            r is Some <==> {
                let f = Frame { start, d0: shape.0, d1: shape.1, s0: strides.0, s1: strides.1 };
                f.fits(old(buf)@.len()) && f.separated()
            },
            r matches Some(m) ==> m.wf() && m.buffer() == old(buf)@ && m.frame() == (Frame {
                start,
                d0: shape.0,
                d1: shape.1,
                s0: strides.0,
                s1: strides.1,
            }),
    {
        let frame = Frame { start, d0: shape.0, d1: shape.1, s0: strides.0, s1: strides.1 };
        if frame.check(buf.len()) && frame.is_separated() {
            Some(MatMut { buf, frame })
        } else {
            None
        }
    }

    /// The lengths of the two axes.
    pub fn dim(&self) -> (r: (usize, usize))
        ensures
            r == self.frame().shape(),
    {
        (self.frame.d0, self.frame.d1)
    }

    /// The steps along the two axes.
    pub fn strides(&self) -> (r: (isize, isize))
        ensures
            r == self.frame().steps(),
    {
        (self.frame.s0, self.frame.s1)
    }

    /// The offset of element `(0, 0)` in the buffer.
    pub fn start(&self) -> (r: usize)
        ensures
            r == self.frame().start,
    {
        self.frame.start
    }

    /// Element `(i, j)`.
    pub fn get(&self, i: usize, j: usize) -> (r: F)
        requires
            self.wf(),
            self.frame().holds(i as int, j as int),
        ensures
            r == self.at(i as int, j as int),
    {
        let at = self.frame.index(i, j, self.buf.len());
        self.buf[at]
    }

    /// Writes element `(i, j)`; every other element keeps its value.
    pub fn set(&mut self, i: usize, j: usize, value: F)
        requires
            old(self).wf(),
            old(self).frame().holds(i as int, j as int),
        ensures
            final(self).frame() == old(self).frame(),
            final(self).buffer() == old(self).buffer().update(
                old(self).frame().offset(i as int, j as int),
                value,
            ),
            final(self).wf(),
            final(self).at(i as int, j as int) == value,
            forall|p: int, q: int|
                old(self).frame().holds(p, q) && (p != i || q != j) ==> final(self).at(p, q)
                    == #[trigger] old(self).at(p, q),
            final(final(self).cell())@ == final(old(self).cell())@,
    {
        proof {
            self.frame.lemma_separated_distinct();
            assert forall|p: int, q: int|
                self.frame.holds(p, q) && (p != i || q != j) implies self.frame.offset(p, q)
                != self.frame.offset(i as int, j as int) by {}
        }
        let at = self.frame.index(i, j, self.buf.len());
        self.buf[at] = value;
    }

    /// A shared view of the same elements, for as long as it is held.
    pub fn view(&self) -> (r: MatRef<'_, F>)
        ensures
            r.frame() == self.frame(),
            r.buffer() == self.buffer(),
            self.wf() ==> r.wf(),
    {
        MatRef { buf: &*self.buf, frame: self.frame }
    }

    /// An exclusive view of the same elements, for as long as it is held.
    /// What is written through it shows in `self` afterwards.
    pub fn view_mut(&mut self) -> (r: MatMut<'_, F>)
        ensures
            r.frame() == old(self).frame(),
            r.buffer() == old(self).buffer(),
            final(self).frame() == old(self).frame(),
            final(self).buffer() == final(r.cell())@,
            final(final(self).cell())@ == final(old(self).cell())@,
    {
        MatMut { buf: &mut *self.buf, frame: self.frame }
    }

    /// The buffer under the view, to be written by a kernel. What is written
    /// shows in `self` afterwards.
    pub fn as_mut_slice(&mut self) -> (r: &mut [F])
        ensures
            r@ == old(self).buffer(),
            final(self).frame() == old(self).frame(),
            final(self).buffer() == final(r)@,
            final(final(self).cell())@ == final(old(self).cell())@,
    {
        &mut *self.buf
    }

    /// The same view with its two axes exchanged. Nothing moves.
    pub fn reversed_axes(self) -> (r: MatMut<'a, F>)
        ensures
            r.frame() == self.frame().swapped(),
            r.buffer() == self.buffer(),
            final(r.cell())@ == final(self.cell())@,
            self.wf() ==> r.wf(),
    {
        proof {
            self.frame.lemma_swapped(self.buf@.len());
        }
        MatMut { buf: self.buf, frame: self.frame.swap() }
    }

    /// Replaces every element by its conjugate. The buffer keeps its length
    /// and the view its geometry.
    pub fn conj_inplace(&mut self)
        requires
            old(self).wf(),
        ensures
            final(self).frame() == old(self).frame(),
            final(self).buffer().len() == old(self).buffer().len(),
            final(self).wf(),
            forall|i: int, j: int| #[trigger]
                old(self).frame().holds(i, j) ==> final(self).at(i, j) == old(self).at(
                    i,
                    j,
                ).conj_of(),
            final(self).buffer() == conj_within(old(self).buffer(), old(self).frame()),
            final(final(self).cell())@ == final(old(self).cell())@,
    {
        let d0 = self.frame.d0;
        let d1 = self.frame.d1;
        let mut i: usize = 0;
        while i < d0
            invariant
                self.wf(),
                self.frame() == old(self).frame(),
                self.buffer().len() == old(self).buffer().len(),
                final(self.cell())@ == final(old(self).cell())@,
                forall|k: int|
                    0 <= k < self.buffer().len() && !self.frame().covers(k) ==> self.buffer()[k]
                        == old(self).buffer()[k],
                d0 == self.frame().d0,
                d1 == self.frame().d1,
                i <= d0,
                forall|p: int, q: int|
                    0 <= p < i && 0 <= q < d1 ==> #[trigger] self.at(p, q) == old(self).at(
                        p,
                        q,
                    ).conj_of(),
                forall|p: int, q: int|
                    i <= p < d0 && 0 <= q < d1 ==> #[trigger] self.at(p, q) == old(self).at(p, q),
            decreases d0 - i,
        {
            let mut j: usize = 0;
            while j < d1
                invariant
                    self.wf(),
                    self.frame() == old(self).frame(),
                    self.buffer().len() == old(self).buffer().len(),
                    final(self.cell())@ == final(old(self).cell())@,
                    forall|k: int|
                        0 <= k < self.buffer().len() && !self.frame().covers(k) ==> self.buffer()[k]
                            == old(self).buffer()[k],
                    d0 == self.frame().d0,
                    d1 == self.frame().d1,
                    i < d0,
                    j <= d1,
                    forall|p: int, q: int|
                        (0 <= p < i && 0 <= q < d1) || (p == i && 0 <= q < j) ==> #[trigger] self.at(
                            p,
                            q,
                        ) == old(self).at(p, q).conj_of(),
                    forall|p: int, q: int|
                        (i < p < d0 && 0 <= q < d1) || (p == i && j <= q < d1) ==> #[trigger] self.at(
                            p,
                            q,
                        ) == old(self).at(p, q),
                decreases d1 - j,
            {
                assert(self.frame().holds(i as int, j as int));
                let x = self.get(i, j);
                let ghost before = *self;
                self.set(i, j, x.conj());
                proof {
                    assert forall|p: int, q: int| 0 <= p < d0 && 0 <= q < d1 && (p != i || q
                        != j) implies #[trigger] self.at(p, q) == before.at(p, q) by {}
                }
                j = j + 1;
            }
            i = i + 1;
        }
        proof {
            let want = conj_within(old(self).buffer(), old(self).frame());
            assert forall|k: int| 0 <= k < self.buffer().len() implies self.buffer()[k]
                == want[k] by {
                if self.frame().covers(k) {
                    let (p, q) = choose|p: int, q: int| #[trigger]
                        self.frame().holds(p, q) && self.frame().offset(p, q) == k;
                    assert(self.at(p, q) == old(self).at(p, q).conj_of());
                }
            }
            assert(self.buffer() =~= want);
        }
    }

    /// Copies `src` into the view, element by element. The buffer keeps its
    /// length and the view its geometry.
    pub fn assign(&mut self, src: &MatRef<'_, F>)
        requires
            old(self).wf(),
            src.wf(),
            src.frame().shape() == old(self).frame().shape(),
        ensures
            final(self).frame() == old(self).frame(),
            final(self).buffer().len() == old(self).buffer().len(),
            final(self).wf(),
            forall|i: int, j: int| #[trigger]
                old(self).frame().holds(i, j) ==> final(self).at(i, j) == src.at(i, j),
            forall|k: int|
                0 <= k < old(self).buffer().len() && !old(self).frame().covers(k)
                    ==> final(self).buffer()[k] == old(self).buffer()[k],
            final(final(self).cell())@ == final(old(self).cell())@,
    {
        let d0 = self.frame.d0;
        let d1 = self.frame.d1;
        let mut i: usize = 0;
        while i < d0
            invariant
                self.wf(),
                src.wf(),
                self.frame() == old(self).frame(),
                self.buffer().len() == old(self).buffer().len(),
                final(self.cell())@ == final(old(self).cell())@,
                forall|k: int|
                    0 <= k < self.buffer().len() && !self.frame().covers(k) ==> self.buffer()[k]
                        == old(self).buffer()[k],
                src.frame().shape() == self.frame().shape(),
                d0 == self.frame().d0,
                d1 == self.frame().d1,
                i <= d0,
                forall|p: int, q: int|
                    0 <= p < i && 0 <= q < d1 ==> #[trigger] self.at(p, q) == src.at(p, q),
            decreases d0 - i,
        {
            let mut j: usize = 0;
            while j < d1
                invariant
                    self.wf(),
                    src.wf(),
                    self.frame() == old(self).frame(),
                    self.buffer().len() == old(self).buffer().len(),
                    final(self.cell())@ == final(old(self).cell())@,
                    forall|k: int|
                        0 <= k < self.buffer().len() && !self.frame().covers(k) ==> self.buffer()[k]
                            == old(self).buffer()[k],
                    src.frame().shape() == self.frame().shape(),
                    d0 == self.frame().d0,
                    d1 == self.frame().d1,
                    i < d0,
                    j <= d1,
                    forall|p: int, q: int|
                        (0 <= p < i && 0 <= q < d1) || (p == i && 0 <= q < j) ==> #[trigger] self.at(
                            p,
                            q,
                        ) == src.at(p, q),
                decreases d1 - j,
            {
                assert(self.frame().holds(i as int, j as int));
                let x = src.get(i, j);
                let ghost before = *self;
                self.set(i, j, x);
                proof {
                    assert forall|p: int, q: int|
                        (0 <= p < i && 0 <= q < d1) || (p == i && 0 <= q < j + 1) implies #[trigger] self.at(
                        p,
                        q,
                    ) == src.at(p, q) by {
                        if p != i || q != j {
                            assert(self.at(p, q) == before.at(p, q));
                        }
                    }
                }
                j = j + 1;
            }
            i = i + 1;
        }
    }
}

impl<'a, F: BLASFloat> MatCow<'a, F> {
    /// Where the elements lie.
    pub open spec fn frame(&self) -> Frame {
        match self {
            MatCow::Borrowed(m) => m.frame(),
            MatCow::Owned(m) => m.frame(),
        }
    }

    /// Every element lies inside the buffer.
    pub open spec fn wf(&self) -> bool {
        match self {
            MatCow::Borrowed(m) => m.wf(),
            MatCow::Owned(m) => m.wf(),
        }
    }

    /// Element `(i, j)`.
    pub open spec fn at(&self, i: int, j: int) -> F {
        match self {
            MatCow::Borrowed(m) => m.at(i, j),
            MatCow::Owned(m) => m.at(i, j),
        }
    }

    /// The buffer that holds the elements.
    pub open spec fn buffer(&self) -> Seq<F> {
        match self {
            MatCow::Borrowed(m) => m.buffer(),
            MatCow::Owned(m) => m.buffer(),
        }
    }

    /// No copy was made.
    pub fn is_view(&self) -> (r: bool)
        ensures
            r == (self is Borrowed),
    {
        match self {
            MatCow::Borrowed(_) => true,
            MatCow::Owned(_) => false,
        }
    }

    /// The same matrix with its two axes exchanged, held as before.
    pub fn t(self) -> (r: MatCow<'a, F>)
        ensures
            r.frame() == self.frame().swapped(),
            r.buffer() == self.buffer(),
            r is Borrowed <==> self is Borrowed,
            self.wf() ==> r.wf(),
    {
        match self {
            MatCow::Borrowed(m) => MatCow::Borrowed(m.t()),
            MatCow::Owned(m) => MatCow::Owned(m.reversed_axes()),
        }
    }

    /// The lengths of the two axes.
    pub fn dim(&self) -> (r: (usize, usize))
        ensures
            r == self.frame().shape(),
    {
        match self {
            MatCow::Borrowed(m) => m.dim(),
            MatCow::Owned(m) => m.dim(),
        }
    }

    /// The steps along the two axes.
    pub fn strides(&self) -> (r: (isize, isize))
        ensures
            r == self.frame().steps(),
    {
        match self {
            MatCow::Borrowed(m) => m.strides(),
            MatCow::Owned(m) => m.strides(),
        }
    }

    /// A shared view of the matrix, whichever way it is held.
    pub fn view(&self) -> (r: MatRef<'_, F>)
        ensures
            r.frame() == self.frame(),
            r.buffer() == self.buffer(),
            self.wf() ==> r.wf(),
    {
        match self {
            MatCow::Borrowed(m) => m.view(),
            MatCow::Owned(m) => m.view(),
        }
    }
}

/// The layout of a matrix view, by its shape and strides alone.
pub fn get_layout_array2<F: BLASFloat>(arr: &MatRef<'_, F>) -> (r: BLASLayout)
    ensures
        r == layout_of(arr.frame().shape(), arr.frame().steps()),
{
    classify(arr.dim(), arr.strides())
}

} // verus!
