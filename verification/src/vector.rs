//! Strided views of one-dimensional data: shared, exclusive and owned.
//!
//! A vector is kept as a matrix of a single column, so that the two kinds of
//! operand share one account of where their elements lie.
use crate::frame::Frame;
use crate::matrix::{conj_within, gathered, MatCow, MatMut, MatOwned, MatRef};
use crate::scalar::BLASFloat;
use vstd::prelude::*;

verus! {

/// A shared view of a vector inside a caller's buffer. It owns nothing.
pub struct VecRef<'a, F> {
    column: MatRef<'a, F>,
}

/// An exclusive view of a vector inside a caller's buffer: what is written
/// through it is written into the caller's memory.
pub struct VecMut<'a, F> {
    column: MatMut<'a, F>,
}

/// A vector that owns its buffer.
pub struct VecOwned<F> {
    column: MatOwned<F>,
}

/// A vector that is either seen in a caller's buffer or owned, as a copy had
/// to be made or not.
pub enum VecCow<'a, F> {
    Borrowed(VecRef<'a, F>),
    Owned(VecOwned<F>),
}

/// The geometry of a vector of `len` elements, `stride` apart, the first of
/// them at `start`: that of a matrix of one column.
pub open spec fn line(start: usize, len: usize, stride: isize) -> Frame {
    Frame { start, d0: len, d1: 1, s0: stride, s1: 0 }
}

/// Element `i` of a vector lies `i` steps from the first.
pub proof fn lemma_line(frame: Frame, i: int)
    ensures
        frame.offset(i, 0) == frame.start + i * frame.s0,
{
}

impl<'a, F: BLASFloat> VecRef<'a, F> {
    /// The vector as a matrix of one column.
    pub closed spec fn column(&self) -> MatRef<'a, F> {
        self.column
    }

    /// Where the elements lie: `d0` of them in a single column.
    pub open spec fn frame(&self) -> Frame {
        self.column().frame()
    }

    /// The buffer under the view, all of it.
    pub open spec fn buffer(&self) -> Seq<F> {
        self.column().buffer()
    }

    /// Every element of the view lies inside the buffer.
    pub open spec fn wf(&self) -> bool {
        self.column().wf() && self.frame().d1 == 1
    }

    /// Element `i`.
    pub open spec fn at(&self, i: int) -> F {
        self.column().at(i, 0)
    }

    /// The view of `len` elements, `stride` apart, whose first is
    /// `buf[start]`, if all of them lie inside `buf`.
    pub fn new(buf: &'a [F], start: usize, len: usize, stride: isize) -> (r: Option<Self>)
        ensures
            r is Some <==> line(start, len, stride).fits(buf@.len()),
            r matches Some(v) ==> v.wf() && v.buffer() == buf@ && v.frame() == line(
                start,
                len,
                stride,
            ),
    {
        match MatRef::new(buf, start, (len, 1), (stride, 0)) {
            Some(column) => Some(VecRef { column }),
            None => None,
        }
    }

    /// The number of elements.
    pub fn len(&self) -> (r: usize)
        ensures
            r == self.frame().d0,
    {
        self.column.dim().0
    }

    /// The step from one element to the next.
    pub fn stride(&self) -> (r: isize)
        ensures
            r == self.frame().s0,
    {
        self.column.strides().0
    }

    /// The offset of the first element in the buffer.
    pub fn start(&self) -> (r: usize)
        ensures
            r == self.frame().start,
    {
        self.column.start()
    }

    /// The buffer under the view.
    pub fn as_slice(&self) -> (r: &'a [F])
        ensures
            r@ == self.buffer(),
    {
        self.column.as_slice()
    }

    /// Element `i`.
    pub fn get(&self, i: usize) -> (r: F)
        requires
            self.wf(),
            i < self.frame().d0,
        ensures
            r == self.at(i as int),
    {
        self.column.get(i, 0)
    }

    /// Another view of the same elements.
    pub fn view(&self) -> (r: VecRef<'a, F>)
        ensures
            r == *self,
    {
        VecRef { column: self.column.view() }
    }

    /// Whether the elements follow each other without gaps.
    pub fn is_standard_layout(&self) -> (r: bool)
        ensures
            r == self.frame().standard(),
    {
        self.column.is_standard_layout()
    }

    /// A fresh copy of the vector without gaps. There is none if the elements
    /// cannot be counted.
    pub fn to_owned(&self) -> (r: Option<VecOwned<F>>)
        requires
            self.wf(),
        ensures
            r is Some <==> self.frame().d0 <= isize::MAX,
            r matches Some(m) ==> {
                &&& m.wf()
                &&& m.frame() == Frame::row_major(self.frame().d0, 1)
                &&& m.buffer() == gathered(self.buffer(), self.frame(), false)
                &&& forall|i: int| 0 <= i < self.frame().d0 ==> m.at(i) == #[trigger] self.at(i)
            },
    {
        assert(self.frame().d0 * 1 == self.frame().d0);
        match self.column.copied(false) {
            Some(column) => {
                proof {
                    assert forall|i: int| 0 <= i < self.frame().d0 implies column.at(i, 0)
                        == #[trigger] self.at(i) by {
                        assert(self.frame().holds(i, 0));
                    }
                }
                Some(VecOwned { column })
            },
            None => None,
        }
    }

    /// The vector without gaps: the view itself where it has none, a fresh
    /// copy where it has. There is none if a copy is needed and the elements
    /// cannot be counted.
    pub fn as_standard_layout(&self) -> (r: Option<VecCow<'a, F>>)
        requires
            self.wf(),
        ensures
            r is Some <==> self.frame().standard() || self.frame().d0 <= isize::MAX,
            r matches Some(c) ==> {
                &&& c.wf()
                &&& c.frame().d0 == self.frame().d0
                &&& c.frame().standard()
                &&& c is Borrowed <==> self.frame().standard()
                &&& c matches VecCow::Borrowed(v) ==> v == *self
                &&& c matches VecCow::Owned(v) ==> v.frame() == Frame::row_major(
                    self.frame().d0,
                    1,
                ) && v.buffer() == gathered(self.buffer(), self.frame(), false)
                &&& forall|i: int| 0 <= i < self.frame().d0 ==> c.at(i) == #[trigger] self.at(i)
            },
    {
        match self.column.as_standard_layout() {
            Some(MatCow::Borrowed(column)) => {
                Some(VecCow::Borrowed(VecRef { column: self.column.view() }))
            },
            Some(MatCow::Owned(column)) => {
                proof {
                    assert forall|i: int| 0 <= i < self.frame().d0 implies column.at(i, 0)
                        == #[trigger] self.at(i) by {
                        assert(self.frame().holds(i, 0));
                    }
                }
                Some(VecCow::Owned(VecOwned { column }))
            },
            None => None,
        }
    }
}

impl<'a, F: BLASFloat> VecMut<'a, F> {
    /// The vector as a matrix of one column.
    pub closed spec fn column(&self) -> MatMut<'a, F> {
        self.column
    }

    /// Where the elements lie: `d0` of them in a single column.
    pub open spec fn frame(&self) -> Frame {
        self.column().frame()
    }

    /// The buffer under the view, all of it, as it is now.
    pub open spec fn buffer(&self) -> Seq<F> {
        self.column().buffer()
    }

    /// The borrow of the caller's buffer that the view holds.
    pub open spec fn cell(&self) -> &mut [F] {
        self.column().cell()
    }

    /// Every element of the view lies inside the buffer, each in a place of
    /// its own.
    pub open spec fn wf(&self) -> bool {
        self.column().wf() && self.frame().d1 == 1
    }

    /// Element `i`.
    pub open spec fn at(&self, i: int) -> F {
        self.column().at(i, 0)
    }

    /// A view that is written no more leaves the caller's buffer as the view
    /// has it.
    pub proof fn lemma_laid_down(self)
        requires
            has_resolved(self),
        ensures
            final(self.cell())@ == self.buffer(),
    {
        self.column.lemma_laid_down();
    }

    /// The view of `len` elements, `stride` apart, whose first is
    /// `buf[start]`, if all of them lie inside `buf` and no two of them in
    /// one place.
    pub fn new(buf: &'a mut [F], start: usize, len: usize, stride: isize) -> (r: Option<Self>)
        ensures
            r is Some <==> line(start, len, stride).fits(old(buf)@.len()) && line(
                start,
                len,
                stride,
            ).separated(),
            r matches Some(v) ==> v.wf() && v.buffer() == old(buf)@ && v.frame() == line(
                start,
                len,
                stride,
            ),
    {
        match MatMut::new(buf, start, (len, 1), (stride, 0)) {
            Some(column) => Some(VecMut { column }),
            None => None,
        }
    }

    /// The number of elements.
    pub fn len(&self) -> (r: usize)
        ensures
            r == self.frame().d0,
    {
        self.column.dim().0
    }

    /// The step from one element to the next.
    pub fn stride(&self) -> (r: isize)
        ensures
            r == self.frame().s0,
    {
        self.column.strides().0
    }

    /// The offset of the first element in the buffer.
    pub fn start(&self) -> (r: usize)
        ensures
            r == self.frame().start,
    {
        self.column.start()
    }

    /// Element `i`.
    pub fn get(&self, i: usize) -> (r: F)
        requires
            self.wf(),
            i < self.frame().d0,
        ensures
            r == self.at(i as int),
    {
        self.column.get(i, 0)
    }

    /// Writes element `i`; every other element keeps its value.
    pub fn set(&mut self, i: usize, value: F)
        requires
            old(self).wf(),
            i < old(self).frame().d0,
        ensures
            final(self).frame() == old(self).frame(),
            final(self).buffer().len() == old(self).buffer().len(),
            final(self).wf(),
            final(self).buffer() == old(self).buffer().update(
                old(self).frame().offset(i as int, 0),
                value,
            ),
            final(self).at(i as int) == value,
            forall|p: int|
                0 <= p < old(self).frame().d0 && p != i ==> final(self).at(p) == #[trigger] old(
                    self,
                ).at(p),
            final(final(self).cell())@ == final(old(self).cell())@,
    {
        assert(self.frame().holds(i as int, 0));
        let ghost before = self.column;
        self.column.set(i, 0, value);
        proof {
            assert forall|p: int| 0 <= p < before.frame().d0 && p != i implies self.column.at(p, 0)
                == #[trigger] before.at(p, 0) by {}
        }
    }

    /// A shared view of the same elements, for as long as it is held.
    pub fn view(&self) -> (r: VecRef<'_, F>)
        ensures
            r.frame() == self.frame(),
            r.buffer() == self.buffer(),
            self.wf() ==> r.wf(),
    {
        VecRef { column: self.column.view() }
    }

    /// An exclusive view of the same elements, for as long as it is held.
    /// What is written through it shows in `self` afterwards.
    pub fn view_mut(&mut self) -> (r: VecMut<'_, F>)
        ensures
            r.frame() == old(self).frame(),
            r.buffer() == old(self).buffer(),
            final(self).frame() == old(self).frame(),
            final(self).buffer() == final(r.cell())@,
            final(final(self).cell())@ == final(old(self).cell())@,
    {
        VecMut { column: self.column.view_mut() }
    }

    /// The buffer under the view, to be written by a kernel. What is written
    /// shows in `self` afterwards.
    pub fn as_mut_slice(&mut self) -> (r: &mut [F])
        ensures
            r@ == old(self).buffer(),
            final(self).frame() == old(self).frame(),
            final(self).buffer() == final(r)@,
            final(final(self).cell())@ == final(old(self).cell())@,
    {
        self.column.as_mut_slice()
    }

    /// Replaces every element by its conjugate. The buffer keeps its length
    /// and the view its geometry.
    pub fn conj_inplace(&mut self)
        requires
            old(self).wf(),
        ensures
            final(self).frame() == old(self).frame(),
            final(self).buffer().len() == old(self).buffer().len(),
            final(self).wf(),
            forall|i: int|
                0 <= i < old(self).frame().d0 ==> final(self).at(i) == #[trigger] old(self).at(
                    i,
                ).conj_of(),
            final(self).buffer() == conj_within(old(self).buffer(), old(self).frame()),
            final(final(self).cell())@ == final(old(self).cell())@,
    {
        let ghost before = self.column;
        self.column.conj_inplace();
        proof {
            assert forall|i: int| 0 <= i < before.frame().d0 implies self.column.at(i, 0)
                == #[trigger] before.at(i, 0).conj_of() by {
                assert(before.frame().holds(i, 0));
            }
        }
    }

    /// Copies `src` into the view, element by element. The buffer keeps its
    /// length and the view its geometry.
    pub fn assign(&mut self, src: &VecRef<'_, F>)
        requires
            old(self).wf(),
            src.wf(),
            src.frame().d0 == old(self).frame().d0,
        ensures
            final(self).frame() == old(self).frame(),
            final(self).buffer().len() == old(self).buffer().len(),
            final(self).wf(),
            forall|i: int|
                0 <= i < old(self).frame().d0 ==> final(self).at(i) == #[trigger] src.at(i),
            forall|k: int|
                0 <= k < old(self).buffer().len() && !old(self).frame().covers(k)
                    ==> final(self).buffer()[k] == old(self).buffer()[k],
            final(final(self).cell())@ == final(old(self).cell())@,
    {
        let ghost before = self.column;
        self.column.assign(&src.column);
        proof {
            assert forall|i: int| 0 <= i < before.frame().d0 implies self.column.at(i, 0)
                == #[trigger] src.at(i) by {
                assert(before.frame().holds(i, 0));
            }
        }
    }
}

impl<F: BLASFloat> VecOwned<F> {
    /// The vector as a matrix of one column.
    pub closed spec fn column(&self) -> MatOwned<F> {
        self.column
    }

    /// Where the elements lie: `d0` of them in a single column.
    pub open spec fn frame(&self) -> Frame {
        self.column().frame()
    }

    /// The buffer, all of it.
    pub open spec fn buffer(&self) -> Seq<F> {
        self.column().buffer()
    }

    /// Every element lies inside the buffer, each in a place of its own.
    pub open spec fn wf(&self) -> bool {
        self.column().wf() && self.frame().d1 == 1
    }

    /// Element `i`.
    pub open spec fn at(&self, i: int) -> F {
        self.column().at(i, 0)
    }

    /// The vector whose elements follow each other in `buf`. There is none
    /// if they cannot be counted.
    pub fn from_vec(buf: Vec<F>) -> (r: Option<VecOwned<F>>)
        ensures
            r is Some <==> buf@.len() <= isize::MAX,
            r matches Some(v) ==> v.wf() && v.buffer() == buf@ && v.frame() == Frame::row_major(
                buf@.len() as usize,
                1,
            ),
    {
        let len = buf.len();
        match MatOwned::from_vec(buf, (len, 1)) {
            Some(column) => Some(VecOwned { column }),
            None => None,
        }
    }

    /// The number of elements.
    pub fn len(&self) -> (r: usize)
        ensures
            r == self.frame().d0,
    {
        self.column.dim().0
    }

    /// Element `i`.
    pub fn get(&self, i: usize) -> (r: F)
        requires
            self.wf(),
            i < self.frame().d0,
        ensures
            r == self.at(i as int),
    {
        self.column.get(i, 0)
    }

    /// The buffer, given up.
    pub fn into_vec(self) -> (r: Vec<F>)
        ensures
            r@ == self.buffer(),
    {
        self.column.into_vec()
    }

    /// A shared view of the whole vector.
    pub fn view(&self) -> (r: VecRef<'_, F>)
        ensures
            r.frame() == self.frame(),
            r.buffer() == self.buffer(),
            self.wf() ==> r.wf(),
    {
        VecRef { column: self.column.view() }
    }

    /// An exclusive view of the whole vector. What is written through it
    /// shows in `self` afterwards.
    pub fn view_mut(&mut self) -> (r: VecMut<'_, F>)
        ensures
            r.frame() == old(self).frame(),
            r.buffer() == old(self).buffer(),
            final(self).frame() == old(self).frame(),
            final(self).buffer() == final(r.cell())@,
    {
        VecMut { column: self.column.view_mut() }
    }

    /// The buffer, to be written by a kernel. What is written shows in `self`
    /// afterwards.
    pub fn as_mut_slice(&mut self) -> (r: &mut [F])
        ensures
            r@ == old(self).buffer(),
            final(self).frame() == old(self).frame(),
            final(self).buffer() == final(r)@,
    {
        self.column.as_mut_slice()
    }
}

impl<'a, F: BLASFloat> VecCow<'a, F> {
    /// Where the elements lie.
    pub open spec fn frame(&self) -> Frame {
        match self {
            VecCow::Borrowed(v) => v.frame(),
            VecCow::Owned(v) => v.frame(),
        }
    }

    /// Every element lies inside the buffer.
    pub open spec fn wf(&self) -> bool {
        match self {
            VecCow::Borrowed(v) => v.wf(),
            VecCow::Owned(v) => v.wf(),
        }
    }

    /// Element `i`.
    pub open spec fn at(&self, i: int) -> F {
        match self {
            VecCow::Borrowed(v) => v.at(i),
            VecCow::Owned(v) => v.at(i),
        }
    }

    /// The buffer that holds the elements.
    pub open spec fn buffer(&self) -> Seq<F> {
        match self {
            VecCow::Borrowed(v) => v.buffer(),
            VecCow::Owned(v) => v.buffer(),
        }
    }

    /// No copy was made.
    pub fn is_view(&self) -> (r: bool)
        ensures
            r == (self is Borrowed),
    {
        match self {
            VecCow::Borrowed(_) => true,
            VecCow::Owned(_) => false,
        }
    }

    /// A shared view of the vector, whichever way it is held.
    pub fn view(&self) -> (r: VecRef<'_, F>)
        ensures
            r.frame() == self.frame(),
            r.buffer() == self.buffer(),
            self.wf() ==> r.wf(),
    {
        match self {
            VecCow::Borrowed(v) => v.view(),
            VecCow::Owned(v) => v.view(),
        }
    }
}

} // verus!
