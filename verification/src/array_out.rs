//! The output of a dispatch: written in place, freshly made, or shadowed.
use crate::frame::Frame;
use crate::matrix::{MatMut, MatOwned, MatRef};
use crate::scalar::BLASFloat;
use crate::vector::{VecMut, VecOwned, VecRef};
use vstd::prelude::*;

verus! {

/// The buffer a kernel writes its result to, in one of three states.
///
/// `ViewMut` is the caller's own view: the kernel writes into the caller's
/// memory. `Owned` is a fresh buffer that nobody else sees. `ToBeCloned`
/// holds the caller's view together with a shadow buffer of the same shape:
/// the kernel writes into the shadow, and the shadow is copied into the
/// caller's view once, when the container is brought back to `ViewMut`.
pub enum ArrayOut<V, O> {
    ViewMut(V),
    Owned(O),
    ToBeCloned(V, O),
}

/// The output container of a vector.
pub type ArrayOut1<'a, F> = ArrayOut<VecMut<'a, F>, VecOwned<F>>;

/// The output container of a matrix.
pub type ArrayOut2<'a, F> = ArrayOut<MatMut<'a, F>, MatOwned<F>>;

impl<V, O> ArrayOut<V, O> {
    /// The result ends up in the caller's memory.
    pub fn is_view_mut(&self) -> (r: bool)
        ensures
            r == (self is ViewMut || self is ToBeCloned),
    {
        match self {
            ArrayOut::ViewMut(_) => true,
            ArrayOut::Owned(_) => false,
            ArrayOut::ToBeCloned(_, _) => true,
        }
    }

    /// The result ends up in a buffer of its own.
    pub fn is_owned(&self) -> (r: bool)
        ensures
            r == (self is Owned),
    {
        match self {
            ArrayOut::ViewMut(_) => false,
            ArrayOut::Owned(_) => true,
            ArrayOut::ToBeCloned(_, _) => false,
        }
    }
}

impl<'a, F: BLASFloat> ArrayOut<MatMut<'a, F>, MatOwned<F>> {
    /// Each buffer is well formed, and a shadow has the shape of the view it
    /// stands in for.
    pub open spec fn wf(&self) -> bool {
        match self {
            ArrayOut::ViewMut(v) => v.wf(),
            ArrayOut::Owned(o) => o.wf(),
            ArrayOut::ToBeCloned(v, o) => v.wf() && o.wf() && v.frame().shape()
                == o.frame().shape(),
        }
    }

    /// The geometry of the buffer that the kernel writes: the shadow where
    /// there is one.
    pub open spec fn frame(&self) -> Frame {
        match self {
            ArrayOut::ViewMut(v) => v.frame(),
            ArrayOut::Owned(o) => o.frame(),
            ArrayOut::ToBeCloned(_, o) => o.frame(),
        }
    }

    /// All of the buffer that the kernel writes.
    pub open spec fn buffer(&self) -> Seq<F> {
        match self {
            ArrayOut::ViewMut(v) => v.buffer(),
            ArrayOut::Owned(o) => o.buffer(),
            ArrayOut::ToBeCloned(_, o) => o.buffer(),
        }
    }

    /// Element `(i, j)` of the buffer that the kernel writes.
    pub open spec fn at(&self, i: int, j: int) -> F {
        self.buffer()[self.frame().offset(i, j)]
    }

    /// The geometry of the buffer in which the result ends up: the caller's
    /// view where there is one, the owned buffer otherwise.
    pub open spec fn home(&self) -> Frame {
        match self {
            ArrayOut::ViewMut(v) => v.frame(),
            ArrayOut::Owned(o) => o.frame(),
            ArrayOut::ToBeCloned(v, _) => v.frame(),
        }
    }

    /// The length of the buffer in which the result ends up.
    pub open spec fn home_len(&self) -> nat {
        match self {
            ArrayOut::ViewMut(v) => v.buffer().len(),
            ArrayOut::Owned(o) => o.buffer().len(),
            ArrayOut::ToBeCloned(v, _) => v.buffer().len(),
        }
    }

    /// The borrow of the caller's buffer in which the result ends up, where
    /// it ends up in one.
    pub open spec fn home_cell(&self) -> &mut [F]
        recommends
            !(self is Owned),
    {
        match self {
            ArrayOut::ViewMut(v) => v.cell(),
            ArrayOut::ToBeCloned(v, _) => v.cell(),
            ArrayOut::Owned(_) => arbitrary(),
        }
    }

    /// `after` is this container settled: a shadow has been copied into the
    /// caller's view and dropped, and the other two states are as they were.
    pub open spec fn settles_to(&self, after: Self) -> bool {
        match *self {
            ArrayOut::ToBeCloned(v, o) => {
                &&& after matches ArrayOut::ViewMut(w)
                &&& w.frame() == v.frame()
                &&& w.buffer().len() == v.buffer().len()
                &&& forall|i: int, j: int| #[trigger]
                    v.frame().holds(i, j) ==> w.at(i, j) == o.at(i, j)
                &&& forall|k: int|
                    0 <= k < v.buffer().len() && !v.frame().covers(k) ==> w.buffer()[k]
                        == v.buffer()[k]
            },
            _ => after == *self,
        }
    }

    /// `after` is where the result of this container ends up, `turned` or
    /// not: settled, owned if and only if this container is, in the buffer
    /// that is the result's home and with its geometry. Of the values nothing
    /// is said.
    pub open spec fn lands_in(&self, after: Self, turned: bool) -> bool {
        &&& after is Owned <==> *self is Owned
        &&& after is ViewMut <==> !(*self is Owned)
        &&& after.buffer().len() == self.home_len()
        &&& after.frame() == if turned {
            self.home().swapped()
        } else {
            self.home()
        }
    }

    /// `after`, `turned` or not, holds the values that the kernel's buffer
    /// of this container holds.
    pub open spec fn kept_in(&self, after: Self, turned: bool) -> bool {
        forall|i: int, j: int| #[trigger]
            self.frame().holds(i, j) ==> self.at(i, j) == if turned {
                after.at(j, i)
            } else {
                after.at(i, j)
            }
    }

    /// `after`, `turned` or not, has taken in what a kernel left in
    /// `buffer`, the buffer of this container that a kernel writes. Without
    /// a shadow `buffer` is the buffer of `after`. With one, each element of
    /// `after` is the one that `buffer` has for it, and the places of the
    /// caller's buffer between the elements are as they were.
    pub open spec fn took_in(&self, after: Self, turned: bool, buffer: Seq<F>) -> bool {
        match *self {
            ArrayOut::ToBeCloned(v, o) => {
                &&& forall|i: int, j: int| #[trigger]
                    o.frame().holds(i, j) ==> buffer[o.frame().offset(i, j)] == if turned {
                        after.at(j, i)
                    } else {
                        after.at(i, j)
                    }
                &&& forall|k: int|
                    0 <= k < v.buffer().len() && !v.frame().covers(k) ==> after.buffer()[k]
                        == v.buffer()[k]
            },
            _ => after.buffer() == buffer,
        }
    }

    /// A shared view of the buffer that the kernel writes.
    pub fn view(&self) -> (r: MatRef<'_, F>)
        ensures
            r.frame() == self.frame(),
            r.buffer() == self.buffer(),
            self.wf() ==> r.wf(),
    {
        match self {
            ArrayOut::ViewMut(v) => v.view(),
            ArrayOut::Owned(o) => o.view(),
            ArrayOut::ToBeCloned(_, o) => o.view(),
        }
    }

    /// An exclusive view of the buffer that the kernel writes. The container
    /// keeps its state, and what is written through the view shows in it
    /// afterwards.
    pub fn view_mut(&mut self) -> (r: MatMut<'_, F>)
        ensures
            r.frame() == old(self).frame(),
            r.buffer() == old(self).buffer(),
            final(self).frame() == old(self).frame(),
            final(self).buffer() == final(r.cell())@,
            *old(self) is ViewMut <==> *final(self) is ViewMut,
            *old(self) is Owned <==> *final(self) is Owned,
            *old(self) is ToBeCloned <==> *final(self) is ToBeCloned,
            *old(self) matches ArrayOut::ToBeCloned(v, _) ==> final(self)->ToBeCloned_0 == v,
            !(*old(self) is Owned) ==> final(final(self).home_cell())@
                == final(old(self).home_cell())@,
    {
        match self {
            ArrayOut::ViewMut(v) => v.view_mut(),
            ArrayOut::Owned(o) => o.view_mut(),
            ArrayOut::ToBeCloned(_, o) => o.view_mut(),
        }
    }

    /// The buffer that the kernel writes, all of it. The container keeps its
    /// state, its geometry and a shadowed view; what is written shows in it
    /// afterwards.
    pub fn as_mut_slice(&mut self) -> (r: &mut [F])
        ensures
            r@ == old(self).buffer(),
            final(self).frame() == old(self).frame(),
            final(self).buffer() == final(r)@,
            *old(self) is ViewMut <==> *final(self) is ViewMut,
            *old(self) is Owned <==> *final(self) is Owned,
            *old(self) is ToBeCloned <==> *final(self) is ToBeCloned,
            *old(self) matches ArrayOut::ToBeCloned(v, _) ==> final(self)->ToBeCloned_0 == v,
            !(*old(self) is Owned) ==> final(final(self).home_cell())@
                == final(old(self).home_cell())@,
    {
        match self {
            ArrayOut::ViewMut(v) => v.as_mut_slice(),
            ArrayOut::Owned(o) => o.as_mut_slice(),
            ArrayOut::ToBeCloned(_, o) => o.as_mut_slice(),
        }
    }

    /// Settles a shadowed output: the shadow is copied into the caller's
    /// view, element by element, and the view alone is kept. The other two
    /// states come back as they are.
    pub fn clone_to_view_mut(self) -> (r: Self)
        requires
            self.wf(),
        ensures
            r.wf(),
            self.settles_to(r),
            self.lands_in(r, false),
            self.kept_in(r, false),
            !(self is Owned) ==> final(r.home_cell())@ == final(self.home_cell())@,
    {
        match self {
            ArrayOut::ToBeCloned(mut v, o) => {
                v.assign(&o.view());
                proof {
                    assert forall|i: int, j: int| #[trigger]
                        o.frame().holds(i, j) implies o.at(i, j) == v.at(i, j) by {
                        assert(v.frame().holds(i, j));
                    }
                }
                ArrayOut::ViewMut(v)
            },
            other => other,
        }
    }

    /// The result as a matrix of its own. A shadow is first copied into the
    /// caller's view and then given out; a caller's view is copied, row by
    /// row, which cannot be done if its elements cannot be counted.
    pub fn into_owned(self) -> (r: Option<MatOwned<F>>)
        requires
            self.wf(),
        ensures
            r is Some <==> !(self is ViewMut) || self.frame().d0 * self.frame().d1 <= isize::MAX,
            r matches Some(m) ==> {
                &&& m.wf()
                &&& m.frame().shape() == self.frame().shape()
                &&& forall|i: int, j: int| #[trigger]
                    self.frame().holds(i, j) ==> m.at(i, j) == self.at(i, j)
                &&& self is ViewMut ==> m.frame() == Frame::row_major(
                    self.frame().d0,
                    self.frame().d1,
                )
                &&& self matches ArrayOut::Owned(o) ==> m == o
                &&& self matches ArrayOut::ToBeCloned(_, o) ==> m == o
            },
            self matches ArrayOut::ViewMut(v) ==> final(v.cell())@ == v.buffer(),
            self matches ArrayOut::ToBeCloned(v, o) ==> forall|i: int, j: int| #[trigger]
                v.frame().holds(i, j) ==> final(v.cell())@[v.frame().offset(i, j)] == o.at(i, j),
    {
        match self {
            ArrayOut::ViewMut(v) => {
                let copy = v.view().copied(false);
                proof {
                    v.lemma_laid_down();
                }
                copy
            },
            ArrayOut::Owned(o) => Some(o),
            ArrayOut::ToBeCloned(mut v, o) => {
                v.assign(&o.view());
                proof {
                    v.lemma_laid_down();
                    assert forall|i: int, j: int| #[trigger]
                        v.frame().holds(i, j) implies v.at(i, j) == o.at(i, j) by {}
                }
                Some(o)
            },
        }
    }

    /// The output with its two axes exchanged. A shadow is settled first, so
    /// that no view is ever paired with a shadow of another shape.
    pub fn reversed_axes(self) -> (r: Self)
        requires
            self.wf(),
        ensures
            r.wf(),
            self.lands_in(r, true),
            self.kept_in(r, true),
            self matches ArrayOut::ViewMut(v) ==> r matches ArrayOut::ViewMut(w) && w.frame()
                == v.frame().swapped() && w.buffer() == v.buffer(),
            self matches ArrayOut::Owned(o) ==> r matches ArrayOut::Owned(w) && w.frame()
                == o.frame().swapped() && w.buffer() == o.buffer(),
            self matches ArrayOut::ToBeCloned(v, o) ==> r matches ArrayOut::ViewMut(w) && w.frame()
                == v.frame().swapped() && w.buffer().len() == v.buffer().len(),
            !(self is Owned) ==> final(r.home_cell())@ == final(self.home_cell())@,
    {
        match self {
            ArrayOut::ViewMut(v) => {
                ArrayOut::ViewMut(v.reversed_axes())
            },
            ArrayOut::Owned(o) => {
                proof {
                    o.frame().lemma_swapped(o.buffer().len());
                }
                ArrayOut::Owned(o.reversed_axes())
            },
            ArrayOut::ToBeCloned(mut v, o) => {
                v.assign(&o.view());
                proof {
                    v.frame().lemma_swapped(v.buffer().len());
                    assert forall|i: int, j: int| #[trigger]
                        o.frame().holds(i, j) implies v.at(i, j) == o.at(i, j) by {
                        assert(v.frame().holds(i, j));
                    }
                }
                ArrayOut::ViewMut(v.reversed_axes())
            },
        }
    }
}

impl<'a, F: BLASFloat> ArrayOut<VecMut<'a, F>, VecOwned<F>> {
    /// Each buffer is well formed, and a shadow has the length of the view
    /// it stands in for.
    pub open spec fn wf(&self) -> bool {
        match self {
            ArrayOut::ViewMut(v) => v.wf(),
            ArrayOut::Owned(o) => o.wf(),
            ArrayOut::ToBeCloned(v, o) => v.wf() && o.wf() && v.frame().d0 == o.frame().d0,
        }
    }

    /// The geometry of the buffer that the kernel writes: the shadow where
    /// there is one.
    pub open spec fn frame(&self) -> Frame {
        match self {
            ArrayOut::ViewMut(v) => v.frame(),
            ArrayOut::Owned(o) => o.frame(),
            ArrayOut::ToBeCloned(_, o) => o.frame(),
        }
    }

    /// All of the buffer that the kernel writes.
    pub open spec fn buffer(&self) -> Seq<F> {
        match self {
            ArrayOut::ViewMut(v) => v.buffer(),
            ArrayOut::Owned(o) => o.buffer(),
            ArrayOut::ToBeCloned(_, o) => o.buffer(),
        }
    }

    /// Element `i` of the buffer that the kernel writes.
    pub open spec fn at(&self, i: int) -> F {
        self.buffer()[self.frame().offset(i, 0)]
    }

    /// The geometry of the buffer in which the result ends up: the caller's
    /// view where there is one, the owned buffer otherwise.
    pub open spec fn home(&self) -> Frame {
        match self {
            ArrayOut::ViewMut(v) => v.frame(),
            ArrayOut::Owned(o) => o.frame(),
            ArrayOut::ToBeCloned(v, _) => v.frame(),
        }
    }

    /// The length of the buffer in which the result ends up.
    pub open spec fn home_len(&self) -> nat {
        match self {
            ArrayOut::ViewMut(v) => v.buffer().len(),
            ArrayOut::Owned(o) => o.buffer().len(),
            ArrayOut::ToBeCloned(v, _) => v.buffer().len(),
        }
    }

    /// The borrow of the caller's buffer in which the result ends up, where
    /// it ends up in one.
    pub open spec fn home_cell(&self) -> &mut [F]
        recommends
            !(self is Owned),
    {
        match self {
            ArrayOut::ViewMut(v) => v.cell(),
            ArrayOut::ToBeCloned(v, _) => v.cell(),
            ArrayOut::Owned(_) => arbitrary(),
        }
    }

    /// `after` is this container settled: a shadow has been copied into the
    /// caller's view and dropped, and the other two states are as they were.
    pub open spec fn settles_to(&self, after: Self) -> bool {
        match *self {
            ArrayOut::ToBeCloned(v, o) => {
                &&& after matches ArrayOut::ViewMut(w)
                &&& w.frame() == v.frame()
                &&& w.buffer().len() == v.buffer().len()
                &&& forall|i: int| 0 <= i < v.frame().d0 ==> w.at(i) == #[trigger] o.at(i)
                &&& forall|k: int|
                    0 <= k < v.buffer().len() && !v.frame().covers(k) ==> w.buffer()[k]
                        == v.buffer()[k]
            },
            _ => after == *self,
        }
    }

    /// A shared view of the buffer that the kernel writes.
    pub fn view(&self) -> (r: VecRef<'_, F>)
        ensures
            r.frame() == self.frame(),
            r.buffer() == self.buffer(),
            self.wf() ==> r.wf(),
    {
        match self {
            ArrayOut::ViewMut(v) => v.view(),
            ArrayOut::Owned(o) => o.view(),
            ArrayOut::ToBeCloned(_, o) => o.view(),
        }
    }

    /// An exclusive view of the buffer that the kernel writes. The container
    /// keeps its state, and what is written through the view shows in it
    /// afterwards.
    pub fn view_mut(&mut self) -> (r: VecMut<'_, F>)
        ensures
            r.frame() == old(self).frame(),
            r.buffer() == old(self).buffer(),
            final(self).frame() == old(self).frame(),
            final(self).buffer() == final(r.cell())@,
            *old(self) is ViewMut <==> *final(self) is ViewMut,
            *old(self) is Owned <==> *final(self) is Owned,
            *old(self) is ToBeCloned <==> *final(self) is ToBeCloned,
            *old(self) matches ArrayOut::ToBeCloned(v, _) ==> final(self)->ToBeCloned_0 == v,
            !(*old(self) is Owned) ==> final(final(self).home_cell())@
                == final(old(self).home_cell())@,
    {
        match self {
            ArrayOut::ViewMut(v) => v.view_mut(),
            ArrayOut::Owned(o) => o.view_mut(),
            ArrayOut::ToBeCloned(_, o) => o.view_mut(),
        }
    }

    /// The buffer that the kernel writes, all of it. The container keeps its
    /// state, its geometry and a shadowed view; what is written shows in it
    /// afterwards.
    pub fn as_mut_slice(&mut self) -> (r: &mut [F])
        ensures
            r@ == old(self).buffer(),
            final(self).frame() == old(self).frame(),
            final(self).buffer() == final(r)@,
            *old(self) is ViewMut <==> *final(self) is ViewMut,
            *old(self) is Owned <==> *final(self) is Owned,
            *old(self) is ToBeCloned <==> *final(self) is ToBeCloned,
            *old(self) matches ArrayOut::ToBeCloned(v, _) ==> final(self)->ToBeCloned_0 == v,
            !(*old(self) is Owned) ==> final(final(self).home_cell())@
                == final(old(self).home_cell())@,
    {
        match self {
            ArrayOut::ViewMut(v) => v.as_mut_slice(),
            ArrayOut::Owned(o) => o.as_mut_slice(),
            ArrayOut::ToBeCloned(_, o) => o.as_mut_slice(),
        }
    }

    /// Settles a shadowed output: the shadow is copied into the caller's
    /// view, element by element, and the view alone is kept. The other two
    /// states come back as they are.
    pub fn clone_to_view_mut(self) -> (r: Self)
        requires
            self.wf(),
        ensures
            r.wf(),
            self.settles_to(r),
            !(self is Owned) ==> final(r.home_cell())@ == final(self.home_cell())@,
    {
        match self {
            ArrayOut::ToBeCloned(mut v, o) => {
                let shadow = o.view();
                v.assign(&shadow);
                proof {
                    assert forall|i: int| 0 <= i < v.frame().d0 implies v.at(i) == #[trigger] o.at(
                        i,
                    ) by {
                        assert(v.at(i) == shadow.at(i));
                    }
                }
                ArrayOut::ViewMut(v)
            },
            other => other,
        }
    }

    /// The result as a vector of its own. A shadow is first copied into the
    /// caller's view and then given out; a caller's view is copied, which
    /// cannot be done if its elements cannot be counted.
    pub fn into_owned(self) -> (r: Option<VecOwned<F>>)
        requires
            self.wf(),
        ensures
            r is Some <==> !(self is ViewMut) || self.frame().d0 <= isize::MAX,
            r matches Some(m) ==> {
                &&& m.wf()
                &&& m.frame().d0 == self.frame().d0
                &&& forall|i: int| 0 <= i < self.frame().d0 ==> m.at(i) == #[trigger] self.at(i)
                &&& self is ViewMut ==> m.frame() == Frame::row_major(self.frame().d0, 1)
                &&& self matches ArrayOut::Owned(o) ==> m == o
                &&& self matches ArrayOut::ToBeCloned(_, o) ==> m == o
            },
            self matches ArrayOut::ViewMut(v) ==> final(v.cell())@ == v.buffer(),
            self matches ArrayOut::ToBeCloned(v, o) ==> forall|i: int|
                0 <= i < v.frame().d0 ==> final(v.cell())@[v.frame().offset(i, 0)] == #[trigger] o.at(
                    i,
                ),
    {
        match self {
            ArrayOut::ViewMut(v) => {
                let seen = v.view();
                let copy = seen.to_owned();
                proof {
                    v.lemma_laid_down();
                    if copy is Some {
                        let m = copy->Some_0;
                        assert forall|i: int| 0 <= i < self.frame().d0 implies m.at(i)
                            == #[trigger] self.at(i) by {
                            assert(m.at(i) == seen.at(i));
                            assert(seen.at(i) == v.at(i));
                        }
                    }
                }
                copy
            },
            ArrayOut::Owned(o) => Some(o),
            ArrayOut::ToBeCloned(mut v, o) => {
                let shadow = o.view();
                v.assign(&shadow);
                proof {
                    v.lemma_laid_down();
                    assert forall|i: int| 0 <= i < v.frame().d0 implies v.buffer()[v.frame().offset(
                        i,
                        0,
                    )] == #[trigger] o.at(i) by {
                        assert(v.at(i) == shadow.at(i));
                        assert(shadow.at(i) == o.at(i));
                    }
                }
                Some(o)
            },
        }
    }

    /// The output with its axes reversed. A vector has but one, so the
    /// output is only settled.
    pub fn reversed_axes(self) -> (r: Self)
        requires
            self.wf(),
        ensures
            r.wf(),
            self.settles_to(r),
            !(self is Owned) ==> final(r.home_cell())@ == final(self.home_cell())@,
    {
        self.clone_to_view_mut()
    }
}

} // verus!
