//! Serving a request on an operand of the wrong order by asking for another
//! operation on its transpose.
use crate::error::BLASError;
use crate::flags::BLASTranspose;
use crate::frame::Frame;
use crate::layout::{col_walkable, is_col_walkable, is_row_walkable, row_walkable};
use crate::matrix::{conj_if, gathered, MatCow, MatRef};
use crate::scalar::BLASFloat;
use vstd::prelude::*;

verus! {

/// The elements have to be conjugated as the operand is turned: where the
/// element type is complex, the request is a conjugate transpose, or no
/// transpose of a Hermitian operation. Real elements are their own
/// conjugates, so a conjugate transpose of them is an ordinary one.
pub open spec fn conj_needed(trans: BLASTranspose, hermi: bool, complex: bool) -> bool {
    complex && (trans is ConjTrans || (trans is NoTrans && hermi))
}

/// What `flip_trans_fpref` answers for an operand of geometry `frame`: the
/// flag to go on with, whether the operand comes back turned, whether its
/// elements are conjugated, and whether a copy is made.
pub struct Flip {
    pub trans: BLASTranspose,
    pub turned: bool,
    pub conj: bool,
    pub copy: bool,
}

/// The rule for a column-major call. An operand that a column-major kernel
/// can take keeps its flag, and comes back as the row-major view of its
/// transpose, without a copy. Any other operand has its flag flipped and
/// comes back as it is: without a copy if a row-major kernel could take it
/// and it needs no conjugation, else as a fresh row-major copy.
pub open spec fn flip_fpref(
    frame: Frame,
    trans: BLASTranspose,
    hermi: bool,
    complex: bool,
) -> Flip {
    if col_walkable(frame.shape(), frame.steps()) {
        Flip { trans, turned: true, conj: false, copy: false }
    } else {
        let conj = conj_needed(trans, hermi, complex);
        Flip {
            trans: trans.flipped(hermi),
            turned: false,
            conj,
            copy: conj || !row_walkable(frame.shape(), frame.steps()),
        }
    }
}

/// The rule for a row-major call: the mirror image, which is the rule for a
/// column-major call on the transposed operand.
pub open spec fn flip_cpref(
    frame: Frame,
    trans: BLASTranspose,
    hermi: bool,
    complex: bool,
) -> Flip {
    let f = flip_fpref(frame.swapped(), trans, hermi, complex);
    Flip { trans: f.trans, turned: !f.turned, conj: f.conj, copy: f.copy }
}

/// The geometry of the operand that a flip hands on: that of the view, or
/// of its transpose where the flip turns it.
pub open spec fn flip_source(frame: Frame, flip: Flip) -> Frame {
    if flip.turned {
        frame.swapped()
    } else {
        frame
    }
}

/// `got` holds the elements that lie in `buffer` by `source`, conjugated
/// where `conj` says so: in that very buffer, or in a fresh row-major one
/// where `copy` says so. Either way a row-major kernel could take it.
pub open spec fn serves<F: BLASFloat>(
    buffer: Seq<F>,
    source: Frame,
    conj: bool,
    copy: bool,
    got: MatCow<'_, F>,
) -> bool {
    &&& got.wf()
    &&& got.frame().shape() == source.shape()
    &&& row_walkable(got.frame().shape(), got.frame().steps())
    &&& got is Owned <==> copy
    &&& got is Borrowed ==> got.frame() == source && got.buffer() == buffer
    &&& got is Owned ==> got.frame() == Frame::row_major(source.d0, source.d1) && got.buffer()
        == gathered(buffer, source, conj)
    &&& forall|i: int, j: int| #[trigger]
        source.holds(i, j) ==> got.at(i, j) == conj_if(buffer[source.offset(i, j)], conj)
}

/// `got` is what the rule `flip` makes of `view`: the operand itself or its
/// transpose, conjugated or not, in the caller's buffer or in a fresh
/// row-major one.
pub open spec fn flip_result<F: BLASFloat>(
    view: MatRef<'_, F>,
    flip: Flip,
    got: MatCow<'_, F>,
) -> bool {
    serves(view.buffer(), flip_source(view.frame(), flip), flip.conj, flip.copy, got)
}

/// Prepares an operand for a column-major call, avoiding a copy wherever a
/// changed flag can stand for it. The transpose of what comes back is what
/// the kernel is handed, with the flag that comes back.
///
/// A copy that is needed cannot be made if the elements cannot be counted.
pub fn flip_trans_fpref<'a, F: BLASFloat>(
    trans: BLASTranspose,
    view: &MatRef<'a, F>,
    hermi: bool,
) -> (r: Result<(BLASTranspose, MatCow<'a, F>), BLASError>)
    requires
        view.wf(),
    ensures
        r is Err <==> flip_fpref(view.frame(), trans, hermi, F::complex()).copy && view.frame().d0
            * view.frame().d1 > isize::MAX,
        r matches Err(e) ==> e == BLASError::BufferSize,
        r matches Ok(p) ==> p.0 == flip_fpref(view.frame(), trans, hermi, F::complex()).trans
            && flip_result(*view, flip_fpref(view.frame(), trans, hermi, F::complex()), p.1),
{
    if is_col_walkable(view.dim(), view.strides()) {
        let turned = view.t();
        return Ok((trans, MatCow::Borrowed(turned)));
    }
    let conj = F::is_complex() && match trans {
        BLASTranspose::ConjTrans => true,
        BLASTranspose::NoTrans => hermi,
        BLASTranspose::Trans => false,
    };
    if !conj && is_row_walkable(view.dim(), view.strides()) {
        return Ok((trans.flip(hermi), MatCow::Borrowed(view.view())));
    }
    match view.copied(conj) {
        Some(m) => {
            proof {
                Frame::lemma_row_major(view.frame().d0, view.frame().d1);
            }
            Ok((trans.flip(hermi), MatCow::Owned(m)))
        },
        None => Err(BLASError::BufferSize),
    }
}

/// Prepares an operand for a row-major call: the mirror image of
/// `flip_trans_fpref`. The transpose of what comes back is what a
/// column-major kernel is handed once the whole call has been turned.
pub fn flip_trans_cpref<'a, F: BLASFloat>(
    trans: BLASTranspose,
    view: &MatRef<'a, F>,
    hermi: bool,
) -> (r: Result<(BLASTranspose, MatCow<'a, F>), BLASError>)
    requires
        view.wf(),
    ensures
        r is Err <==> flip_cpref(view.frame(), trans, hermi, F::complex()).copy && view.frame().d0
            * view.frame().d1 > isize::MAX,
        r matches Err(e) ==> e == BLASError::BufferSize,
        r matches Ok(p) ==> p.0 == flip_cpref(view.frame(), trans, hermi, F::complex()).trans
            && flip_result(*view, flip_cpref(view.frame(), trans, hermi, F::complex()), p.1),
{
    proof {
        assert(view.frame().d0 * view.frame().d1 == view.frame().d1 * view.frame().d0)
            by (nonlinear_arith);
    }
    let turned = view.t();
    flip_trans_fpref(trans, &turned, hermi)
}

} // verus!
