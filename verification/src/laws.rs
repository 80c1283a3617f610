//! What holds of the dispatch as a whole.
use crate::blas2::tpsv::{TPSVFunc, TPSV_Driver, TPSV_};
use crate::blas3::syrk::{op_entry, shadow_needed, trans_allowed, SYRKFunc, SYRK_};
use crate::error::BLASError;
use crate::flags::BLASTranspose;
use crate::flip::{flip_cpref, flip_fpref};
use crate::frame::Frame;
use crate::layout::{col_walkable, layout_of, row_walkable};
use crate::matrix::conj_if;
use crate::scalar::{conj_lawful, BLASFloat, BLASSymmetric};
use vstd::prelude::*;

verus! {

/// A shape without elements or with a single one.
pub open spec fn degenerate(shape: (usize, usize)) -> bool {
    shape.0 == 0 || shape.1 == 0 || (shape.0 == 1 && shape.1 == 1)
}

/// The classification is total and exact: `Sequential` for the degenerate
/// shapes and for no other; of the rest `RowMajor` for unit stride along the
/// second axis, `ColMajor` for unit stride along the first axis alone, and
/// `NonContiguous` where neither stride is one.
pub proof fn lemma_classification(shape: (usize, usize), strides: (isize, isize))
    ensures
        layout_of(shape, strides) is Sequential <==> degenerate(shape),
        layout_of(shape, strides) is RowMajor <==> !degenerate(shape) && strides.1 == 1,
        layout_of(shape, strides) is ColMajor <==> !degenerate(shape) && strides.1 != 1
            && strides.0 == 1,
        layout_of(shape, strides) is NonContiguous <==> !degenerate(shape) && strides.1 != 1
            && strides.0 != 1,
{
}

/// An operand that is already in the layout of the call is never copied: in
/// a column-major call an operand that a column-major kernel can take, in a
/// row-major call one that a row-major kernel could take, whatever the flag.
pub proof fn lemma_zero_copy(frame: Frame, trans: BLASTranspose, hermi: bool, complex: bool)
    ensures
        col_walkable(frame.shape(), frame.steps()) ==> !flip_fpref(
            frame,
            trans,
            hermi,
            complex,
        ).copy,
        row_walkable(frame.shape(), frame.steps()) ==> !flip_cpref(
            frame,
            trans,
            hermi,
            complex,
        ).copy,
{
}

/// The strides are such as an array has that lies in a buffer row after row
/// or column after column, with or without padding: the array has no
/// element, or along an axis of more than one index the step is at least
/// one, and where both axes have more than one index, the step that is not
/// one is no less than the extent of the other axis.
pub open spec fn proper(frame: Frame) -> bool {
    frame.empty() || {
        &&& frame.d0 <= 1 || frame.s0 >= 1
        &&& frame.d1 <= 1 || frame.s1 >= 1
        &&& frame.d0 <= 1 || frame.d1 <= 1 || ((frame.s0 != 1 || frame.s1 >= frame.d0) && (
        frame.s1 != 1 || frame.s0 >= frame.d1))
    }
}

/// With proper strides an operand that prefers an order is one that a kernel
/// of that order can take. Strides that make rows or columns overlap or run
/// backwards are the ones that no kernel takes.
pub proof fn lemma_preferred_is_walkable(frame: Frame)
    requires
        proper(frame),
    ensures
        layout_of(frame.shape(), frame.steps()).fpref() ==> col_walkable(
            frame.shape(),
            frame.steps(),
        ),
        layout_of(frame.shape(), frame.steps()).cpref() ==> row_walkable(
            frame.shape(),
            frame.steps(),
        ),
{
}

/// In a rank-k update neither operand is copied or shadowed when a kernel of
/// the order of the call can take it: the kernel is handed the caller's own
/// buffers.
pub proof fn lemma_update_zero_copy<F: BLASFloat, S: BLASSymmetric>(req: SYRK_<'_, '_, F, S>)
    ensures
        req.target() is ColMajor && col_walkable(req.a.frame().shape(), req.a.frame().steps())
            ==> !req.flip().copy && req.kernel_a_buffer() == req.a.buffer(),
        req.target() is RowMajor && row_walkable(req.a.frame().shape(), req.a.frame().steps())
            ==> !req.flip().copy && req.kernel_a_buffer() == req.a.buffer(),
        req.c matches Some(c) && req.target() is ColMajor && col_walkable(
            c.frame().shape(),
            c.frame().steps(),
        ) ==> !shadow_needed(req.kernel_c()) && req.kernel_c_buffer() == req.c_buffer(),
        req.c matches Some(c) && req.target() is RowMajor && row_walkable(
            c.frame().shape(),
            c.frame().steps(),
        ) ==> !shadow_needed(req.kernel_c()) && req.kernel_c_buffer() == req.c_buffer(),
{
}

/// In a solve a packed triangle without gaps is never copied: the kernel is
/// handed the caller's own buffer, and the vector is always the caller's.
pub proof fn lemma_solve_zero_copy<'a, 'x, F: BLASFloat>(
    req: TPSV_<'a, 'x, F>,
    d: TPSV_Driver<'a, 'x, F>,
)
    requires
        req.ap.frame().standard(),
        req.prepared(d),
    ensures
        d.ap is Borrowed,
        d.ap.buffer() == req.ap.buffer(),
        d.ap.frame() == req.ap.frame(),
        d.x is ViewMut,
        d.x.buffer() == req.x.buffer(),
{
}

/// An update is never refused for the layout of its operands: whatever a
/// kernel cannot walk is turned or copied on the way. What a dispatch can
/// fail with is a flag that the kernels do not take, an output of the wrong
/// shape, or a number that cannot be counted or handed on.
pub proof fn lemma_update_any_layout<F: BLASFloat, S: BLASSymmetric>(req: SYRK_<'_, '_, F, S>)
    ensures
        req.run_failure() != Some(BLASError::OperandLayout),
        req.run_failure() != Some(BLASError::LayoutHint),
        req.run_failure() != Some(BLASError::PackedLength),
        req.run_failure() != Some(BLASError::Increment),
{
    let f = req.a.frame();
    assert(f.d0 * f.d1 == f.d1 * f.d0) by (nonlinear_arith);
    if f.d0 * f.d1 <= isize::MAX {
        Frame::lemma_row_major(f.d0, f.d1);
        Frame::lemma_row_major(f.d1, f.d0);
    }
}

/// A solve is never refused for the layout of its operands either: a packed
/// triangle with gaps is copied first.
pub proof fn lemma_solve_any_layout<F: BLASFloat>(req: TPSV_<'_, '_, F>)
    ensures
        req.run_failure() != Some(BLASError::OperandLayout),
        req.run_failure() != Some(BLASError::LayoutHint),
        req.run_failure() != Some(BLASError::Transpose),
{
    if !req.ap.frame().standard() && req.ap.frame().d0 <= isize::MAX {
        assert(req.ap.frame().d0 * 1 == req.ap.frame().d0);
        Frame::lemma_row_major(req.ap.frame().d0, 1);
    }
}

/// The matrix that the kernel multiplies is the matrix that the caller asked
/// for. In a column-major call `op(A)` as the kernel sees it is `op(A)` as
/// the caller means it. In a row-major call the kernel writes the transpose
/// of the result, which for a Hermitian update is its conjugate: there the
/// kernel sees the conjugate of `op(A)`.
pub proof fn lemma_update_operand<F: BLASFloat, S: BLASSymmetric>(
    req: SYRK_<'_, '_, F, S>,
    i: int,
    l: int,
)
    requires
        conj_lawful::<F>(),
        trans_allowed(req.trans, F::complex(), S::hermitian()),
        0 <= i < req.n(),
        0 <= l < req.k(),
    ensures
        op_entry(req.kernel_trans(), |p: int, q: int| req.kernel_entry(p, q), i, l) == conj_if(
            op_entry(req.trans, |p: int, q: int| req.a.at(p, q), i, l),
            S::hermitian() && !(req.target() is ColMajor),
        ),
{
}

/// In a row-major call the kernel is asked for the other triangle, and finds
/// entry `(i, j)` of its output where the caller's matrix has entry `(j, i)`:
/// the triangle that the caller named is the one that is written.
pub proof fn lemma_update_triangle<F: BLASFloat, S: BLASSymmetric>(
    req: SYRK_<'_, '_, F, S>,
    i: int,
    j: int,
)
    requires
        req.c is Some,
    ensures
        req.target() is ColMajor ==> req.kernel_uplo() == req.uplo && req.kernel_c()->Some_0.offset(
            i,
            j,
        ) == req.c->Some_0.frame().offset(i, j),
        !(req.target() is ColMajor) ==> req.kernel_uplo() == req.uplo.flipped()
            && req.kernel_c()->Some_0.offset(i, j) == req.c->Some_0.frame().offset(j, i),
{
}

/// A matrix that lies in a buffer row after row is its transpose lying
/// there column after column: a row-major update comes to the very call
/// that the column-major update on the transposed views of the same buffers
/// comes to, with the other triangle and the flipped flag. It fails where
/// that one fails, and the kernel leaves in its buffer what it leaves there.
pub proof fn lemma_update_flip<'a, 'c, F: BLASFloat, S: BLASSymmetric, K: SYRKFunc<F, S>>(
    row: SYRK_<'a, 'c, F, S>,
    col: SYRK_<'a, 'c, F, S>,
    kernel: K,
)
    requires
        trans_allowed(row.trans, F::complex(), S::hermitian()),
        row.target() is RowMajor,
        col.target() is ColMajor,
        col.a.frame() == row.a.frame().swapped(),
        col.a.buffer() == row.a.buffer(),
        row.c is Some <==> col.c is Some,
        row.c matches Some(c) ==> col.c->Some_0.frame() == c.frame().swapped()
            && col.c->Some_0.buffer() == c.buffer(),
        col.uplo == row.uplo.flipped(),
        col.trans == row.trans.flipped(S::hermitian()),
        col.alpha == row.alpha,
        col.beta == row.beta,
    ensures
        row.run_failure() == col.run_failure(),
        row.written(kernel) == col.written(kernel),
        row.kernel_after(kernel) == col.kernel_after(kernel),
{
    let f = row.a.frame();
    assert(f.d0 * f.d1 == f.d1 * f.d0) by (nonlinear_arith);
    assert(f.swapped().swapped() == f);
    assert(row.flip().copy == col.flip().copy);
    assert(row.flip().conj == col.flip().conj);
    assert(row.kernel_trans() == col.kernel_trans());
    assert(row.kernel_a() == col.kernel_a());
    assert(row.kernel_c() == col.kernel_c());
    assert(row.kernel_a_buffer() == col.kernel_a_buffer());
    assert(row.kernel_c_buffer() == col.kernel_c_buffer());
}

/// A triangle packed row by row is its transpose packed column by column: a
/// row-major solve with a triangle and a flag, transposed or not, comes to
/// the very call that the column-major solve with the other triangle and the
/// other flag comes to, fails where that one fails, and leaves in the vector
/// what that one leaves.
pub proof fn lemma_solve_flip<'a, 'x, F: BLASFloat, K: TPSVFunc<F>>(
    row: TPSV_<'a, 'x, F>,
    col: TPSV_<'a, 'x, F>,
    d: TPSV_Driver<'a, 'x, F>,
    kernel: K,
)
    requires
        row.ap == col.ap,
        row.x == col.x,
        row.diag == col.diag,
        row.target() is RowMajor,
        col.target() is ColMajor,
        row.trans is NoTrans || row.trans is Trans,
        col.uplo == row.uplo.flipped(),
        col.trans == row.trans.flipped(false),
    ensures
        row.run_failure() == col.run_failure(),
        row.prepared(d) <==> col.prepared(d),
        row.outcome(kernel) == col.outcome(kernel),
        row.kernel_after(kernel) == col.kernel_after(kernel),
{
}

/// A solve for the conjugate transpose is a solve for the transpose on the
/// conjugated vector, conjugated back: in a row-major call on complex
/// elements the kernel is asked for no transpose of the other triangle, and
/// the vector is conjugated before and after.
pub proof fn lemma_solve_conj<F: BLASFloat>(req: TPSV_<'_, '_, F>)
    requires
        req.trans is ConjTrans,
    ensures
        req.target() is ColMajor ==> req.kernel_trans() is ConjTrans && req.kernel_uplo()
            == req.uplo && !req.solution_conj(),
        !(req.target() is ColMajor) ==> req.kernel_trans() is NoTrans && req.kernel_uplo()
            == req.uplo.flipped() && req.solution_conj() == F::complex(),
{
}

} // verus!
