//! The symmetric and the Hermitian rank-k update,
//! `C := alpha op(A) op(A)' + beta C`.
use crate::array_out::{ArrayOut, ArrayOut2};
use crate::error::BLASError;
use crate::flags::{fits_int, BLASLayout, BLASTranspose, BLASUpLo};
use crate::frame::Frame;
use crate::flip::{flip_cpref, flip_fpref, flip_source, flip_trans_cpref, flip_trans_fpref, Flip};
use crate::layout::{col_walkable, elect_layout, elected, is_col_walkable, layout_of};
use crate::matrix::{conj_if, gathered, get_layout_array2, MatCow, MatMut, MatOwned, MatRef};
use crate::scalar::{BLASFloat, BLASHermi, BLASSymm, BLASSymmetric, Values};
use libc::{c_char, c_int};
use vstd::prelude::*;

verus! {

/// Where a column-major kernel looks for element `(i, j)` of a matrix that
/// starts at `start` and has leading dimension `ld`.
pub open spec fn col_offset(start: usize, ld: c_int, i: int, j: int) -> int {
    start + i + j * ld
}

/// `trans` is the character of a flag that the kernels of this element type
/// and flavour take.
pub open spec fn code_allowed(trans: c_char, complex: bool, hermi: bool) -> bool {
    ||| trans == BLASTranspose::NoTrans.code_of()
    ||| trans == BLASTranspose::Trans.code_of() && !(complex && hermi)
    ||| trans == BLASTranspose::ConjTrans.code_of() && !(complex && !hermi)
}

/// What a rank-k kernel may rely on when it is called: selectors it knows,
/// an update that is not empty, leading dimensions no less than the number
/// of rows of their matrices, and every element that it reads or writes
/// inside the buffers it is handed.
pub open spec fn syrk_call_ok(
    uplo: c_char,
    trans: c_char,
    n: c_int,
    k: c_int,
    a_len: nat,
    a_start: usize,
    lda: c_int,
    c_len: nat,
    c_start: usize,
    ldc: c_int,
    complex: bool,
    hermi: bool,
) -> bool {
    &&& uplo == BLASUpLo::Upper.code_of() || uplo == BLASUpLo::Lower.code_of()
    &&& code_allowed(trans, complex, hermi)
    &&& n >= 1
    &&& k >= 1
    &&& lda >= (if trans == BLASTranspose::NoTrans.code_of() {
        n
    } else {
        k
    })
    &&& ldc >= n
    &&& forall|i: int, j: int|
        0 <= i < (if trans == BLASTranspose::NoTrans.code_of() {
            n
        } else {
            k
        }) && 0 <= j < (if trans == BLASTranspose::NoTrans.code_of() {
            k
        } else {
            n
        }) ==> 0 <= #[trigger] col_offset(a_start, lda, i, j) < a_len
    &&& forall|i: int, j: int|
        0 <= i < n && 0 <= j < n ==> 0 <= #[trigger] col_offset(c_start, ldc, i, j) < c_len
}

/// The kernels of the rank-k update for one element type and one flavour,
/// symmetric or Hermitian. A kernel walks its matrices in column-major order
/// and writes the triangle of `c` that `uplo` names.
///
/// What a call leaves in the output and in the kernel itself has a name
/// here, `updated` and `called`, so that the dispatch can say which call it
/// made and what became of the result. An impl is believed on this point:
/// what a call leaves behind has to depend on the kernel and on the
/// arguments alone.
pub trait SYRKFunc<F: BLASFloat, S: BLASSymmetric>: Sized {
    /// What a call leaves in the buffer of the output matrix: the update in
    /// the triangle that `uplo` names, and whatever else the kernel writes.
    spec fn updated(
        &self,
        uplo: c_char,
        trans: c_char,
        n: c_int,
        k: c_int,
        alpha: S::HermitianFloat,
        a: Values<F>,
        a_start: usize,
        lda: c_int,
        beta: S::HermitianFloat,
        c: Values<F>,
        c_start: usize,
        ldc: c_int,
    ) -> Values<F>;

    /// The kernel after a call: one call further than it was.
    spec fn called(
        &self,
        uplo: c_char,
        trans: c_char,
        n: c_int,
        k: c_int,
        alpha: S::HermitianFloat,
        a: Values<F>,
        a_start: usize,
        lda: c_int,
        beta: S::HermitianFloat,
        c: Values<F>,
        c_start: usize,
        ldc: c_int,
    ) -> Self;

    /// Runs the kernel. `a` and `c` are whole buffers; element `(0, 0)` of
    /// each matrix lies at `a_start` and `c_start`.
    fn syrk(
        &mut self,
        uplo: c_char,
        trans: c_char,
        n: c_int,
        k: c_int,
        alpha: S::HermitianFloat,
        a: &[F],
        a_start: usize,
        lda: c_int,
        beta: S::HermitianFloat,
        c: &mut [F],
        c_start: usize,
        ldc: c_int,
    )
        requires
            syrk_call_ok(
                uplo,
                trans,
                n,
                k,
                a@.len(),
                a_start,
                lda,
                old(c)@.len(),
                c_start,
                ldc,
                F::complex(),
                S::hermitian(),
            ),
        ensures
            final(c)@.len() == old(c)@.len(),
            final(c)@ == old(self).updated(
                uplo,
                trans,
                n,
                k,
                alpha,
                a@,
                a_start,
                lda,
                beta,
                old(c)@,
                c_start,
                ldc,
            ),
            *final(self) == old(self).called(
                uplo,
                trans,
                n,
                k,
                alpha,
                a@,
                a_start,
                lda,
                beta,
                old(c)@,
                c_start,
                ldc,
            ),
    ;
}

/// The flag is one that the kernels of this element type and flavour take,
/// as `code_allowed` says of its character:
/// any for real elements, no transpose or transpose for a complex symmetric
/// update, no transpose or conjugate transpose for a Hermitian one.
pub open spec fn trans_allowed(trans: BLASTranspose, complex: bool, hermi: bool) -> bool {
    if !complex {
        true
    } else if hermi {
        trans is NoTrans || trans is ConjTrans
    } else {
        trans is NoTrans || trans is Trans
    }
}

/// Whether the flag is one that the kernels of this element type and flavour
/// take.
pub fn is_trans_allowed(trans: BLASTranspose, complex: bool, hermi: bool) -> (r: bool)
    ensures
        r == trans_allowed(trans, complex, hermi),
{
    if !complex {
        true
    } else if hermi {
        match trans {
            BLASTranspose::NoTrans => true,
            BLASTranspose::ConjTrans => true,
            BLASTranspose::Trans => false,
        }
    } else {
        match trans {
            BLASTranspose::NoTrans => true,
            BLASTranspose::Trans => true,
            BLASTranspose::ConjTrans => false,
        }
    }
}

/// The order `n` of the result and the inner dimension `k` of an update on an
/// operand of this shape.
pub open spec fn order_of(shape: (usize, usize), trans: BLASTranspose) -> (usize, usize) {
    if trans is NoTrans {
        (shape.0, shape.1)
    } else {
        (shape.1, shape.0)
    }
}

/// The least leading dimension that a kernel accepts for a matrix of this
/// shape: the number of rows, or one if there is none.
pub open spec fn least_leading(shape: (usize, usize)) -> int {
    if shape.0 == 0 {
        1
    } else {
        shape.0 as int
    }
}

/// The leading dimension that a kernel is told for a matrix of this shape
/// and these strides: the step from one column to the next, as the view has
/// it. Where there is no second column the step is never taken and may be
/// one that no kernel accepts; the kernel is then told the least that it
/// does accept.
pub open spec fn leading(shape: (usize, usize), strides: (isize, isize)) -> int {
    if shape.1 > 1 || strides.1 >= least_leading(shape) {
        strides.1 as int
    } else {
        least_leading(shape)
    }
}

/// The leading dimension of a fresh column-major buffer of order `n`.
pub open spec fn fresh_ld(n: usize) -> int {
    leading(Frame::col_major(n, n).shape(), Frame::col_major(n, n).steps())
}

/// An output matrix of this geometry has to be shadowed: a column-major
/// kernel cannot walk it.
pub open spec fn shadow_needed(c: Option<Frame>) -> bool {
    c matches Some(f) && !col_walkable(f.shape(), f.steps())
}

/// The leading dimension of the buffer that the kernel writes: that of the
/// caller's matrix where the kernel writes into it, that of a fresh
/// column-major buffer of order `n` otherwise.
pub open spec fn resolved_ldc(c: Option<Frame>, n: usize) -> int {
    if c is Some && !shadow_needed(c) {
        leading(c->Some_0.shape(), c->Some_0.steps())
    } else {
        fresh_ld(n)
    }
}

/// The first check of the inner builder that fails on an input matrix of
/// geometry `a` and an output matrix of geometry `c`, in the order in which
/// the checks are made, or none if the request can be resolved.
pub open spec fn resolve_failure(
    a: Frame,
    c: Option<Frame>,
    trans: BLASTranspose,
    layout: Option<BLASLayout>,
    complex: bool,
    hermi: bool,
) -> Option<BLASError> {
    let (n, k) = order_of(a.shape(), trans);
    if layout != Some(BLASLayout::ColMajor) {
        Some(BLASError::LayoutHint)
    } else if !col_walkable(a.shape(), a.steps()) {
        Some(BLASError::OperandLayout)
    } else if !trans_allowed(trans, complex, hermi) {
        Some(BLASError::Transpose)
    } else if c is Some && c->Some_0.shape() != (n, n) {
        Some(BLASError::OutputShape)
    } else if !fits_int(n as int) {
        Some(BLASError::DimN)
    } else if !fits_int(k as int) {
        Some(BLASError::DimK)
    } else if !fits_int(leading(a.shape(), a.steps())) {
        Some(BLASError::LeadingDimA)
    } else if (c is None || shadow_needed(c)) && n * n > isize::MAX {
        Some(BLASError::BufferSize)
    } else if !fits_int(resolved_ldc(c, n)) {
        Some(BLASError::LeadingDimC)
    } else {
        None
    }
}

/// `out` is the container that an output matrix of geometry `frame` in
/// `buffer`, or none, resolves to for an update of order `n`: the caller's
/// matrix where a column-major kernel can write into it; the caller's matrix
/// shadowed by a column-major copy of it where not; a fresh column-major
/// matrix of zeros where the caller gave none.
pub open spec fn resolved_output<F: BLASFloat>(
    frame: Option<Frame>,
    buffer: Seq<F>,
    n: usize,
    out: ArrayOut2<'_, F>,
) -> bool {
    match frame {
        Some(f) => if shadow_needed(frame) {
            &&& out matches ArrayOut::ToBeCloned(v, o)
            &&& v.frame() == f
            &&& v.buffer() == buffer
            &&& o.frame() == Frame::col_major(n, n)
            &&& o.buffer() == gathered(buffer, f.swapped(), false)
            &&& forall|i: int, j: int| #[trigger]
                f.holds(i, j) ==> o.at(i, j) == buffer[f.offset(i, j)]
        } else {
            &&& out matches ArrayOut::ViewMut(v)
            &&& v.frame() == f
            &&& v.buffer() == buffer
        },
        None => {
            &&& out matches ArrayOut::Owned(o)
            &&& o.frame() == Frame::col_major(n, n)
            &&& o.buffer() == Seq::new((n * n) as nat, |k: int| F::zero_value())
        },
    }
}

/// A fully resolved rank-k call: every argument as the kernel takes it, the
/// input matrix, the output container, and whether the output is to be
/// turned back once the kernel has run.
pub struct SYRK_Driver<'a, 'c, F, S: BLASSymmetric> {
    pub uplo: c_char,
    pub trans: c_char,
    pub n: c_int,
    pub k: c_int,
    pub alpha: S::HermitianFloat,
    pub a: MatCow<'a, F>,
    pub lda: c_int,
    pub beta: S::HermitianFloat,
    pub c: ArrayOut2<'c, F>,
    pub ldc: c_int,
    /// The call was turned from a row-major one: the kernel writes the
    /// transpose of what the caller is to see.
    pub turned: bool,
}

/// A rank-k request. The caller states it in any layout; the inner builder
/// takes it in column-major terms only.
pub struct SYRK_<'a, 'c, F, S: BLASSymmetric> {
    /// The input matrix.
    pub a: MatRef<'a, F>,
    /// The caller's output matrix, or none where a fresh one is wanted.
    pub c: Option<MatMut<'c, F>>,
    pub alpha: S::HermitianFloat,
    pub beta: S::HermitianFloat,
    pub uplo: BLASUpLo,
    pub trans: BLASTranspose,
    /// The layout asked for. The inner builder wants it to be column-major.
    pub layout: Option<BLASLayout>,
}

impl<'a, 'c, F: BLASFloat, S: BLASSymmetric> SYRK_Driver<'a, 'c, F, S> {
    /// The operands are well formed, the output is `n` by `n`, and unless the
    /// update is empty the arguments are such as a kernel may be called with.
    pub open spec fn wf(&self) -> bool {
        &&& self.a.wf()
        &&& self.c.wf()
        &&& self.n >= 0
        &&& self.k >= 0
        &&& self.c.frame().shape() == (self.n as usize, self.n as usize)
        &&& code_allowed(self.trans, F::complex(), S::hermitian())
        &&& self.n == 0 || self.k == 0 || syrk_call_ok(
            self.uplo,
            self.trans,
            self.n,
            self.k,
            self.a.buffer().len(),
            self.a.frame().start,
            self.lda,
            self.c.buffer().len(),
            self.c.frame().start,
            self.ldc,
            F::complex(),
            S::hermitian(),
        )
    }

    /// What `kernel` leaves in the buffer that the container holds out for
    /// it when it carries the call out.
    pub open spec fn written<K: SYRKFunc<F, S>>(&self, kernel: K) -> Seq<F> {
        kernel.updated(
            self.uplo,
            self.trans,
            self.n,
            self.k,
            self.alpha,
            self.a.buffer(),
            self.a.frame().start,
            self.lda,
            self.beta,
            self.c.buffer(),
            self.c.frame().start,
            self.ldc,
        )
    }

    /// `kernel` once it has carried the call out.
    pub open spec fn kernel_after<K: SYRKFunc<F, S>>(&self, kernel: K) -> K {
        kernel.called(
            self.uplo,
            self.trans,
            self.n,
            self.k,
            self.alpha,
            self.a.buffer(),
            self.a.frame().start,
            self.lda,
            self.beta,
            self.c.buffer(),
            self.c.frame().start,
            self.ldc,
        )
    }

    /// Carries the call out. An update without elements calls no kernel and
    /// leaves the values of the output as they are; any other calls the
    /// kernel once, with the arguments that the driver holds, on the buffer
    /// that the container holds out for it.
    /// Either way the container comes back settled, and turned back where
    /// the call had been turned.
    pub fn run_blas<K: SYRKFunc<F, S>>(self, kernel: &mut K) -> (r: Result<
        ArrayOut2<'c, F>,
        BLASError,
    >)
        requires
            self.wf(),
        ensures
            r is Ok,
            r matches Ok(out) ==> out.wf() && self.c.lands_in(out, self.turned),
            r matches Ok(out) ==> (!(self.c is Owned) ==> final(out.home_cell())@
                == final(self.c.home_cell())@),
            self.n == 0 || self.k == 0 ==> *final(kernel) == *old(kernel) && (r matches Ok(out)
                && self.c.kept_in(out, self.turned)),
            self.n != 0 && self.k != 0 ==> *final(kernel) == self.kernel_after(*old(kernel)) && (
            r matches Ok(out) && self.c.took_in(out, self.turned, self.written(*old(kernel)))),
    {
        let SYRK_Driver { uplo, trans, n, k, alpha, a, lda, beta, c, ldc, turned } = self;
        let mut c = c;
        if n != 0 && k != 0 {
            let c_start = c.view().start();
            let a = a.view();
            let buffer = c.as_mut_slice();
            kernel.syrk(
                uplo,
                trans,
                n,
                k,
                alpha,
                a.as_slice(),
                a.start(),
                lda,
                beta,
                buffer,
                c_start,
                ldc,
            );
        }
        let ghost held = c;
        let out = c.clone_to_view_mut();
        if turned {
            proof {
                out.frame().lemma_swapped(out.buffer().len());
            }
            let back = out.reversed_axes();
            proof {
                assert forall|i: int, j: int| #[trigger]
                    held.frame().holds(i, j) implies held.at(i, j) == back.at(j, i) by {
                    assert(out.frame().holds(i, j));
                    if held is ToBeCloned {
                        assert(held->ToBeCloned_0.frame().holds(i, j));
                    }
                }
            }
            Ok(back)
        } else {
            Ok(out)
        }
    }
}

/// The geometry of an output matrix, if there is one.
pub open spec fn frame_of<F: BLASFloat>(c: Option<MatMut<'_, F>>) -> Option<Frame> {
    match c {
        Some(m) => Some(m.frame()),
        None => None,
    }
}

/// The buffer of an output matrix; empty if there is none.
pub open spec fn buffer_of<F: BLASFloat>(c: Option<MatMut<'_, F>>) -> Seq<F> {
    match c {
        Some(m) => m.buffer(),
        None => Seq::empty(),
    }
}

/// The element that `trans` makes of the matrix `m` at `(i, l)`: the element
/// there, or the one at `(l, i)`, conjugated for a conjugate transpose.
pub open spec fn op_entry<F: BLASFloat>(
    trans: BLASTranspose,
    m: spec_fn(int, int) -> F,
    i: int,
    l: int,
) -> F {
    match trans {
        BLASTranspose::NoTrans => m(i, l),
        BLASTranspose::Trans => m(l, i),
        BLASTranspose::ConjTrans => m(l, i).conj_of(),
    }
}

impl<'a, 'c, F: BLASFloat, S: BLASSymmetric> SYRK_<'a, 'c, F, S> {
    /// The order of the result.
    pub open spec fn n(&self) -> usize {
        order_of(self.a.frame().shape(), self.trans).0
    }

    /// The inner dimension.
    pub open spec fn k(&self) -> usize {
        order_of(self.a.frame().shape(), self.trans).1
    }

    /// The geometry of the caller's output matrix, if there is one.
    pub open spec fn c_frame(&self) -> Option<Frame> {
        frame_of(self.c)
    }

    /// The buffer of the caller's output matrix; empty if there is none.
    pub open spec fn c_buffer(&self) -> Seq<F> {
        buffer_of(self.c)
    }

    /// The first check of the inner builder that fails, in the order in
    /// which they are made, or none if the request can be resolved.
    pub open spec fn failure(&self) -> Option<BLASError> {
        resolve_failure(
            self.a.frame(),
            self.c_frame(),
            self.trans,
            self.layout,
            F::complex(),
            S::hermitian(),
        )
    }

    /// The layouts that vote on the layout of the call: that of the output
    /// matrix, if the caller gave one, and that of the input matrix.
    pub open spec fn voters(&self) -> Seq<BLASLayout> {
        match self.c {
            Some(c) => seq![
                layout_of(c.frame().shape(), c.frame().steps()),
                layout_of(self.a.frame().shape(), self.a.frame().steps()),
            ],
            None => seq![layout_of(self.a.frame().shape(), self.a.frame().steps())],
        }
    }

    /// The layout in which the call is carried out.
    pub open spec fn target(&self) -> BLASLayout {
        elected(self.layout, self.voters())
    }

    /// What becomes of the input matrix on its way to the kernel.
    pub open spec fn flip(&self) -> Flip {
        if self.target() is ColMajor {
            flip_fpref(self.a.frame(), self.trans, S::hermitian(), F::complex())
        } else {
            flip_cpref(self.a.frame(), self.trans, S::hermitian(), F::complex())
        }
    }

    /// The geometry of the input matrix as the kernel is handed it.
    pub open spec fn kernel_a(&self) -> Frame {
        let source = flip_source(self.a.frame(), self.flip());
        if self.flip().copy {
            Frame::row_major(source.d0, source.d1).swapped()
        } else {
            source.swapped()
        }
    }

    /// The buffer of the input matrix as the kernel is handed it: the
    /// caller's, or a fresh one in which the elements are gathered,
    /// conjugated where the flip asks for it.
    pub open spec fn kernel_a_buffer(&self) -> Seq<F> {
        if self.flip().copy {
            gathered(self.a.buffer(), flip_source(self.a.frame(), self.flip()), self.flip().conj)
        } else {
            self.a.buffer()
        }
    }

    /// Element `(i, j)` of the input matrix as the kernel is handed it.
    pub open spec fn kernel_entry(&self, i: int, j: int) -> F {
        conj_if(
            self.a.buffer()[flip_source(self.a.frame(), self.flip()).offset(j, i)],
            self.flip().conj,
        )
    }

    /// The geometry of the caller's output matrix as the inner builder is
    /// handed it: turned, where the call is a row-major one.
    pub open spec fn kernel_c(&self) -> Option<Frame> {
        match self.c {
            Some(c) => Some(
                if self.target() is ColMajor {
                    c.frame()
                } else {
                    c.frame().swapped()
                },
            ),
            None => None,
        }
    }

    /// The flag that the kernel is called with.
    pub open spec fn kernel_trans(&self) -> BLASTranspose {
        if self.target() is ColMajor {
            self.flip().trans
        } else {
            self.flip().trans.flipped(S::hermitian())
        }
    }

    /// The triangle that the kernel is asked to write: the other one, where
    /// the call is a row-major one.
    pub open spec fn kernel_uplo(&self) -> BLASUpLo {
        if self.target() is ColMajor {
            self.uplo
        } else {
            self.uplo.flipped()
        }
    }

    /// The geometry of the buffer that the kernel writes: that of the
    /// caller's matrix as the inner builder is handed it, or that of a fresh
    /// column-major buffer.
    pub open spec fn kernel_out(&self) -> Frame {
        if self.c is Some && !shadow_needed(self.kernel_c()) {
            self.kernel_c()->Some_0
        } else {
            Frame::col_major(self.n(), self.n())
        }
    }

    /// The buffer that the kernel writes, as it is handed it: the caller's,
    /// a shadow in which the caller's matrix is gathered column after
    /// column, or fresh zeros.
    pub open spec fn kernel_c_buffer(&self) -> Seq<F> {
        match self.kernel_c() {
            Some(f) => if shadow_needed(self.kernel_c()) {
                gathered(self.c_buffer(), f.swapped(), false)
            } else {
                self.c_buffer()
            },
            None => Seq::new((self.n() * self.n()) as nat, |k: int| F::zero_value()),
        }
    }

    /// What `kernel` leaves in the buffer that it writes when it carries
    /// out the call that the request comes to.
    pub open spec fn written<K: SYRKFunc<F, S>>(&self, kernel: K) -> Seq<F> {
        kernel.updated(
            self.kernel_uplo().code_of(),
            self.kernel_trans().code_of(),
            self.n() as c_int,
            self.k() as c_int,
            self.alpha,
            self.kernel_a_buffer(),
            self.kernel_a().start,
            leading(self.kernel_a().shape(), self.kernel_a().steps()) as c_int,
            self.beta,
            self.kernel_c_buffer(),
            self.kernel_out().start,
            resolved_ldc(self.kernel_c(), self.n()) as c_int,
        )
    }

    /// `kernel` once it has carried out the call that the request comes to.
    pub open spec fn kernel_after<K: SYRKFunc<F, S>>(&self, kernel: K) -> K {
        kernel.called(
            self.kernel_uplo().code_of(),
            self.kernel_trans().code_of(),
            self.n() as c_int,
            self.k() as c_int,
            self.alpha,
            self.kernel_a_buffer(),
            self.kernel_a().start,
            leading(self.kernel_a().shape(), self.kernel_a().steps()) as c_int,
            self.beta,
            self.kernel_c_buffer(),
            self.kernel_out().start,
            resolved_ldc(self.kernel_c(), self.n()) as c_int,
        )
    }

    /// `out` holds what a kernel left in `buffer`, the buffer that it wrote.
    /// Where the kernel wrote into the caller's matrix or into a fresh one,
    /// `buffer` is the buffer of `out`. Where it wrote into a shadow, each
    /// element of the caller's matrix is the one that the shadow has for it,
    /// turned back in a row-major call, and the places of the caller's
    /// buffer between the elements are as they were.
    pub open spec fn run_written(&self, out: ArrayOut2<'c, F>, buffer: Seq<F>) -> bool {
        if shadow_needed(self.kernel_c()) {
            let given = self.c->Some_0;
            let shadow = Frame::col_major(self.n(), self.n());
            &&& forall|i: int, j: int| #[trigger]
                given.frame().holds(i, j) ==> out.at(i, j) == buffer[if self.target() is ColMajor {
                    shadow.offset(i, j)
                } else {
                    shadow.offset(j, i)
                }]
            &&& forall|k: int|
                0 <= k < given.buffer().len() && !given.frame().covers(k) ==> out.buffer()[k]
                    == given.buffer()[k]
        } else {
            out.buffer() == buffer
        }
    }

    /// The first check of a dispatch that fails, or none if the kernel is
    /// reached: the flag is tried first, then the copy that the flip may
    /// need, then the checks of the inner builder on the turned request.
    pub open spec fn run_failure(&self) -> Option<BLASError> {
        if !trans_allowed(self.trans, F::complex(), S::hermitian()) {
            Some(BLASError::Transpose)
        } else if self.flip().copy && self.a.frame().d0 * self.a.frame().d1 > isize::MAX {
            Some(BLASError::BufferSize)
        } else {
            resolve_failure(
                self.kernel_a(),
                self.kernel_c(),
                self.kernel_trans(),
                Some(BLASLayout::ColMajor),
                F::complex(),
                S::hermitian(),
            )
        }
    }

    /// `d` is the call that the request comes to: the selectors, dimensions
    /// and operands of `prepare`'s account.
    pub open spec fn prepared(&self, d: SYRK_Driver<'a, 'c, F, S>) -> bool {
        &&& d.wf()
        &&& d.uplo == self.kernel_uplo().code_of()
        &&& d.trans == self.kernel_trans().code_of()
        &&& d.n == self.n()
        &&& d.k == self.k()
        &&& d.lda == leading(self.kernel_a().shape(), self.kernel_a().steps())
        &&& d.ldc == resolved_ldc(self.kernel_c(), self.n())
        &&& d.alpha == self.alpha
        &&& d.beta == self.beta
        &&& d.turned == !(self.target() is ColMajor)
        &&& d.a.frame() == self.kernel_a()
        &&& d.a is Owned <==> self.flip().copy
        &&& d.a.buffer() == self.kernel_a_buffer()
        &&& forall|i: int, j: int| #[trigger]
            self.kernel_a().holds(i, j) ==> d.a.at(i, j) == self.kernel_entry(i, j)
        &&& resolved_output(self.kernel_c(), self.c_buffer(), self.n(), d.c)
    }

    /// `out` is in the state and has the geometry that a dispatch leaves its
    /// output in: the caller's matrix as it was handed in, or a fresh matrix
    /// of order `n`, column-major for a column-major call and row-major for
    /// a row-major one.
    pub open spec fn run_output(&self, out: ArrayOut2<'c, F>) -> bool {
        match self.c {
            Some(c) => {
                &&& out matches ArrayOut::ViewMut(w)
                &&& w.frame() == c.frame()
                &&& w.buffer().len() == c.buffer().len()
            },
            None => {
                &&& out matches ArrayOut::Owned(w)
                &&& w.buffer().len() == self.n() * self.n()
                &&& w.frame() == if self.target() is ColMajor {
                    Frame::col_major(self.n(), self.n())
                } else {
                    Frame::col_major(self.n(), self.n()).swapped()
                }
            },
        }
    }

    /// `out` holds the values that the output had before the dispatch: those
    /// of the caller's matrix, or zeros.
    pub open spec fn run_untouched(&self, out: ArrayOut2<'c, F>) -> bool {
        match self.c {
            Some(c) => forall|i: int, j: int| #[trigger]
                c.frame().holds(i, j) ==> out.at(i, j) == c.at(i, j),
            None => forall|i: int, j: int| #[trigger]
                out.frame().holds(i, j) ==> out.at(i, j) == F::zero_value(),
        }
    }

    /// Validates a column-major request and resolves it into the arguments
    /// of a kernel call. The input matrix is handed on as it is, and nothing
    /// is written to the caller's output matrix.
    pub fn driver(self) -> (r: Result<SYRK_Driver<'a, 'c, F, S>, BLASError>)
        requires
            self.a.wf(),
            self.c matches Some(c) ==> c.wf(),
        ensures
            r is Ok <==> self.failure() is None,
            r matches Err(e) ==> self.failure() == Some(e),
            r is Err ==> (self.c matches Some(m) ==> final(m.cell())@ == m.buffer()),
            r matches Ok(d) ==> (self.c matches Some(m) ==> final(d.c.home_cell())@
                == final(m.cell())@),
            r matches Ok(d) ==> {
                &&& d.wf()
                &&& d.uplo == self.uplo.code_of()
                &&& d.trans == self.trans.code_of()
                &&& d.n == self.n()
                &&& d.k == self.k()
                &&& d.lda == leading(self.a.frame().shape(), self.a.frame().steps())
                &&& d.ldc == resolved_ldc(self.c_frame(), self.n())
                &&& d.alpha == self.alpha
                &&& d.beta == self.beta
                &&& !d.turned
                &&& d.a == MatCow::Borrowed(self.a)
                &&& resolved_output(self.c_frame(), self.c_buffer(), self.n(), d.c)
            },
    {
        let SYRK_ { a, c, alpha, beta, uplo, trans, layout } = self;
        match layout {
            Some(BLASLayout::ColMajor) => {},
            _ => {
                proof {
                    if c is Some {
                        c->Some_0.lemma_laid_down();
                    }
                }
                return Err(BLASError::LayoutHint);
            },
        }
        Self::resolve(MatCow::Borrowed(a), c, alpha, beta, uplo, trans, false)
    }

    /// The leading dimension that a kernel is told for a matrix of this
    /// shape and these strides.
    fn leading_of(shape: (usize, usize), strides: (isize, isize)) -> (r: isize)
        requires
            shape.0 <= c_int::MAX,
        ensures
            r == leading(shape, strides),
    {
        let least: isize = if shape.0 == 0 {
            1
        } else {
            shape.0 as isize
        };
        if shape.1 > 1 || strides.1 >= least {
            strides.1
        } else {
            least
        }
    }

    /// The checks and the narrowing that `driver` and `prepare` share.
    fn resolve(
        a: MatCow<'a, F>,
        c: Option<MatMut<'c, F>>,
        alpha: S::HermitianFloat,
        beta: S::HermitianFloat,
        uplo: BLASUpLo,
        trans: BLASTranspose,
        turned: bool,
    ) -> (r: Result<SYRK_Driver<'a, 'c, F, S>, BLASError>)
        requires
            a.wf(),
            c matches Some(m) ==> m.wf(),
        ensures
            r is Ok <==> resolve_failure(
                a.frame(),
                frame_of(c),
                trans,
                Some(BLASLayout::ColMajor),
                F::complex(),
                S::hermitian(),
            ) is None,
            r matches Err(e) ==> resolve_failure(
                a.frame(),
                frame_of(c),
                trans,
                Some(BLASLayout::ColMajor),
                F::complex(),
                S::hermitian(),
            ) == Some(e),
            r is Err ==> (c matches Some(m) ==> final(m.cell())@ == m.buffer()),
            r matches Ok(d) ==> (c matches Some(m) ==> final(d.c.home_cell())@ == final(m.cell())@),
            r matches Ok(d) ==> {
                &&& d.wf()
                &&& d.uplo == uplo.code_of()
                &&& d.trans == trans.code_of()
                &&& d.n == order_of(a.frame().shape(), trans).0
                &&& d.k == order_of(a.frame().shape(), trans).1
                &&& d.lda == leading(a.frame().shape(), a.frame().steps())
                &&& d.ldc == resolved_ldc(
                    frame_of(c),
                    order_of(a.frame().shape(), trans).0,
                )
                &&& d.alpha == alpha
                &&& d.beta == beta
                &&& d.turned == turned
                &&& d.a == a
                &&& resolved_output(
                    frame_of(c),
                    buffer_of(c),
                    order_of(a.frame().shape(), trans).0,
                    d.c,
                )
            },
    {
        let (d0, d1) = a.dim();
        if !is_col_walkable(a.dim(), a.strides()) {
            proof {
                if c is Some {
                    c->Some_0.lemma_laid_down();
                }
            }
            return Err(BLASError::OperandLayout);
        }
        let (n, k) = match trans {
            BLASTranspose::NoTrans => (d0, d1),
            _ => (d1, d0),
        };
        if !is_trans_allowed(trans, F::is_complex(), S::is_hermitian()) {
            proof {
                if c is Some {
                    c->Some_0.lemma_laid_down();
                }
            }
            return Err(BLASError::Transpose);
        }
        match &c {
            Some(out) => {
                let shape = out.dim();
                if shape.0 != n || shape.1 != n {
                    proof {
                        c->Some_0.lemma_laid_down();
                    }
                    return Err(BLASError::OutputShape);
                }
            },
            None => {},
        }
        if n > c_int::MAX as usize {
            proof {
                if c is Some {
                    c->Some_0.lemma_laid_down();
                }
            }
            return Err(BLASError::DimN);
        }
        if k > c_int::MAX as usize {
            proof {
                if c is Some {
                    c->Some_0.lemma_laid_down();
                }
            }
            return Err(BLASError::DimK);
        }
        let lda = Self::leading_of(a.dim(), a.strides());
        if lda < c_int::MIN as isize || lda > c_int::MAX as isize {
            proof {
                if c is Some {
                    c->Some_0.lemma_laid_down();
                }
            }
            return Err(BLASError::LeadingDimA);
        }
        let out: ArrayOut2<'c, F> = match c {
            Some(view) => {
                if is_col_walkable(view.dim(), view.strides()) {
                    ArrayOut::ViewMut(view)
                } else {
                    match view.view().copied_f(false) {
                        Some(shadow) => ArrayOut::ToBeCloned(view, shadow),
                        None => {
                            proof {
                                view.lemma_laid_down();
                            }
                            return Err(BLASError::BufferSize);
                        },
                    }
                }
            },
            None => match MatOwned::filled_f(n, n, F::zero()) {
                Some(fresh) => ArrayOut::Owned(fresh),
                None => {
                    return Err(BLASError::BufferSize);
                },
            },
        };
        let ldc = Self::leading_of(out.view().dim(), out.view().strides());
        if ldc < c_int::MIN as isize || ldc > c_int::MAX as isize {
            // Only a matrix of the caller's can have such a step.
            proof {
                if out is ViewMut {
                    out->ViewMut_0.lemma_laid_down();
                }
            }
            return Err(BLASError::LeadingDimC);
        }
        let n_int = n as c_int;
        let k_int = k as c_int;
        let lda_int = lda as c_int;
        let ldc_int = ldc as c_int;
        proof {
            if n != 0 && k != 0 {
                lemma_col_walk(a.frame(), a.buffer().len(), lda_int);
                lemma_col_walk(out.frame(), out.buffer().len(), ldc_int);
            }
        }
        Ok(
            SYRK_Driver {
                uplo: uplo.code(),
                trans: trans.code(),
                n: n_int,
                k: k_int,
                alpha,
                a,
                lda: lda_int,
                beta,
                c: out,
                ldc: ldc_int,
                turned,
            },
        )
    }

    /// Takes a request in any layout as far as the kernel: checks the flag,
    /// elects the layout of the call, turns the request into one that a
    /// column-major kernel can serve, and resolves it. Nothing is written to
    /// the caller's output matrix.
    pub fn prepare(self) -> (r: Result<SYRK_Driver<'a, 'c, F, S>, BLASError>)
        requires
            self.a.wf(),
            self.c matches Some(c) ==> c.wf(),
        ensures
            r is Ok <==> self.run_failure() is None,
            r matches Err(e) ==> self.run_failure() == Some(e),
            r is Err ==> (self.c matches Some(m) ==> final(m.cell())@ == m.buffer()),
            r matches Ok(d) ==> (self.c matches Some(m) ==> final(d.c.home_cell())@
                == final(m.cell())@),
            r matches Ok(d) ==> self.prepared(d),
    {
        let SYRK_ { a, c, alpha, beta, uplo, trans, layout } = self;
        let hermi = S::is_hermitian();
        if !is_trans_allowed(trans, F::is_complex(), hermi) {
            proof {
                if c is Some {
                    c->Some_0.lemma_laid_down();
                }
            }
            return Err(BLASError::Transpose);
        }
        let layout_a = get_layout_array2(&a);
        let mut voters: Vec<BLASLayout> = Vec::new();
        match &c {
            Some(out) => {
                voters.push(get_layout_array2(&out.view()));
            },
            None => {},
        }
        voters.push(layout_a);
        assert(voters@ == self.voters());
        let target = elect_layout(layout, voters.as_slice());
        let ghost source = flip_source(a.frame(), self.flip());
        proof {
            a.frame().lemma_swapped(a.buffer().len());
            lemma_order_kept(a.frame().shape(), trans, hermi);
            lemma_allowed_kept(trans, F::complex(), hermi);
            assert(a.frame().d0 * a.frame().d1 == a.frame().d1 * a.frame().d0) by (nonlinear_arith);
        }
        match target {
            BLASLayout::ColMajor => {
                let (trans, got) = match flip_trans_fpref(trans, &a, hermi) {
                    Ok(p) => p,
                    Err(e) => {
                        proof {
                            if c is Some {
                                c->Some_0.lemma_laid_down();
                            }
                        }
                        return Err(e);
                    },
                };
                let turned = got.t();
                proof {
                    got.frame().lemma_swapped(got.buffer().len());
                    assert(turned.frame() == self.kernel_a());
                    assert(trans == self.kernel_trans());
                    assert forall|i: int, j: int| #[trigger]
                        self.kernel_a().holds(i, j) implies turned.at(i, j) == self.kernel_entry(
                        i,
                        j,
                    ) by {
                        assert(source.holds(j, i));
                    }
                }
                Self::resolve(turned, c, alpha, beta, uplo, trans, false)
            },
            _ => {
                let (trans, got) = match flip_trans_cpref(trans, &a, hermi) {
                    Ok(p) => p,
                    Err(e) => {
                        proof {
                            if c is Some {
                                c->Some_0.lemma_laid_down();
                            }
                        }
                        return Err(e);
                    },
                };
                let turned = got.t();
                proof {
                    got.frame().lemma_swapped(got.buffer().len());
                    assert(turned.frame() == self.kernel_a());
                    assert(trans.flipped(hermi) == self.kernel_trans());
                    assert forall|i: int, j: int| #[trigger]
                        self.kernel_a().holds(i, j) implies turned.at(i, j) == self.kernel_entry(
                        i,
                        j,
                    ) by {
                        assert(source.holds(j, i));
                    }
                }
                let c_turned = match c {
                    Some(out) => {
                        proof {
                            out.frame().lemma_swapped(out.buffer().len());
                        }
                        Some(out.reversed_axes())
                    },
                    None => None,
                };
                assert(frame_of(c_turned) == self.kernel_c());
                Self::resolve(turned, c_turned, alpha, beta, uplo.flip(), trans.flip(hermi), true)
            },
        }
    }

    /// Dispatches the update: prepares the call, has the kernel carry it
    /// out, and settles the output.
    ///
    /// Nothing is tried twice, and no kernel is reached after a failure. An
    /// update without elements reaches no kernel either, and leaves the
    /// values of the output as they were.
    ///
    /// The library writes to the caller's matrix only to settle a shadow,
    /// and a shadow starts out as a copy of that matrix: whatever the kernel
    /// leaves alone, the triangle that was not asked for, keeps the caller's
    /// values. A fresh output has zeros there.
    pub fn run<K: SYRKFunc<F, S>>(self, kernel: &mut K) -> (r: Result<ArrayOut2<'c, F>, BLASError>)
        requires
            self.a.wf(),
            self.c matches Some(c) ==> c.wf(),
        ensures
            r is Ok <==> self.run_failure() is None,
            r matches Err(e) ==> self.run_failure() == Some(e) && *final(kernel) == *old(kernel),
            r is Err ==> (self.c matches Some(m) ==> final(m.cell())@ == m.buffer()),
            r matches Ok(out) ==> (self.c matches Some(m) ==> final(out.home_cell())@
                == final(m.cell())@),
            r matches Ok(out) ==> out.wf() && self.run_output(out),
            self.n() == 0 || self.k() == 0 ==> *final(kernel) == *old(kernel) && (r matches Ok(out)
                ==> self.run_untouched(out)),
            self.n() != 0 && self.k() != 0 ==> (r matches Ok(out) ==> self.run_written(
                out,
                self.written(*old(kernel)),
            ) && *final(kernel) == self.kernel_after(*old(kernel))),
    {
        let driver = match self.prepare() {
            Ok(d) => d,
            Err(e) => {
                return Err(e);
            },
        };
        let ghost held = driver.c;
        let ghost turned = driver.turned;
        let ghost before = *kernel;
        assert(driver.written(before) == self.written(before));
        assert(driver.kernel_after(before) == self.kernel_after(before));
        let r = driver.run_blas(kernel);
        proof {
            let out = r->Ok_0;
            if self.n() != 0 && self.k() != 0 && shadow_needed(self.kernel_c()) {
                let given = self.c->Some_0;
                let buffer = self.written(before);
                let shadow = Frame::col_major(self.n(), self.n());
                given.frame().lemma_swapped(given.buffer().len());
                assert forall|i: int, j: int| #[trigger] given.frame().holds(i, j) implies out.at(
                    i,
                    j,
                ) == buffer[if self.target() is ColMajor {
                    shadow.offset(i, j)
                } else {
                    shadow.offset(j, i)
                }] by {
                    if turned {
                        assert(held.frame().holds(j, i));
                    } else {
                        assert(held.frame().holds(i, j));
                    }
                }
                assert forall|k: int|
                    0 <= k < given.buffer().len() && !given.frame().covers(k) implies out.buffer()[k]
                    == given.buffer()[k] by {
                    given.frame().lemma_covers_swapped(k);
                }
            }
            if self.c is None {
                Frame::lemma_row_major(self.n(), self.n());
                Frame::row_major(self.n(), self.n()).lemma_swapped((self.n() * self.n()) as nat);
            }
            if self.n() == 0 || self.k() == 0 {
                if self.c is Some {
                    let given = self.c->Some_0;
                    let inner = self.kernel_c()->Some_0;
                    assert forall|i: int, j: int| #[trigger]
                        given.frame().holds(i, j) implies out.at(i, j) == given.at(i, j) by {
                        if turned {
                            assert(inner.holds(j, i));
                            assert(held.frame().holds(j, i));
                        } else {
                            assert(held.frame().holds(i, j));
                        }
                    }
                } else {
                    assert forall|i: int, j: int| #[trigger]
                        out.frame().holds(i, j) implies out.at(i, j) == F::zero_value() by {
                        if turned {
                            assert(held.frame().holds(j, i));
                        }
                    }
                }
            }
        }
        r
    }
}

/// A rank-k update in the making: the input matrix, and for everything else
/// a default that the caller may replace. `alpha` is one and `beta` is zero,
/// the triangle is the lower one, the input is not transposed, no output
/// matrix is given, and no layout is asked for.
pub struct SYRK_Builder<'a, 'c, F, S: BLASSymmetric> {
    request: SYRK_<'a, 'c, F, S>,
}

/// The symmetric rank-k update, `C := alpha op(A) op(A)^T + beta C`.
pub type SYRK<'a, 'c, F> = SYRK_Builder<'a, 'c, F, BLASSymm<F>>;

/// The Hermitian rank-k update, `C := alpha op(A) op(A)^H + beta C`.
pub type HERK<'a, 'c, F> = SYRK_Builder<'a, 'c, F, BLASHermi<F>>;

impl<'a, 'c, F: BLASFloat, S: BLASSymmetric> SYRK_Builder<'a, 'c, F, S> {
    /// The request as it stands.
    pub closed spec fn request(&self) -> SYRK_<'a, 'c, F, S> {
        self.request
    }

    /// An update of `a` with every default in place.
    pub fn new(a: MatRef<'a, F>) -> (r: Self)
        ensures
            r.request() == (SYRK_::<'a, 'c, F, S> {
                a,
                c: None,
                alpha: S::HermitianFloat::one_value(),
                beta: S::HermitianFloat::zero_value(),
                uplo: BLASUpLo::Lower,
                trans: BLASTranspose::NoTrans,
                layout: None,
            }),
    {
        SYRK_Builder {
            request: SYRK_ {
                a,
                c: None,
                alpha: S::HermitianFloat::one(),
                beta: S::HermitianFloat::zero(),
                uplo: BLASUpLo::Lower,
                trans: BLASTranspose::NoTrans,
                layout: None,
            },
        }
    }

    /// Has the result written into the caller's matrix `c`.
    pub fn c(self, c: MatMut<'c, F>) -> (r: Self)
        ensures
            r.request() == (SYRK_ { c: Some(c), ..self.request() }),
    {
        let SYRK_ { a, c: _, alpha, beta, uplo, trans, layout } = self.request;
        SYRK_Builder { request: SYRK_ { a, c: Some(c), alpha, beta, uplo, trans, layout } }
    }

    /// Sets the coefficient of the product.
    pub fn alpha(self, alpha: S::HermitianFloat) -> (r: Self)
        ensures
            r.request() == (SYRK_ { alpha, ..self.request() }),
    {
        let SYRK_ { a, c, alpha: _, beta, uplo, trans, layout } = self.request;
        SYRK_Builder { request: SYRK_ { a, c, alpha, beta, uplo, trans, layout } }
    }

    /// Sets the coefficient of the output's former value.
    pub fn beta(self, beta: S::HermitianFloat) -> (r: Self)
        ensures
            r.request() == (SYRK_ { beta, ..self.request() }),
    {
        let SYRK_ { a, c, alpha, beta: _, uplo, trans, layout } = self.request;
        SYRK_Builder { request: SYRK_ { a, c, alpha, beta, uplo, trans, layout } }
    }

    /// Chooses the triangle of the output that is written.
    pub fn uplo(self, uplo: BLASUpLo) -> (r: Self)
        ensures
            r.request() == (SYRK_ { uplo, ..self.request() }),
    {
        let SYRK_ { a, c, alpha, beta, uplo: _, trans, layout } = self.request;
        SYRK_Builder { request: SYRK_ { a, c, alpha, beta, uplo, trans, layout } }
    }

    /// Chooses the operation applied to the input matrix.
    pub fn trans(self, trans: BLASTranspose) -> (r: Self)
        ensures
            r.request() == (SYRK_ { trans, ..self.request() }),
    {
        let SYRK_ { a, c, alpha, beta, uplo, trans: _, layout } = self.request;
        SYRK_Builder { request: SYRK_ { a, c, alpha, beta, uplo, trans, layout } }
    }

    /// Asks for a layout, in place of the election among the operands.
    pub fn layout(self, layout: BLASLayout) -> (r: Self)
        ensures
            r.request() == (SYRK_ { layout: Some(layout), ..self.request() }),
    {
        let SYRK_ { a, c, alpha, beta, uplo, trans, layout: _ } = self.request;
        SYRK_Builder { request: SYRK_ { a, c, alpha, beta, uplo, trans, layout: Some(layout) } }
    }

    /// The request, with the defaults where the caller chose nothing.
    pub fn build(self) -> (r: SYRK_<'a, 'c, F, S>)
        ensures
            r == self.request(),
    {
        self.request
    }

    /// Builds the request and dispatches it.
    pub fn run<K: SYRKFunc<F, S>>(self, kernel: &mut K) -> (r: Result<ArrayOut2<'c, F>, BLASError>)
        requires
            self.request().a.wf(),
            self.request().c matches Some(c) ==> c.wf(),
        ensures
            r is Ok <==> self.request().run_failure() is None,
            r matches Err(e) ==> self.request().run_failure() == Some(e) && *final(kernel) == *old(
                kernel,
            ),
            r is Err ==> (self.request().c matches Some(m) ==> final(m.cell())@ == m.buffer()),
            r matches Ok(out) ==> (self.request().c matches Some(m) ==> final(out.home_cell())@
                == final(m.cell())@),
            r matches Ok(out) ==> out.wf() && self.request().run_output(out),
            self.request().n() == 0 || self.request().k() == 0 ==> *final(kernel) == *old(kernel)
                && (r matches Ok(out) ==> self.request().run_untouched(out)),
            self.request().n() != 0 && self.request().k() != 0 ==> (r matches Ok(out)
                ==> self.request().run_written(out, self.request().written(*old(kernel)))
                && *final(kernel) == self.request().kernel_after(*old(kernel))),
    {
        self.build().run(kernel)
    }
}

/// Flipping the flag of an update as its operand is turned keeps the order
/// of the result and the inner dimension.
pub proof fn lemma_order_kept(shape: (usize, usize), trans: BLASTranspose, hermi: bool)
    ensures
        order_of((shape.1, shape.0), trans.flipped(hermi)) == order_of(shape, trans),
        order_of(shape, trans.flipped(hermi).flipped(hermi)) == order_of(shape, trans),
{
}

/// A flag that the kernels take is still one after it is flipped.
pub proof fn lemma_allowed_kept(trans: BLASTranspose, complex: bool, hermi: bool)
    requires
        trans_allowed(trans, complex, hermi),
    ensures
        trans_allowed(trans.flipped(hermi), complex, hermi),
        trans_allowed(trans.flipped(hermi).flipped(hermi), complex, hermi),
{
}

/// A column-major kernel finds every element of a matrix that it can take
/// where the matrix has it, and so inside the buffer, and the leading
/// dimension that it is told is one that it accepts.
pub proof fn lemma_col_walk(frame: Frame, len: nat, ld: c_int)
    requires
        frame.fits(len),
        !frame.empty(),
        col_walkable(frame.shape(), frame.steps()),
        ld == leading(frame.shape(), frame.steps()),
    ensures
        ld >= frame.d0,
        forall|i: int, j: int|
            0 <= i < frame.d0 && 0 <= j < frame.d1 ==> 0 <= #[trigger] col_offset(
                frame.start,
                ld,
                i,
                j,
            ) < len,
{
    assert forall|i: int, j: int| 0 <= i < frame.d0 && 0 <= j < frame.d1 implies 0
        <= #[trigger] col_offset(frame.start, ld, i, j) < len by {
        assert(frame.holds(i, j));
        if frame.d1 == 1 {
            assert(0 * frame.s1 == 0 && 0 * ld == 0) by (nonlinear_arith);
            if frame.d0 == 1 {
                assert(0 * frame.s0 == 0) by (nonlinear_arith);
            }
        }
    }
}

} // verus!
