//! The solve of a triangular system whose matrix is packed,
//! `op(A) x = b`, with the solution written over `b`.
use crate::array_out::{ArrayOut, ArrayOut1};
use crate::error::BLASError;
use crate::flags::{fits_int, BLASDiag, BLASLayout, BLASTranspose, BLASUpLo};
use crate::frame::Frame;
use crate::layout::{elect_layout, elected};
use crate::matrix::{conj_within, gathered};
use crate::scalar::{BLASFloat, Values};
use crate::vector::{lemma_line, VecCow, VecMut, VecRef};
use libc::{c_char, c_int};
use vstd::prelude::*;

verus! {

/// The number of elements in one triangle of a matrix of order `n`, its
/// diagonal included.
pub open spec fn packed_len(n: int) -> int {
    n * (n + 1) / 2
}

/// Where a kernel looks for element `i` of a vector of `n` elements that it
/// is handed at `base` with increment `inc`: it counts up from `base` where
/// the increment is not negative, and down from the far end where it is.
pub open spec fn vec_offset(base: usize, inc: c_int, n: c_int, i: int) -> int {
    if inc >= 0 {
        base + i * inc
    } else {
        base + (n - 1 - i) * (-inc)
    }
}

/// What a packed triangular solver may rely on when it is called: selectors
/// it knows, a system that is not empty, an increment that is not zero, the
/// whole packed triangle and every element of the vector inside the buffers
/// it is handed.
pub open spec fn tpsv_call_ok(
    uplo: c_char,
    trans: c_char,
    diag: c_char,
    n: c_int,
    ap_len: nat,
    ap_start: usize,
    x_len: nat,
    x_base: usize,
    incx: c_int,
) -> bool {
    &&& uplo == BLASUpLo::Upper.code_of() || uplo == BLASUpLo::Lower.code_of()
    &&& trans == BLASTranspose::NoTrans.code_of() || trans == BLASTranspose::Trans.code_of()
        || trans == BLASTranspose::ConjTrans.code_of()
    &&& diag == BLASDiag::NonUnit.code_of() || diag == BLASDiag::Unit.code_of()
    &&& n >= 1
    &&& incx != 0
    &&& ap_start + packed_len(n as int) <= ap_len
    &&& forall|i: int| 0 <= i < n ==> 0 <= #[trigger] vec_offset(x_base, incx, n, i) < x_len
}

/// The buffer with the elements of the view conjugated, where `conj` asks
/// for it.
pub open spec fn conj_when<F: BLASFloat>(buffer: Seq<F>, frame: Frame, conj: bool) -> Seq<F> {
    if conj {
        conj_within(buffer, frame)
    } else {
        buffer
    }
}

/// The kernels of the packed triangular solve for one element type. A kernel
/// reads the packed triangle column by column and writes the solution over
/// the right-hand side.
///
/// What a call leaves in the vector and in the kernel itself has a name
/// here, `solved` and `called`, so that the dispatch can say which call it
/// made and what became of the result. An impl is believed on this point:
/// what a call leaves behind has to depend on the kernel and on the
/// arguments alone.
pub trait TPSVFunc<F: BLASFloat>: Sized {
    /// What a call leaves in the buffer of the vector: the solution over
    /// the right-hand side, and whatever else the kernel writes.
    spec fn solved(
        &self,
        uplo: c_char,
        trans: c_char,
        diag: c_char,
        n: c_int,
        ap: Values<F>,
        ap_start: usize,
        x: Values<F>,
        x_base: usize,
        incx: c_int,
    ) -> Values<F>;

    /// The kernel after a call: one call further than it was.
    spec fn called(
        &self,
        uplo: c_char,
        trans: c_char,
        diag: c_char,
        n: c_int,
        ap: Values<F>,
        ap_start: usize,
        x: Values<F>,
        x_base: usize,
        incx: c_int,
    ) -> Self;

    /// Runs the kernel. `ap` and `x` are whole buffers; the packed triangle
    /// starts at `ap_start`, and the vector is handed over at `x_base`.
    fn tpsv(
        &mut self,
        uplo: c_char,
        trans: c_char,
        diag: c_char,
        n: c_int,
        ap: &[F],
        ap_start: usize,
        x: &mut [F],
        x_base: usize,
        incx: c_int,
    )
        requires
            tpsv_call_ok(uplo, trans, diag, n, ap@.len(), ap_start, old(x)@.len(), x_base, incx),
        ensures
            final(x)@.len() == old(x)@.len(),
            final(x)@ == old(self).solved(
                uplo,
                trans,
                diag,
                n,
                ap@,
                ap_start,
                old(x)@,
                x_base,
                incx,
            ),
            *final(self) == old(self).called(
                uplo,
                trans,
                diag,
                n,
                ap@,
                ap_start,
                old(x)@,
                x_base,
                incx,
            ),
    ;
}

/// The increment that a kernel is told for a vector of geometry `x`: the
/// step from one element to the next, as the view has it. A step of zero,
/// which only a vector without a second element can have, is one that no
/// kernel takes, and the kernel is told one in its place.
pub open spec fn increment(x: Frame) -> int {
    if x.s0 == 0 {
        1
    } else {
        x.s0 as int
    }
}

/// The offset at which a kernel is handed a vector of geometry `x`: that of
/// its first element, or of its last where the elements run backwards.
pub open spec fn base_of(x: Frame) -> int {
    if increment(x) >= 0 || x.d0 == 0 {
        x.start as int
    } else {
        x.start + (x.d0 - 1) * x.s0
    }
}

/// The first check of the inner builder that fails on a packed triangle of
/// geometry `ap` and a vector of geometry `x`, in the order in which the
/// checks are made, or none if the request can be resolved.
pub open spec fn resolve_failure(ap: Frame, x: Frame) -> Option<BLASError> {
    if !ap.standard() {
        Some(BLASError::OperandLayout)
    } else if ap.d0 != packed_len(x.d0 as int) {
        Some(BLASError::PackedLength)
    } else if !fits_int(x.d0 as int) {
        Some(BLASError::DimN)
    } else if !fits_int(increment(x)) {
        Some(BLASError::Increment)
    } else {
        None
    }
}

/// A fully resolved packed triangular solve: every argument as the kernel
/// takes it, the packed triangle, the vector, and whether the vector is to
/// be conjugated before and after the kernel runs.
pub struct TPSV_Driver<'a, 'x, F> {
    pub uplo: c_char,
    pub trans: c_char,
    pub diag: c_char,
    pub n: c_int,
    pub ap: VecCow<'a, F>,
    pub x: ArrayOut1<'x, F>,
    pub x_base: usize,
    pub incx: c_int,
    /// The request was a conjugate transpose on complex elements, and is
    /// served by a solve without conjugation on the conjugated vector.
    pub conj: bool,
}

/// A packed triangular solve. The caller states it in any layout; the inner
/// builder takes it in column-major terms only.
pub struct TPSV_<'a, 'x, F> {
    /// The packed triangle.
    pub ap: VecRef<'a, F>,
    /// The right-hand side, over which the solution is written.
    pub x: VecMut<'x, F>,
    pub uplo: BLASUpLo,
    pub trans: BLASTranspose,
    pub diag: BLASDiag,
    /// The layout asked for, that is the order in which the triangle is
    /// packed.
    pub layout: Option<BLASLayout>,
}

impl<'a, 'x, F: BLASFloat> TPSV_Driver<'a, 'x, F> {
    /// The operands are well formed, the vector is the caller's own and has
    /// `n` elements, and unless the system is empty the arguments are such
    /// as a kernel may be called with.
    pub open spec fn wf(&self) -> bool {
        &&& self.ap.wf()
        &&& self.x.wf()
        &&& self.x is ViewMut
        &&& self.n >= 0
        &&& self.x.frame().d0 == self.n
        &&& self.n == 0 || tpsv_call_ok(
            self.uplo,
            self.trans,
            self.diag,
            self.n,
            self.ap.buffer().len(),
            self.ap.frame().start,
            self.x.buffer().len(),
            self.x_base,
            self.incx,
        )
    }

    /// The buffer of the vector as the kernel is handed it: conjugated
    /// where the request asks for it.
    pub open spec fn handed(&self) -> Seq<F> {
        conj_when(self.x.buffer(), self.x.frame(), self.conj)
    }

    /// The buffer of the vector once `kernel` has carried the call out on
    /// it: what the kernel leaves, conjugated back where the vector was
    /// conjugated before.
    pub open spec fn outcome<K: TPSVFunc<F>>(&self, kernel: K) -> Seq<F> {
        conj_when(
            kernel.solved(
                self.uplo,
                self.trans,
                self.diag,
                self.n,
                self.ap.buffer(),
                self.ap.frame().start,
                self.handed(),
                self.x_base,
                self.incx,
            ),
            self.x.frame(),
            self.conj,
        )
    }

    /// `kernel` once it has carried the call out.
    pub open spec fn kernel_after<K: TPSVFunc<F>>(&self, kernel: K) -> K {
        kernel.called(
            self.uplo,
            self.trans,
            self.diag,
            self.n,
            self.ap.buffer(),
            self.ap.frame().start,
            self.handed(),
            self.x_base,
            self.incx,
        )
    }

    /// Carries the call out. An empty system calls no kernel and hands the
    /// vector back as it is; any other calls the kernel once, with the
    /// arguments that the driver holds, on the caller's vector, conjugated
    /// before and after where the request asks for it.
    pub fn run_blas<K: TPSVFunc<F>>(self, kernel: &mut K) -> (r: Result<
        ArrayOut1<'x, F>,
        BLASError,
    >)
        requires
            self.wf(),
        ensures
            r is Ok,
            r matches Ok(out) ==> {
                &&& out.wf()
                &&& out is ViewMut
                &&& out.frame() == self.x.frame()
                &&& out.buffer().len() == self.x.buffer().len()
            },
            r matches Ok(out) ==> final(out.home_cell())@ == final(self.x.home_cell())@,
            self.n == 0 ==> *final(kernel) == *old(kernel) && r == Ok::<
                ArrayOut1<'x, F>,
                BLASError,
            >(self.x),
            self.n != 0 ==> *final(kernel) == self.kernel_after(*old(kernel)) && (r matches Ok(
                out,
            ) && out.buffer() == self.outcome(*old(kernel))),
    {
        let TPSV_Driver { uplo, trans, diag, n, ap, x, x_base, incx, conj } = self;
        let mut x = x;
        if n != 0 {
            if conj {
                match &mut x {
                    ArrayOut::ViewMut(v) => {
                        v.conj_inplace();
                    },
                    _ => {},
                }
            }
            let ap = ap.view();
            let buffer = x.as_mut_slice();
            kernel.tpsv(uplo, trans, diag, n, ap.as_slice(), ap.start(), buffer, x_base, incx);
            if conj {
                match &mut x {
                    ArrayOut::ViewMut(v) => {
                        v.conj_inplace();
                    },
                    _ => {},
                }
            }
        }
        Ok(x)
    }
}

impl<'a, 'x, F: BLASFloat> TPSV_<'a, 'x, F> {
    /// The order of the system.
    pub open spec fn n(&self) -> usize {
        self.x.frame().d0
    }

    /// The first check of the inner builder that fails, or none if the
    /// request can be resolved.
    pub open spec fn failure(&self) -> Option<BLASError> {
        resolve_failure(self.ap.frame(), self.x.frame())
    }

    /// The layout in which the call is carried out: the one asked for, and
    /// row-major where none is.
    pub open spec fn target(&self) -> BLASLayout {
        elected(self.layout, Seq::empty())
    }

    /// The triangle that the kernel is told of: the other one, where the
    /// call is a row-major one.
    pub open spec fn kernel_uplo(&self) -> BLASUpLo {
        if self.target() is ColMajor {
            self.uplo
        } else {
            self.uplo.flipped()
        }
    }

    /// The flag that the kernel is called with. A triangle packed row by row
    /// is its transpose packed column by column, so a row-major call asks
    /// for the other operation, and leaves a conjugation to be done on the
    /// vector.
    pub open spec fn kernel_trans(&self) -> BLASTranspose {
        if self.target() is ColMajor {
            self.trans
        } else {
            self.trans.flipped(false)
        }
    }

    /// The vector is conjugated before and after the kernel runs: the call
    /// is a row-major one for a conjugate transpose on complex elements.
    pub open spec fn solution_conj(&self) -> bool {
        !(self.target() is ColMajor) && self.trans is ConjTrans && F::complex()
    }

    /// The geometry of the packed triangle as the kernel is handed it.
    pub open spec fn kernel_ap(&self) -> Frame {
        if self.ap.frame().standard() {
            self.ap.frame()
        } else {
            Frame::row_major(self.ap.frame().d0, 1)
        }
    }

    /// The buffer of the packed triangle as the kernel is handed it: the
    /// caller's, or one in which the elements are gathered without gaps.
    pub open spec fn kernel_ap_buffer(&self) -> Seq<F> {
        if self.ap.frame().standard() {
            self.ap.buffer()
        } else {
            gathered(self.ap.buffer(), self.ap.frame(), false)
        }
    }

    /// The buffer of the vector once `kernel` has carried out the call that
    /// the request comes to.
    pub open spec fn outcome<K: TPSVFunc<F>>(&self, kernel: K) -> Seq<F> {
        conj_when(
            kernel.solved(
                self.kernel_uplo().code_of(),
                self.kernel_trans().code_of(),
                self.diag.code_of(),
                self.n() as c_int,
                self.kernel_ap_buffer(),
                self.kernel_ap().start,
                conj_when(self.x.buffer(), self.x.frame(), self.solution_conj()),
                base_of(self.x.frame()) as usize,
                increment(self.x.frame()) as c_int,
            ),
            self.x.frame(),
            self.solution_conj(),
        )
    }

    /// `kernel` once it has carried out the call that the request comes to.
    pub open spec fn kernel_after<K: TPSVFunc<F>>(&self, kernel: K) -> K {
        kernel.called(
            self.kernel_uplo().code_of(),
            self.kernel_trans().code_of(),
            self.diag.code_of(),
            self.n() as c_int,
            self.kernel_ap_buffer(),
            self.kernel_ap().start,
            conj_when(self.x.buffer(), self.x.frame(), self.solution_conj()),
            base_of(self.x.frame()) as usize,
            increment(self.x.frame()) as c_int,
        )
    }

    /// The first check of a dispatch that fails, or none if the kernel is
    /// reached: the copy that a packed triangle with gaps needs is tried
    /// first, then the checks of the inner builder.
    pub open spec fn run_failure(&self) -> Option<BLASError> {
        if !self.ap.frame().standard() && self.ap.frame().d0 > isize::MAX {
            Some(BLASError::BufferSize)
        } else {
            resolve_failure(self.kernel_ap(), self.x.frame())
        }
    }

    /// `d` is the call that the request comes to: the selectors, dimensions
    /// and operands of `prepare`'s account.
    pub open spec fn prepared(&self, d: TPSV_Driver<'a, 'x, F>) -> bool {
        &&& d.wf()
        &&& d.uplo == self.kernel_uplo().code_of()
        &&& d.trans == self.kernel_trans().code_of()
        &&& d.diag == self.diag.code_of()
        &&& d.n == self.n()
        &&& d.incx == increment(self.x.frame())
        &&& d.x_base == base_of(self.x.frame())
        &&& d.conj == self.solution_conj()
        &&& d.ap.frame() == self.kernel_ap()
        &&& d.ap.buffer() == self.kernel_ap_buffer()
        &&& d.ap is Borrowed <==> self.ap.frame().standard()
        &&& d.ap is Borrowed ==> d.ap == VecCow::Borrowed(self.ap)
        &&& forall|i: int| 0 <= i < self.ap.frame().d0 ==> d.ap.at(i) == #[trigger] self.ap.at(i)
        &&& d.x == ArrayOut1::<'x, F>::ViewMut(self.x)
    }

    /// Validates a column-major request and resolves it into the arguments
    /// of a kernel call. The packed triangle has to be without gaps; it is
    /// handed on as it is, and nothing is written to the vector.
    pub fn driver(self) -> (r: Result<TPSV_Driver<'a, 'x, F>, BLASError>)
        requires
            self.ap.wf(),
            self.x.wf(),
        ensures
            r is Ok <==> self.failure() is None,
            r matches Err(e) ==> self.failure() == Some(e),
            r is Err ==> final(self.x.cell())@ == self.x.buffer(),
            r matches Ok(d) ==> {
                &&& d.wf()
                &&& d.uplo == self.uplo.code_of()
                &&& d.trans == self.trans.code_of()
                &&& d.diag == self.diag.code_of()
                &&& d.n == self.n()
                &&& d.incx == increment(self.x.frame())
                &&& d.x_base == base_of(self.x.frame())
                &&& !d.conj
                &&& d.ap == VecCow::Borrowed(self.ap)
                &&& d.x == ArrayOut1::<'x, F>::ViewMut(self.x)
            },
    {
        let TPSV_ { ap, x, uplo, trans, diag, layout: _ } = self;
        Self::resolve(VecCow::Borrowed(ap), x, uplo, trans, diag, false)
    }

    /// The checks and the narrowing that `driver` and `prepare` share.
    fn resolve(
        ap: VecCow<'a, F>,
        x: VecMut<'x, F>,
        uplo: BLASUpLo,
        trans: BLASTranspose,
        diag: BLASDiag,
        conj: bool,
    ) -> (r: Result<TPSV_Driver<'a, 'x, F>, BLASError>)
        requires
            ap.wf(),
            x.wf(),
        ensures
            r is Ok <==> resolve_failure(ap.frame(), x.frame()) is None,
            r matches Err(e) ==> resolve_failure(ap.frame(), x.frame()) == Some(e),
            r is Err ==> final(x.cell())@ == x.buffer(),
            r matches Ok(d) ==> {
                &&& d.wf()
                &&& d.uplo == uplo.code_of()
                &&& d.trans == trans.code_of()
                &&& d.diag == diag.code_of()
                &&& d.n == x.frame().d0
                &&& d.incx == increment(x.frame())
                &&& d.x_base == base_of(x.frame())
                &&& d.conj == conj
                &&& d.ap == ap
                &&& d.x == ArrayOut1::<'x, F>::ViewMut(x)
            },
    {
        let packed = ap.view();
        if !packed.is_standard_layout() {
            proof {
                x.lemma_laid_down();
            }
            return Err(BLASError::OperandLayout);
        }
        let np = packed.len();
        let n = x.len();
        let incx = if x.stride() == 0 {
            1
        } else {
            x.stride()
        };
        let wide: u128 = n as u128;
        assert(wide * (wide + 1) <= u128::MAX) by (nonlinear_arith)
            requires
                wide <= 0xffff_ffff_ffff_ffff,
        ;
        if np as u128 != wide * (wide + 1) / 2 {
            proof {
                x.lemma_laid_down();
            }
            return Err(BLASError::PackedLength);
        }
        if n > c_int::MAX as usize {
            proof {
                x.lemma_laid_down();
            }
            return Err(BLASError::DimN);
        }
        if incx < c_int::MIN as isize || incx > c_int::MAX as isize {
            proof {
                x.lemma_laid_down();
            }
            return Err(BLASError::Increment);
        }
        let start = x.start();
        let x_base: usize = if incx >= 0 || n == 0 {
            start
        } else {
            let last: i128 = n as i128 - 1;
            let step: i128 = incx as i128;
            proof {
                assert(x.frame().holds(n - 1, 0));
                assert(-0x4000_0000_0000_0000 <= last * step <= 0) by (nonlinear_arith)
                    requires
                        0 <= last <= 0x7fff_ffff,
                        -0x8000_0000 <= step < 0,
                ;
            }
            (start as i128 + last * step) as usize
        };
        let n_int = n as c_int;
        let incx_int = incx as c_int;
        proof {
            if n != 0 {
                assert(n * (n + 1) >= 2) by (nonlinear_arith)
                    requires
                        n >= 1,
                ;
                lemma_packed_fits(packed.frame(), packed.buffer().len());
                assert forall|i: int| 0 <= i < n_int implies 0 <= #[trigger] vec_offset(
                    x_base,
                    incx_int,
                    n_int,
                    i,
                ) < x.buffer().len() by {
                    assert(x.frame().holds(i, 0));
                    lemma_line(x.frame(), i);
                    if n == 1 {
                        assert(0 * x.frame().s0 == 0 && 0 * incx == 0 && 0 * (-incx) == 0)
                            by (nonlinear_arith);
                    } else if incx < 0 {
                        assert((n - 1) * incx + (n - 1 - i) * (-incx) == i * incx)
                            by (nonlinear_arith);
                    }
                }
            }
        }
        Ok(
            TPSV_Driver {
                uplo: uplo.code(),
                trans: trans.code(),
                diag: diag.code(),
                n: n_int,
                ap,
                x: ArrayOut::ViewMut(x),
                x_base,
                incx: incx_int,
                conj,
            },
        )
    }

    /// Takes a request in any layout as far as the kernel: elects the layout
    /// of the call, closes the gaps of the packed triangle, turns a
    /// row-major request into the column-major one that stands for it, and
    /// resolves it. Nothing is written to the vector.
    pub fn prepare(self) -> (r: Result<TPSV_Driver<'a, 'x, F>, BLASError>)
        requires
            self.ap.wf(),
            self.x.wf(),
        ensures
            r is Ok <==> self.run_failure() is None,
            r matches Err(e) ==> self.run_failure() == Some(e),
            r is Err ==> final(self.x.cell())@ == self.x.buffer(),
            r matches Ok(d) ==> self.prepared(d),
    {
        let TPSV_ { ap, x, uplo, trans, diag, layout } = self;
        let voters: Vec<BLASLayout> = Vec::new();
        let target = elect_layout(layout, voters.as_slice());
        let packed = match ap.as_standard_layout() {
            Some(p) => p,
            None => {
                proof {
                    x.lemma_laid_down();
                }
                return Err(BLASError::BufferSize);
            },
        };
        match target {
            BLASLayout::ColMajor => Self::resolve(packed, x, uplo, trans, diag, false),
            _ => {
                let (turned, conj) = match trans {
                    BLASTranspose::NoTrans => (BLASTranspose::Trans, false),
                    BLASTranspose::Trans => (BLASTranspose::NoTrans, false),
                    BLASTranspose::ConjTrans => (BLASTranspose::NoTrans, F::is_complex()),
                };
                Self::resolve(packed, x, uplo.flip(), turned, diag, conj)
            },
        }
    }

    /// Dispatches the solve: prepares the call and has the kernel carry it
    /// out on the caller's vector.
    ///
    /// Nothing is tried twice, and no kernel is reached after a failure. An
    /// empty system reaches no kernel either, and the vector comes back as
    /// it was handed in.
    pub fn run<K: TPSVFunc<F>>(self, kernel: &mut K) -> (r: Result<ArrayOut1<'x, F>, BLASError>)
        requires
            self.ap.wf(),
            self.x.wf(),
        ensures
            r is Ok <==> self.run_failure() is None,
            r matches Err(e) ==> self.run_failure() == Some(e) && *final(kernel) == *old(kernel)
                && final(self.x.cell())@ == self.x.buffer(),
            r matches Ok(out) ==> {
                &&& out.wf()
                &&& out is ViewMut
                &&& out.frame() == self.x.frame()
                &&& out.buffer().len() == self.x.buffer().len()
            },
            r matches Ok(out) ==> final(out.home_cell())@ == final(self.x.cell())@,
            self.n() == 0 ==> *final(kernel) == *old(kernel) && (r is Ok ==> r == Ok::<
                ArrayOut1<'x, F>,
                BLASError,
            >(ArrayOut::ViewMut(self.x))),
            self.n() != 0 ==> (r matches Ok(out) ==> out.buffer() == self.outcome(*old(kernel))
                && *final(kernel) == self.kernel_after(*old(kernel))),
    {
        let driver = match self.prepare() {
            Ok(d) => d,
            Err(e) => {
                return Err(e);
            },
        };
        driver.run_blas(kernel)
    }
}

/// A packed triangle without gaps that fits a buffer ends inside it.
pub proof fn lemma_packed_fits(ap: Frame, len: nat)
    requires
        ap.d1 == 1,
        ap.fits(len),
        ap.standard(),
        ap.d0 >= 1,
    ensures
        ap.start + ap.d0 <= len,
{
    assert(ap.holds(ap.d0 - 1, 0));
    if ap.d0 > 1 {
        assert((ap.d0 - 1) * 1 == ap.d0 - 1);
    } else {
        assert(0 * ap.s0 == 0) by (nonlinear_arith);
    }
}

/// A packed triangular solve in the making: the packed triangle and the
/// vector, and for everything else a default that the caller may replace.
/// The triangle is the upper one, not transposed, its diagonal is as stored,
/// and no layout is asked for.
pub struct TPSV_Builder<'a, 'x, F> {
    request: TPSV_<'a, 'x, F>,
}

/// The packed triangular solve.
pub type TPSV<'a, 'x, F> = TPSV_Builder<'a, 'x, F>;

impl<'a, 'x, F: BLASFloat> TPSV_Builder<'a, 'x, F> {
    /// The request as it stands.
    pub closed spec fn request(&self) -> TPSV_<'a, 'x, F> {
        self.request
    }

    /// A solve of the triangle `ap` for `x`, with every default in place.
    pub fn new(ap: VecRef<'a, F>, x: VecMut<'x, F>) -> (r: Self)
        ensures
            r.request() == (TPSV_ {
                ap,
                x,
                uplo: BLASUpLo::Upper,
                trans: BLASTranspose::NoTrans,
                diag: BLASDiag::NonUnit,
                layout: None,
            }),
    {
        TPSV_Builder {
            request: TPSV_ {
                ap,
                x,
                uplo: BLASUpLo::Upper,
                trans: BLASTranspose::NoTrans,
                diag: BLASDiag::NonUnit,
                layout: None,
            },
        }
    }

    /// Says which triangle is packed.
    pub fn uplo(self, uplo: BLASUpLo) -> (r: Self)
        ensures
            r.request() == (TPSV_ { uplo, ..self.request() }),
    {
        let TPSV_ { ap, x, uplo: _, trans, diag, layout } = self.request;
        TPSV_Builder { request: TPSV_ { ap, x, uplo, trans, diag, layout } }
    }

    /// Chooses the operation applied to the matrix.
    pub fn trans(self, trans: BLASTranspose) -> (r: Self)
        ensures
            r.request() == (TPSV_ { trans, ..self.request() }),
    {
        let TPSV_ { ap, x, uplo, trans: _, diag, layout } = self.request;
        TPSV_Builder { request: TPSV_ { ap, x, uplo, trans, diag, layout } }
    }

    /// Says whether the diagonal is taken to be all ones.
    pub fn diag(self, diag: BLASDiag) -> (r: Self)
        ensures
            r.request() == (TPSV_ { diag, ..self.request() }),
    {
        let TPSV_ { ap, x, uplo, trans, diag: _, layout } = self.request;
        TPSV_Builder { request: TPSV_ { ap, x, uplo, trans, diag, layout } }
    }

    /// Says in which order the triangle is packed.
    pub fn layout(self, layout: BLASLayout) -> (r: Self)
        ensures
            r.request() == (TPSV_ { layout: Some(layout), ..self.request() }),
    {
        let TPSV_ { ap, x, uplo, trans, diag, layout: _ } = self.request;
        TPSV_Builder { request: TPSV_ { ap, x, uplo, trans, diag, layout: Some(layout) } }
    }

    /// The request, with the defaults where the caller chose nothing.
    pub fn build(self) -> (r: TPSV_<'a, 'x, F>)
        ensures
            r == self.request(),
    {
        self.request
    }

    /// Builds the request and dispatches it.
    pub fn run<K: TPSVFunc<F>>(self, kernel: &mut K) -> (r: Result<ArrayOut1<'x, F>, BLASError>)
        requires
            self.request().ap.wf(),
            self.request().x.wf(),
        ensures
            r is Ok <==> self.request().run_failure() is None,
            r matches Err(e) ==> self.request().run_failure() == Some(e) && *final(kernel) == *old(
                kernel,
            ) && final(self.request().x.cell())@ == self.request().x.buffer(),
            r matches Ok(out) ==> {
                &&& out.wf()
                &&& out is ViewMut
                &&& out.frame() == self.request().x.frame()
                &&& out.buffer().len() == self.request().x.buffer().len()
            },
            r matches Ok(out) ==> final(out.home_cell())@ == final(self.request().x.cell())@,
            self.request().n() == 0 ==> *final(kernel) == *old(kernel) && (r is Ok ==> r == Ok::<
                ArrayOut1<'x, F>,
                BLASError,
            >(ArrayOut::ViewMut(self.request().x))),
            self.request().n() != 0 ==> (r matches Ok(out) ==> out.buffer()
                == self.request().outcome(*old(kernel)) && *final(kernel)
                == self.request().kernel_after(*old(kernel))),
    {
        self.build().run(kernel)
    }
}

} // verus!
