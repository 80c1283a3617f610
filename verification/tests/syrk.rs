use blas_array2::array_out::ArrayOut;
use blas_array2::blas3::syrk::{is_trans_allowed, SYRKFunc, SYRK_, HERK, SYRK};
use blas_array2::error::{BLASError, BLASErrorKind};
use blas_array2::flags::{BLASLayout, BLASTranspose, BLASUpLo};
use blas_array2::matrix::{MatMut, MatRef};
use blas_array2::scalar::{BLASFloat, BLASHermi, BLASSymm, BLASSymmetric, Values};
use libc::{c_char, c_int};

#[derive(Clone, Copy, Debug, PartialEq)]
struct R(f64);

impl BLASFloat for R {
    type RealFloat = R;

    fn complex() -> bool {
        false
    }

    fn conj_of(self) -> Self {
        self
    }

    fn zero_value() -> Self {
        R(0.0)
    }

    fn one_value() -> Self {
        R(1.0)
    }

    fn is_complex() -> bool {
        false
    }

    fn conj(self) -> Self {
        self
    }

    fn zero() -> Self {
        R(0.0)
    }

    fn one() -> Self {
        R(1.0)
    }
}

#[derive(Clone, Copy, Debug, PartialEq)]
struct C(f64, f64);

impl C {
    fn times(self, other: C) -> C {
        C(self.0 * other.0 - self.1 * other.1, self.0 * other.1 + self.1 * other.0)
    }

    fn plus(self, other: C) -> C {
        C(self.0 + other.0, self.1 + other.1)
    }
}

impl BLASFloat for C {
    type RealFloat = R;

    fn complex() -> bool {
        true
    }

    fn conj_of(self) -> Self {
        C(self.0, -self.1)
    }

    fn zero_value() -> Self {
        C(0.0, 0.0)
    }

    fn one_value() -> Self {
        C(1.0, 0.0)
    }

    fn is_complex() -> bool {
        true
    }

    fn conj(self) -> Self {
        C(self.0, -self.1)
    }

    fn zero() -> Self {
        C(0.0, 0.0)
    }

    fn one() -> Self {
        C(1.0, 0.0)
    }
}

/// An element without a value: a buffer of any length costs nothing.
#[derive(Clone, Copy, Debug, PartialEq)]
struct Z;

impl BLASFloat for Z {
    type RealFloat = Z;

    fn complex() -> bool {
        false
    }

    fn conj_of(self) -> Self {
        Z
    }

    fn zero_value() -> Self {
        Z
    }

    fn one_value() -> Self {
        Z
    }

    fn is_complex() -> bool {
        false
    }

    fn conj(self) -> Self {
        Z
    }

    fn zero() -> Self {
        Z
    }

    fn one() -> Self {
        Z
    }
}

/// What a kernel was called with.
#[derive(Clone, Copy, Debug, PartialEq)]
struct Call {
    uplo: u8,
    trans: u8,
    n: c_int,
    k: c_int,
    a_start: usize,
    lda: c_int,
    c_start: usize,
    ldc: c_int,
}

/// A column-major rank-k kernel that keeps a record of its calls.
struct Kernel {
    calls: Vec<Call>,
}

impl Kernel {
    fn new() -> Kernel {
        Kernel { calls: Vec::new() }
    }

    fn note(
        &mut self,
        uplo: c_char,
        trans: c_char,
        n: c_int,
        k: c_int,
        a_start: usize,
        lda: c_int,
        c_start: usize,
        ldc: c_int,
    ) {
        self.calls.push(Call { uplo: uplo as u8, trans: trans as u8, n, k, a_start, lda, c_start, ldc });
    }
}

fn wanted(uplo: c_char, i: isize, j: isize) -> bool {
    if uplo as u8 == b'U' {
        i <= j
    } else {
        i >= j
    }
}

impl SYRKFunc<R, BLASSymm<R>> for Kernel {
    fn updated(
        &self,
        _uplo: c_char,
        _trans: c_char,
        _n: c_int,
        _k: c_int,
        _alpha: R,
        _a: Values<R>,
        _a_start: usize,
        _lda: c_int,
        _beta: R,
        c: Values<R>,
        _c_start: usize,
        _ldc: c_int,
    ) -> Values<R> {
        c
    }

    fn called(
        &self,
        _uplo: c_char,
        _trans: c_char,
        _n: c_int,
        _k: c_int,
        _alpha: R,
        _a: Values<R>,
        _a_start: usize,
        _lda: c_int,
        _beta: R,
        _c: Values<R>,
        _c_start: usize,
        _ldc: c_int,
    ) -> Self {
        Kernel { calls: self.calls.clone() }
    }

    fn syrk(
        &mut self,
        uplo: c_char,
        trans: c_char,
        n: c_int,
        k: c_int,
        alpha: R,
        a: &[R],
        a_start: usize,
        lda: c_int,
        beta: R,
        c: &mut [R],
        c_start: usize,
        ldc: c_int,
    ) {
        self.note(uplo, trans, n, k, a_start, lda, c_start, ldc);
        let at = |i: isize, j: isize| a[(a_start as isize + i + j * lda as isize) as usize].0;
        for j in 0..n as isize {
            for i in 0..n as isize {
                if !wanted(uplo, i, j) {
                    continue;
                }
                let mut sum = 0.0;
                for l in 0..k as isize {
                    sum += if trans as u8 == b'N' { at(i, l) * at(j, l) } else { at(l, i) * at(l, j) };
                }
                let place = (c_start as isize + i + j * ldc as isize) as usize;
                c[place] = R(alpha.0 * sum + beta.0 * c[place].0);
            }
        }
    }
}

impl SYRKFunc<C, BLASSymm<C>> for Kernel {
    fn updated(
        &self,
        _uplo: c_char,
        _trans: c_char,
        _n: c_int,
        _k: c_int,
        _alpha: C,
        _a: Values<C>,
        _a_start: usize,
        _lda: c_int,
        _beta: C,
        c: Values<C>,
        _c_start: usize,
        _ldc: c_int,
    ) -> Values<C> {
        c
    }

    fn called(
        &self,
        _uplo: c_char,
        _trans: c_char,
        _n: c_int,
        _k: c_int,
        _alpha: C,
        _a: Values<C>,
        _a_start: usize,
        _lda: c_int,
        _beta: C,
        _c: Values<C>,
        _c_start: usize,
        _ldc: c_int,
    ) -> Self {
        Kernel { calls: self.calls.clone() }
    }

    fn syrk(
        &mut self,
        uplo: c_char,
        trans: c_char,
        n: c_int,
        k: c_int,
        alpha: C,
        a: &[C],
        a_start: usize,
        lda: c_int,
        beta: C,
        c: &mut [C],
        c_start: usize,
        ldc: c_int,
    ) {
        self.note(uplo, trans, n, k, a_start, lda, c_start, ldc);
        assert!(trans as u8 == b'N' || trans as u8 == b'T');
        let at = |i: isize, j: isize| a[(a_start as isize + i + j * lda as isize) as usize];
        for j in 0..n as isize {
            for i in 0..n as isize {
                if !wanted(uplo, i, j) {
                    continue;
                }
                let mut sum = C(0.0, 0.0);
                for l in 0..k as isize {
                    sum = sum.plus(if trans as u8 == b'N' {
                        at(i, l).times(at(j, l))
                    } else {
                        at(l, i).times(at(l, j))
                    });
                }
                let place = (c_start as isize + i + j * ldc as isize) as usize;
                c[place] = alpha.times(sum).plus(beta.times(c[place]));
            }
        }
    }
}

impl SYRKFunc<C, BLASHermi<C>> for Kernel {
    fn updated(
        &self,
        _uplo: c_char,
        _trans: c_char,
        _n: c_int,
        _k: c_int,
        _alpha: R,
        _a: Values<C>,
        _a_start: usize,
        _lda: c_int,
        _beta: R,
        c: Values<C>,
        _c_start: usize,
        _ldc: c_int,
    ) -> Values<C> {
        c
    }

    fn called(
        &self,
        _uplo: c_char,
        _trans: c_char,
        _n: c_int,
        _k: c_int,
        _alpha: R,
        _a: Values<C>,
        _a_start: usize,
        _lda: c_int,
        _beta: R,
        _c: Values<C>,
        _c_start: usize,
        _ldc: c_int,
    ) -> Self {
        Kernel { calls: self.calls.clone() }
    }

    fn syrk(
        &mut self,
        uplo: c_char,
        trans: c_char,
        n: c_int,
        k: c_int,
        alpha: R,
        a: &[C],
        a_start: usize,
        lda: c_int,
        beta: R,
        c: &mut [C],
        c_start: usize,
        ldc: c_int,
    ) {
        self.note(uplo, trans, n, k, a_start, lda, c_start, ldc);
        assert!(trans as u8 == b'N' || trans as u8 == b'C');
        let at = |i: isize, j: isize| a[(a_start as isize + i + j * lda as isize) as usize];
        for j in 0..n as isize {
            for i in 0..n as isize {
                if !wanted(uplo, i, j) {
                    continue;
                }
                let mut sum = C(0.0, 0.0);
                for l in 0..k as isize {
                    sum = sum.plus(if trans as u8 == b'N' {
                        at(i, l).times(at(j, l).conj())
                    } else {
                        at(l, i).conj().times(at(l, j))
                    });
                }
                let place = (c_start as isize + i + j * ldc as isize) as usize;
                c[place] = C(alpha.0 * sum.0 + beta.0 * c[place].0, alpha.0 * sum.1 + beta.0 * c[place].1);
            }
        }
    }
}

impl SYRKFunc<Z, BLASSymm<Z>> for Kernel {
    fn updated(
        &self,
        _uplo: c_char,
        _trans: c_char,
        _n: c_int,
        _k: c_int,
        _alpha: Z,
        _a: Values<Z>,
        _a_start: usize,
        _lda: c_int,
        _beta: Z,
        c: Values<Z>,
        _c_start: usize,
        _ldc: c_int,
    ) -> Values<Z> {
        c
    }

    fn called(
        &self,
        _uplo: c_char,
        _trans: c_char,
        _n: c_int,
        _k: c_int,
        _alpha: Z,
        _a: Values<Z>,
        _a_start: usize,
        _lda: c_int,
        _beta: Z,
        _c: Values<Z>,
        _c_start: usize,
        _ldc: c_int,
    ) -> Self {
        Kernel { calls: self.calls.clone() }
    }

    fn syrk(
        &mut self,
        uplo: c_char,
        trans: c_char,
        n: c_int,
        k: c_int,
        _alpha: Z,
        _a: &[Z],
        a_start: usize,
        lda: c_int,
        _beta: Z,
        _c: &mut [Z],
        c_start: usize,
        ldc: c_int,
    ) {
        self.note(uplo, trans, n, k, a_start, lda, c_start, ldc);
    }
}

fn reals(values: &[f64]) -> Vec<R> {
    values.iter().map(|v| R(*v)).collect()
}

const N: BLASTranspose = BLASTranspose::NoTrans;
const T: BLASTranspose = BLASTranspose::Trans;
const H: BLASTranspose = BLASTranspose::ConjTrans;

#[test]
fn rank_k_update_row_major_upper() {
    let a = reals(&[1.0, 2.0, 3.0, 4.0, 5.0, 6.0]);
    let mut c = reals(&[-1.0, -1.0, -1.0, -1.0]);
    let mut kernel = Kernel::new();
    {
        let a = MatRef::new(&a, 0, (2, 3), (3, 1)).unwrap();
        let c = MatMut::new(&mut c, 0, (2, 2), (2, 1)).unwrap();
        let out = SYRK::new(a).c(c).uplo(BLASUpLo::Upper).trans(N).alpha(R(1.0)).beta(R(0.0)).run(&mut kernel).unwrap();
        assert!(matches!(out, ArrayOut::ViewMut(_)));
        assert_eq!(out.view().dim(), (2, 2));
        assert_eq!(out.view().strides(), (2, 1));
        assert_eq!(out.view().get(0, 1), R(32.0));
    }
    assert_eq!(c, reals(&[14.0, 32.0, -1.0, 77.0]));
    assert_eq!(
        kernel.calls,
        vec![Call { uplo: b'L', trans: b'T', n: 2, k: 3, a_start: 0, lda: 3, c_start: 0, ldc: 2 }]
    );
}

#[test]
fn rank_k_update_column_major_upper() {
    let a = reals(&[1.0, 4.0, 2.0, 5.0, 3.0, 6.0]);
    let mut c = reals(&[-1.0, -1.0, -1.0, -1.0]);
    let mut kernel = Kernel::new();
    {
        let a = MatRef::new(&a, 0, (2, 3), (1, 2)).unwrap();
        let c = MatMut::new(&mut c, 0, (2, 2), (1, 2)).unwrap();
        SYRK::new(a).c(c).uplo(BLASUpLo::Upper).run(&mut kernel).unwrap();
    }
    assert_eq!(c, reals(&[14.0, -1.0, 32.0, 77.0]));
    assert_eq!(
        kernel.calls,
        vec![Call { uplo: b'U', trans: b'N', n: 2, k: 3, a_start: 0, lda: 2, c_start: 0, ldc: 2 }]
    );
}

#[test]
fn rank_k_update_lower_is_the_default_triangle() {
    let a = reals(&[1.0, 2.0, 3.0, 4.0, 5.0, 6.0]);
    let mut c = reals(&[-1.0, -1.0, -1.0, -1.0]);
    let mut kernel = Kernel::new();
    {
        let a = MatRef::new(&a, 0, (2, 3), (3, 1)).unwrap();
        let c = MatMut::new(&mut c, 0, (2, 2), (2, 1)).unwrap();
        SYRK::new(a).c(c).run(&mut kernel).unwrap();
    }
    assert_eq!(c, reals(&[14.0, -1.0, 32.0, 77.0]));
}

#[test]
fn rank_k_update_fresh_output_column_major() {
    let a = reals(&[1.0, 4.0, 2.0, 5.0, 3.0, 6.0]);
    let mut kernel = Kernel::new();
    let a = MatRef::new(&a, 0, (2, 3), (1, 2)).unwrap();
    let out = SYRK::new(a).uplo(BLASUpLo::Upper).layout(BLASLayout::ColMajor).run(&mut kernel).unwrap();
    assert!(out.is_owned());
    assert_eq!(out.view().strides(), (1, 2));
    let m = out.into_owned().unwrap();
    assert_eq!(m.dim(), (2, 2));
    assert_eq!(m.get(0, 0), R(14.0));
    assert_eq!(m.get(0, 1), R(32.0));
    assert_eq!(m.get(1, 1), R(77.0));
    assert_eq!(m.get(1, 0), R(0.0));
}

#[test]
fn rank_k_update_fresh_output_row_major() {
    let a = reals(&[1.0, 2.0, 3.0, 4.0, 5.0, 6.0]);
    let mut kernel = Kernel::new();
    let a = MatRef::new(&a, 0, (2, 3), (3, 1)).unwrap();
    let out = SYRK::new(a).uplo(BLASUpLo::Upper).run(&mut kernel).unwrap();
    assert!(out.is_owned());
    assert_eq!(out.view().dim(), (2, 2));
    assert_eq!(out.view().strides(), (2, 1));
    let m = out.into_owned().unwrap();
    assert_eq!(m.into_vec(), reals(&[14.0, 32.0, 0.0, 77.0]));
}

#[test]
fn row_major_and_column_major_storage_give_the_same_result() {
    let row_major = reals(&[1.0, 2.0, 3.0, 4.0, 5.0, 6.0]);
    let col_major = reals(&[1.0, 4.0, 2.0, 5.0, 3.0, 6.0]);
    for uplo in [BLASUpLo::Upper, BLASUpLo::Lower] {
        for trans in [N, T, H] {
            let mut results = Vec::new();
            for hint in [None, Some(BLASLayout::RowMajor), Some(BLASLayout::ColMajor)] {
                for (buf, strides) in [(&row_major, (3, 1)), (&col_major, (1, 2))] {
                    let mut kernel = Kernel::new();
                    let a = MatRef::new(buf, 0, (2, 3), strides).unwrap();
                    let mut call = SYRK::new(a).uplo(uplo).trans(trans).alpha(R(2.0));
                    if let Some(layout) = hint {
                        call = call.layout(layout);
                    }
                    let out = call.run(&mut kernel).unwrap();
                    let seen = out.view();
                    let (n, m) = seen.dim();
                    let rows: Vec<Vec<R>> = (0..n).map(|i| (0..m).map(|j| seen.get(i, j)).collect()).collect();
                    assert_eq!(kernel.calls.len(), 1);
                    results.push(rows);
                }
            }
            for r in &results {
                assert_eq!(r, &results[0]);
            }
            let expected = if trans == N {
                match uplo {
                    BLASUpLo::Upper => vec![reals(&[28.0, 64.0]), reals(&[0.0, 154.0])],
                    BLASUpLo::Lower => vec![reals(&[28.0, 0.0]), reals(&[64.0, 154.0])],
                }
            } else {
                match uplo {
                    BLASUpLo::Upper => {
                        vec![reals(&[34.0, 44.0, 54.0]), reals(&[0.0, 58.0, 72.0]), reals(&[0.0, 0.0, 90.0])]
                    },
                    BLASUpLo::Lower => {
                        vec![reals(&[34.0, 0.0, 0.0]), reals(&[44.0, 58.0, 0.0]), reals(&[54.0, 72.0, 90.0])]
                    },
                }
            };
            assert_eq!(results[0], expected);
        }
    }
}

#[test]
fn an_operand_in_the_layout_of_the_call_is_handed_over_in_place() {
    let buf = reals(&[1.0, 2.0, 3.0, 4.0, 5.0, 6.0]);
    let a = MatRef::new(&buf, 0, (2, 3), (3, 1)).unwrap();
    let driver = SYRK::<R>::new(a).build().prepare().unwrap();
    assert!(driver.a.is_view());
    assert_eq!(driver.a.view().as_slice().as_ptr(), buf.as_ptr());
    assert!(driver.turned);
    assert_eq!((driver.n, driver.k, driver.lda, driver.ldc), (2, 3, 3, 2));
    assert_eq!(driver.trans as u8, b'T');
    assert_eq!(driver.uplo as u8, b'U');
    let a = MatRef::new(&buf, 0, (2, 3), (1, 2)).unwrap();
    let driver = SYRK::<R>::new(a).build().prepare().unwrap();
    assert!(driver.a.is_view());
    assert_eq!(driver.a.view().as_slice().as_ptr(), buf.as_ptr());
    assert!(!driver.turned);
    assert_eq!((driver.n, driver.k, driver.lda, driver.ldc), (2, 3, 2, 2));
    assert_eq!(driver.trans as u8, b'N');
    assert_eq!(driver.uplo as u8, b'L');
    let a = MatRef::new(&buf, 0, (2, 3), (3, 1)).unwrap();
    let driver = SYRK::<R>::new(a).layout(BLASLayout::ColMajor).build().prepare().unwrap();
    assert!(driver.a.is_view());
    assert!(!driver.turned);
    assert_eq!(driver.trans as u8, b'T');
    assert_eq!(driver.a.view().dim(), (3, 2));
}

#[test]
fn an_operand_of_neither_order_is_copied() {
    let buf = reals(&[1.0, 0.0, 2.0, 0.0, 3.0, 0.0, 4.0, 0.0, 5.0, 0.0, 6.0, 0.0]);
    let a = MatRef::new(&buf, 0, (2, 3), (6, 2)).unwrap();
    let driver = SYRK::<R>::new(a).build().prepare().unwrap();
    assert!(!driver.a.is_view());
    let mut kernel = Kernel::new();
    let a = MatRef::new(&buf, 0, (2, 3), (6, 2)).unwrap();
    let out = SYRK::new(a).uplo(BLASUpLo::Upper).run(&mut kernel).unwrap();
    assert_eq!(out.into_owned().unwrap().into_vec(), reals(&[14.0, 32.0, 0.0, 77.0]));
}

#[test]
fn an_output_in_the_other_order_is_shadowed_and_written_back() {
    let a = reals(&[1.0, 2.0, 3.0, 4.0, 5.0, 6.0]);
    let mut c = reals(&[-1.0, -2.0, -3.0, -4.0]);
    let mut kernel = Kernel::new();
    {
        let a = MatRef::new(&a, 0, (2, 3), (3, 1)).unwrap();
        let c = MatMut::new(&mut c, 0, (2, 2), (2, 1)).unwrap();
        let call = SYRK::new(a).c(c).uplo(BLASUpLo::Upper).layout(BLASLayout::ColMajor);
        let out = call.run(&mut kernel).unwrap();
        assert!(matches!(out, ArrayOut::ViewMut(_)));
        assert_eq!(out.view().strides(), (2, 1));
    }
    assert_eq!(c, reals(&[14.0, 32.0, -3.0, 77.0]));
    assert_eq!(kernel.calls[0].uplo, b'U');
    assert_eq!(kernel.calls[0].ldc, 2);
    let mut c = reals(&[-1.0, -2.0, -3.0, -4.0]);
    let a = MatRef::new(&a, 0, (2, 3), (3, 1)).unwrap();
    let c = MatMut::new(&mut c, 0, (2, 2), (2, 1)).unwrap();
    let driver = SYRK::<R>::new(a).c(c).layout(BLASLayout::ColMajor).build().prepare().unwrap();
    assert!(matches!(driver.c, ArrayOut::ToBeCloned(_, _)));
    assert_eq!(driver.c.view().strides(), (1, 2));
    assert_eq!(driver.c.view().get(1, 0), R(-3.0));
}

#[test]
fn an_output_with_a_padded_leading_dimension_is_written_in_place() {
    let a = reals(&[1.0, 4.0, 2.0, 5.0, 3.0, 6.0]);
    let mut c = reals(&[-1.0; 8]);
    let mut kernel = Kernel::new();
    {
        let a = MatRef::new(&a, 0, (2, 3), (1, 2)).unwrap();
        let c = MatMut::new(&mut c, 1, (2, 2), (1, 4)).unwrap();
        SYRK::new(a).c(c).uplo(BLASUpLo::Lower).run(&mut kernel).unwrap();
    }
    assert_eq!(c, reals(&[-1.0, 14.0, 32.0, -1.0, -1.0, -1.0, 77.0, -1.0]));
    assert_eq!(kernel.calls[0].ldc, 4);
    assert_eq!(kernel.calls[0].c_start, 1);
}

#[test]
fn the_coefficients_reach_the_kernel() {
    let a = reals(&[1.0, 2.0, 3.0, 4.0, 5.0, 6.0]);
    let mut c = reals(&[1.0, 1.0, 1.0, 1.0]);
    let mut kernel = Kernel::new();
    {
        let a = MatRef::new(&a, 0, (2, 3), (3, 1)).unwrap();
        let c = MatMut::new(&mut c, 0, (2, 2), (2, 1)).unwrap();
        SYRK::new(a).c(c).alpha(R(2.0)).beta(R(10.0)).uplo(BLASUpLo::Upper).run(&mut kernel).unwrap();
    }
    assert_eq!(c, reals(&[38.0, 74.0, 1.0, 164.0]));
}

#[test]
fn the_update_builder_fills_in_the_defaults() {
    let buf = reals(&[1.0, 2.0]);
    let a = MatRef::new(&buf, 0, (1, 2), (2, 1)).unwrap();
    let plain: SYRK_<R, BLASSymm<R>> = SYRK::new(a).build();
    assert!(plain.c.is_none());
    assert_eq!(plain.alpha, R(1.0));
    assert_eq!(plain.beta, R(0.0));
    assert_eq!(plain.uplo, BLASUpLo::Lower);
    assert_eq!(plain.trans, N);
    assert_eq!(plain.layout, None);
    assert_eq!(plain.a.dim(), (1, 2));
    let mut out = reals(&[0.0]);
    let a = MatRef::new(&buf, 0, (1, 2), (2, 1)).unwrap();
    let c = MatMut::new(&mut out, 0, (1, 1), (1, 1)).unwrap();
    let chosen = SYRK::new(a)
        .c(c)
        .alpha(R(3.0))
        .beta(R(4.0))
        .uplo(BLASUpLo::Upper)
        .trans(T)
        .layout(BLASLayout::ColMajor)
        .build();
    assert!(chosen.c.is_some());
    assert_eq!(chosen.alpha, R(3.0));
    assert_eq!(chosen.beta, R(4.0));
    assert_eq!(chosen.uplo, BLASUpLo::Upper);
    assert_eq!(chosen.trans, T);
    assert_eq!(chosen.layout, Some(BLASLayout::ColMajor));
    assert!(!BLASSymm::<R>::is_hermitian());
    assert!(BLASHermi::<C>::is_hermitian());
}

#[test]
fn hermitian_update_of_complex_elements() {
    // A = [[1+i, 2], [3i, 4-i]], A A^H = [[6, 11-i], [11+i, 26]].
    let row_major = vec![C(1.0, 1.0), C(2.0, 0.0), C(0.0, 3.0), C(4.0, -1.0)];
    let col_major = vec![C(1.0, 1.0), C(0.0, 3.0), C(2.0, 0.0), C(4.0, -1.0)];
    for hint in [None, Some(BLASLayout::RowMajor), Some(BLASLayout::ColMajor)] {
        for (buf, strides) in [(&row_major, (2, 1)), (&col_major, (1, 2))] {
            let mut kernel = Kernel::new();
            let a = MatRef::new(buf, 0, (2, 2), strides).unwrap();
            let mut call = HERK::new(a).uplo(BLASUpLo::Upper);
            if let Some(layout) = hint {
                call = call.layout(layout);
            }
            let out = call.run(&mut kernel).unwrap();
            let seen = out.view();
            assert_eq!(seen.get(0, 0), C(6.0, 0.0));
            assert_eq!(seen.get(0, 1), C(11.0, -1.0));
            assert_eq!(seen.get(1, 1), C(26.0, 0.0));
            assert_eq!(seen.get(1, 0), C(0.0, 0.0));
        }
    }
    // A^H A = [[11, -1-14i], [-1+14i, 21]].
    for hint in [None, Some(BLASLayout::RowMajor), Some(BLASLayout::ColMajor)] {
        for (buf, strides) in [(&row_major, (2, 1)), (&col_major, (1, 2))] {
            let mut kernel = Kernel::new();
            let a = MatRef::new(buf, 0, (2, 2), strides).unwrap();
            let mut call = HERK::new(a).uplo(BLASUpLo::Lower).trans(H).alpha(R(1.0)).beta(R(0.0));
            if let Some(layout) = hint {
                call = call.layout(layout);
            }
            let out = call.run(&mut kernel).unwrap();
            let seen = out.view();
            assert_eq!(seen.get(0, 0), C(11.0, 0.0));
            assert_eq!(seen.get(1, 0), C(-1.0, 14.0));
            assert_eq!(seen.get(1, 1), C(21.0, 0.0));
            assert_eq!(seen.get(0, 1), C(0.0, 0.0));
        }
    }
}

#[test]
fn symmetric_update_of_complex_elements() {
    // A = [[1+i, 2], [3i, 4-i]], A A^T = [[4+2i, 5+i], [5+i, 6-8i]].
    let row_major = vec![C(1.0, 1.0), C(2.0, 0.0), C(0.0, 3.0), C(4.0, -1.0)];
    let col_major = vec![C(1.0, 1.0), C(0.0, 3.0), C(2.0, 0.0), C(4.0, -1.0)];
    for (buf, strides) in [(&row_major, (2, 1)), (&col_major, (1, 2))] {
        let mut kernel = Kernel::new();
        let a = MatRef::new(buf, 0, (2, 2), strides).unwrap();
        let out = SYRK::new(a).uplo(BLASUpLo::Upper).run(&mut kernel).unwrap();
        let seen = out.view();
        assert_eq!(seen.get(0, 0), C(4.0, 2.0));
        assert_eq!(seen.get(0, 1), C(5.0, 1.0));
        assert_eq!(seen.get(1, 1), C(6.0, -8.0));
    }
}

#[test]
fn flags_that_the_kernels_do_not_take_are_refused() {
    assert!(is_trans_allowed(H, false, false));
    assert!(is_trans_allowed(H, false, true));
    assert!(is_trans_allowed(T, true, false));
    assert!(!is_trans_allowed(H, true, false));
    assert!(!is_trans_allowed(T, true, true));
    assert!(is_trans_allowed(N, true, true));
    let buf = vec![C(1.0, 1.0), C(2.0, 0.0), C(0.0, 3.0), C(4.0, -1.0)];
    let mut kernel = Kernel::new();
    let a = MatRef::new(&buf, 0, (2, 2), (2, 1)).unwrap();
    let r = SYRK::new(a).trans(H).run(&mut kernel);
    assert_eq!(r.err(), Some(BLASError::Transpose));
    let a = MatRef::new(&buf, 0, (2, 2), (2, 1)).unwrap();
    let r = HERK::new(a).trans(T).run(&mut kernel);
    assert_eq!(r.err(), Some(BLASError::Transpose));
    assert_eq!(BLASError::Transpose.kind(), BLASErrorKind::InvalidParameter);
    assert!(kernel.calls.is_empty());
}

#[test]
fn an_output_of_the_wrong_shape_is_refused_and_left_alone() {
    let a = reals(&[1.0, 2.0, 3.0, 4.0, 5.0, 6.0]);
    let mut c = reals(&[-1.0; 6]);
    let mut kernel = Kernel::new();
    {
        let a = MatRef::new(&a, 0, (2, 3), (3, 1)).unwrap();
        let c = MatMut::new(&mut c, 0, (2, 3), (3, 1)).unwrap();
        let r = SYRK::new(a).c(c).run(&mut kernel);
        assert_eq!(r.err(), Some(BLASError::OutputShape));
    }
    {
        let a = MatRef::new(&a, 0, (2, 3), (3, 1)).unwrap();
        let c = MatMut::new(&mut c, 0, (2, 2), (2, 1)).unwrap();
        let r = SYRK::new(a).c(c).trans(T).run(&mut kernel);
        assert_eq!(r.err(), Some(BLASError::OutputShape));
    }
    assert_eq!(c, reals(&[-1.0; 6]));
    assert!(kernel.calls.is_empty());
}

#[test]
fn dimensions_beyond_the_kernel_integer_are_refused() {
    let big = [Z; 1 << 31];
    let mut kernel = Kernel::new();
    let a = MatRef::new(&big, 0, (1 << 31, 1), (1, 1)).unwrap();
    assert_eq!(SYRK::new(a).run(&mut kernel).err(), Some(BLASError::DimN));
    let a = MatRef::new(&big, 0, (1 << 31, 1), (1, 1)).unwrap();
    assert_eq!(SYRK::new(a).trans(T).run(&mut kernel).err(), Some(BLASError::DimK));
    let a = MatRef::new(&big, 0, (1, 1 << 31), (1, 1)).unwrap();
    assert_eq!(SYRK::new(a).run(&mut kernel).err(), Some(BLASError::DimK));
    let a = MatRef::new(&big, 0, ((1 << 31) - 1, 1), (1, 1)).unwrap();
    assert_eq!(SYRK::new(a).trans(T).run(&mut kernel).map(|out| out.view().dim()), Ok((1, 1)));
    assert_eq!(kernel.calls.len(), 1);
    assert_eq!(kernel.calls[0].k, c_int::MAX);
}

#[test]
fn leading_dimensions_beyond_the_kernel_integer_are_refused() {
    let far = [Z; (1 << 40) + 2];
    let mut kernel = Kernel::new();
    let a = MatRef::new(&far, 0, (1, 2), (1, 1 << 40)).unwrap();
    assert_eq!(SYRK::new(a).trans(T).run(&mut kernel).err(), Some(BLASError::LeadingDimA));
    let a = MatRef::new(&far, 0, (2, 1), (1 << 40, 1)).unwrap();
    assert_eq!(SYRK::new(a).run(&mut kernel).err(), Some(BLASError::LeadingDimA));
    let mut out = [Z; (1 << 40) + 2];
    let a = MatRef::new(&far, 0, (2, 1), (1, 1)).unwrap();
    let c = MatMut::new(&mut out, 0, (2, 2), (1, 1 << 40)).unwrap();
    let r = SYRK::new(a).c(c).layout(BLASLayout::ColMajor).run(&mut kernel);
    assert_eq!(r.err(), Some(BLASError::LeadingDimC));
    assert_eq!(BLASError::LeadingDimC.kind(), BLASErrorKind::IntegerOverflow);
    assert!(kernel.calls.is_empty());
}

#[test]
fn a_single_column_is_told_with_its_own_step_where_a_kernel_takes_it() {
    let buf = reals(&[1.0, 2.0, 3.0]);
    for (strides, lda) in [((1, 1), 3), ((1, 0), 3), ((1, -7), 3), ((1, 2), 3), ((1, 3), 3), ((1, 5), 5)] {
        let mut kernel = Kernel::new();
        let a = MatRef::new(&buf, 0, (3, 1), strides).unwrap();
        let out = SYRK::new(a).uplo(BLASUpLo::Upper).layout(BLASLayout::ColMajor).run(&mut kernel).unwrap();
        assert_eq!(
            kernel.calls,
            vec![Call { uplo: b'U', trans: b'N', n: 3, k: 1, a_start: 0, lda, c_start: 0, ldc: 3 }]
        );
        let m = out.into_owned().unwrap();
        assert_eq!(m.into_vec(), reals(&[1.0, 0.0, 0.0, 2.0, 4.0, 0.0, 3.0, 6.0, 9.0]));
    }
    let mut kernel = Kernel::new();
    let a = MatRef::new(&buf, 0, (3, 1), (1, 1 << 40)).unwrap();
    let r = SYRK::new(a).layout(BLASLayout::ColMajor).run(&mut kernel);
    assert_eq!(r.err(), Some(BLASError::LeadingDimA));
    assert!(kernel.calls.is_empty());
    for (step, ldc) in [(0, 1), (1, 1), (5, 5), (-5, 1)] {
        let mut kernel = Kernel::new();
        let mut one = reals(&[0.0]);
        let a = MatRef::new(&buf, 1, (1, 1), (9, 9)).unwrap();
        let c = MatMut::new(&mut one, 0, (1, 1), (step, step)).unwrap();
        SYRK::new(a).c(c).run(&mut kernel).unwrap();
        assert_eq!((kernel.calls[0].lda, kernel.calls[0].ldc, kernel.calls[0].a_start), (9, ldc, 1));
        assert_eq!(one, reals(&[4.0]));
    }
    let mut kernel = Kernel::new();
    let mut one = reals(&[0.0]);
    let a = MatRef::new(&buf, 1, (1, 1), (1, 1)).unwrap();
    let c = MatMut::new(&mut one, 0, (1, 1), (1, 1 << 40)).unwrap();
    let r = SYRK::new(a).c(c).layout(BLASLayout::ColMajor).run(&mut kernel);
    assert_eq!(r.err(), Some(BLASError::LeadingDimC));
    assert!(kernel.calls.is_empty());
}

#[test]
fn strides_that_no_kernel_takes_are_served_by_a_copy() {
    // Overlapping columns: element (i, j) is the (i + j)-th of the buffer.
    let buf = reals(&[1.0, 2.0, 3.0]);
    let a = MatRef::new(&buf, 0, (2, 2), (1, 1)).unwrap();
    let driver = SYRK::<R>::new(a).layout(BLASLayout::ColMajor).build().prepare().unwrap();
    assert!(!driver.a.is_view());
    let mut kernel = Kernel::new();
    let a = MatRef::new(&buf, 0, (2, 2), (1, 1)).unwrap();
    let out = SYRK::new(a).uplo(BLASUpLo::Upper).layout(BLASLayout::ColMajor).run(&mut kernel).unwrap();
    // A = [[1, 2], [2, 3]], A A^T = [[5, 8], [8, 13]].
    assert_eq!(out.into_owned().unwrap().into_vec(), reals(&[5.0, 0.0, 8.0, 13.0]));
    assert!(kernel.calls[0].lda >= 2);
    // Columns that run backwards.
    let buf = reals(&[3.0, 4.0, 1.0, 2.0]);
    let mut kernel = Kernel::new();
    let a = MatRef::new(&buf, 2, (2, 2), (1, -2)).unwrap();
    let out = SYRK::new(a).uplo(BLASUpLo::Upper).run(&mut kernel).unwrap();
    // A = [[1, 3], [2, 4]], A A^T = [[10, 14], [14, 20]].
    let seen = out.view();
    assert_eq!((seen.get(0, 0), seen.get(0, 1), seen.get(1, 1)), (R(10.0), R(14.0), R(20.0)));
    assert!(kernel.calls[0].lda >= 2);
    // An output whose columns run backwards is shadowed.
    let a_buf = reals(&[1.0, 2.0, 3.0, 4.0]);
    let mut c_buf = reals(&[-1.0, -2.0, -3.0, -4.0]);
    let mut kernel = Kernel::new();
    {
        let a = MatRef::new(&a_buf, 0, (2, 2), (1, 2)).unwrap();
        let c = MatMut::new(&mut c_buf, 2, (2, 2), (1, -2)).unwrap();
        SYRK::new(a).c(c).uplo(BLASUpLo::Upper).layout(BLASLayout::ColMajor).run(&mut kernel).unwrap();
    }
    assert_eq!(kernel.calls[0].ldc, 2);
    assert_eq!(c_buf, reals(&[14.0, 20.0, 10.0, -4.0]));
}

#[test]
fn a_copy_that_cannot_be_counted_is_refused() {
    let buf = reals(&[1.0]);
    let mut kernel = Kernel::new();
    let a = MatRef::new(&buf, 0, (1 << 40, 1 << 40), (0, 0)).unwrap();
    assert_eq!(SYRK::new(a).run(&mut kernel).err(), Some(BLASError::BufferSize));
    assert!(kernel.calls.is_empty());
}

#[test]
fn the_inner_builder_takes_column_major_requests_only() {
    let buf = reals(&[1.0, 2.0, 3.0, 4.0, 5.0, 6.0]);
    let request = |strides: (isize, isize), layout: Option<BLASLayout>| SYRK_::<R, BLASSymm<R>> {
        a: MatRef::new(&buf, 0, (2, 3), strides).unwrap(),
        c: None,
        alpha: R(1.0),
        beta: R(0.0),
        uplo: BLASUpLo::Upper,
        trans: N,
        layout,
    };
    assert_eq!(request((1, 2), None).driver().err(), Some(BLASError::LayoutHint));
    assert_eq!(request((1, 2), Some(BLASLayout::RowMajor)).driver().err(), Some(BLASError::LayoutHint));
    assert_eq!(request((3, 1), Some(BLASLayout::ColMajor)).driver().err(), Some(BLASError::OperandLayout));
    let driver = request((1, 2), Some(BLASLayout::ColMajor)).driver().unwrap();
    assert_eq!(driver.uplo as u8, b'U');
    assert_eq!(driver.trans as u8, b'N');
    assert_eq!((driver.n, driver.k, driver.lda, driver.ldc), (2, 3, 2, 2));
    assert_eq!((driver.alpha, driver.beta), (R(1.0), R(0.0)));
    assert!(!driver.turned);
    assert!(driver.a.is_view());
    assert!(driver.c.is_owned());
    let mut kernel = Kernel::new();
    let out = driver.run_blas(&mut kernel).unwrap();
    assert_eq!(out.into_owned().unwrap().into_vec(), reals(&[35.0, 0.0, 44.0, 56.0]));
}

#[test]
fn an_update_without_elements_calls_no_kernel() {
    let none: Vec<R> = Vec::new();
    let mut c = reals(&[1.0, 2.0, 3.0, 4.0]);
    let mut kernel = Kernel::new();
    for strides in [(2, 1), (1, 2)] {
        for hint in [None, Some(BLASLayout::RowMajor), Some(BLASLayout::ColMajor)] {
            let a = MatRef::new(&none, 0, (2, 0), (0, 0)).unwrap();
            let view = MatMut::new(&mut c, 0, (2, 2), strides).unwrap();
            let mut call = SYRK::new(a).c(view).beta(R(5.0));
            if let Some(layout) = hint {
                call = call.layout(layout);
            }
            let out = call.run(&mut kernel).unwrap();
            assert!(matches!(out, ArrayOut::ViewMut(_)));
            assert_eq!(out.view().strides(), strides);
        }
    }
    assert_eq!(c, reals(&[1.0, 2.0, 3.0, 4.0]));
    let a = MatRef::new(&none, 0, (0, 3), (3, 1)).unwrap();
    let out = SYRK::new(a).run(&mut kernel).unwrap();
    assert!(out.is_owned());
    assert_eq!(out.view().dim(), (0, 0));
    let a = MatRef::new(&none, 0, (0, 3), (3, 1)).unwrap();
    let out = SYRK::new(a).trans(T).run(&mut kernel).unwrap();
    assert_eq!(out.view().dim(), (3, 3));
    assert_eq!(out.into_owned().unwrap().into_vec(), reals(&[0.0; 9]));
    assert!(kernel.calls.is_empty());
}
