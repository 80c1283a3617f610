//! What the dispatch layer has to know of an element type.
use std::marker::PhantomData;
use vstd::prelude::*;

verus! {

/// The values of a buffer, one after the other, as contracts speak of them.
pub type Values<F> = Seq<F>;

/// A scalar that kernels exist for: real or complex, single or double.
///
/// The executable methods are held to the spec functions of the same impl, so
/// that contracts can speak of conjugated values and of zero and one. An impl
/// is believed on this point: each method has to be a pure function.
pub trait BLASFloat: Copy {
    /// The type of the real and of the imaginary part.
    type RealFloat: Copy;

    /// The type has an imaginary part.
    spec fn complex() -> bool;

    /// The complex conjugate.
    spec fn conj_of(self) -> Self;

    /// The additive identity.
    spec fn zero_value() -> Self;

    /// The multiplicative identity.
    spec fn one_value() -> Self;

    fn is_complex() -> (r: bool)
        ensures
            r == Self::complex(),
    ;

    fn conj(self) -> (r: Self)
        ensures
            r == self.conj_of(),
    ;

    fn zero() -> (r: Self)
        ensures
            r == Self::zero_value(),
    ;

    fn one() -> (r: Self)
        ensures
            r == Self::one_value(),
    ;
}

/// What conjugation is taken to be: undone by a second one, and without
/// effect on an element type that has no imaginary part.
pub open spec fn conj_lawful<F: BLASFloat>() -> bool {
    &&& forall|x: F| #[trigger] x.conj_of().conj_of() == x
    &&& !F::complex() ==> forall|x: F| #[trigger] x.conj_of() == x
}

/// The flavour of a rank-k update: symmetric or Hermitian, and the scalar type
/// of its two coefficients.
pub trait BLASSymmetric {
    /// The type of `alpha` and `beta`: the element type for a symmetric
    /// update, its real part's type for a Hermitian one.
    type HermitianFloat: BLASFloat;

    /// The update conjugates one of its two factors.
    spec fn hermitian() -> bool;

    fn is_hermitian() -> (r: bool)
        ensures
            r == Self::hermitian(),
    ;
}

/// Marks a symmetric update over `F`.
#[verifier::reject_recursive_types(F)]
pub struct BLASSymm<F> {
    element: PhantomData<F>,
}

/// Marks a Hermitian update over `F`.
#[verifier::reject_recursive_types(F)]
pub struct BLASHermi<F> {
    element: PhantomData<F>,
}

impl<F: BLASFloat> BLASSymmetric for BLASSymm<F> {
    type HermitianFloat = F;

    open spec fn hermitian() -> bool {
        false
    }

    fn is_hermitian() -> (r: bool) {
        false
    }
}

impl<F: BLASFloat> BLASSymmetric for BLASHermi<F> where F::RealFloat: BLASFloat {
    type HermitianFloat = F::RealFloat;

    open spec fn hermitian() -> bool {
        true
    }

    fn is_hermitian() -> (r: bool) {
        true
    }
}

} // verus!
