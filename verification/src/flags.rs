//! Selectors of a kernel call and the layout tag of an operand.
use libc::{c_char, c_int};
use vstd::prelude::*;

verus! {

/// The value fits the integer that the kernels count and step in.
pub open spec fn fits_int(v: int) -> bool {
    c_int::MIN <= v <= c_int::MAX
}

/// What the shape and the strides of a two-dimensional operand say about its
/// memory layout. Values never enter into it.
#[derive(Clone, Copy, Debug, PartialEq, Eq, Structural)]
pub enum BLASLayout {
    /// The second axis is the contiguous one.
    RowMajor,
    /// The first axis is the contiguous one.
    ColMajor,
    /// Empty or a single element: as good as either order.
    Sequential,
    /// Neither axis has unit stride.
    NonContiguous,
}

impl BLASLayout {
    /// Row-major kernels could take the operand as it is.
    pub open spec fn cpref(self) -> bool {
        self is RowMajor || self is Sequential
    }

    /// Column-major kernels could take the operand as it is.
    pub open spec fn fpref(self) -> bool {
        self is ColMajor || self is Sequential
    }

    #[verifier::when_used_as_spec(cpref)]
    pub fn is_cpref(self) -> (r: bool)
        ensures
            r == self.cpref(),
    {
        match self {
            BLASLayout::RowMajor => true,
            BLASLayout::Sequential => true,
            _ => false,
        }
    }

    #[verifier::when_used_as_spec(fpref)]
    pub fn is_fpref(self) -> (r: bool)
        ensures
            r == self.fpref(),
    {
        match self {
            BLASLayout::ColMajor => true,
            BLASLayout::Sequential => true,
            _ => false,
        }
    }
}

/// The operation applied to a matrix operand.
#[derive(Clone, Copy, Debug, PartialEq, Eq, Structural)]
pub enum BLASTranspose {
    NoTrans,
    Trans,
    ConjTrans,
}

impl BLASTranspose {
    /// The flag that goes with the transposed operand: transposing once more
    /// undoes a transposition, and an untransposed operand becomes a
    /// transposed one, conjugated where the operation is Hermitian.
    pub open spec fn flipped(self, hermi: bool) -> BLASTranspose {
        match self {
            BLASTranspose::NoTrans => if hermi {
                BLASTranspose::ConjTrans
            } else {
                BLASTranspose::Trans
            },
            BLASTranspose::Trans => BLASTranspose::NoTrans,
            BLASTranspose::ConjTrans => BLASTranspose::NoTrans,
        }
    }

    #[verifier::when_used_as_spec(flipped)]
    pub fn flip(self, hermi: bool) -> (r: BLASTranspose)
        ensures
            r == self.flipped(hermi),
    {
        match self {
            BLASTranspose::NoTrans => if hermi {
                BLASTranspose::ConjTrans
            } else {
                BLASTranspose::Trans
            },
            BLASTranspose::Trans => BLASTranspose::NoTrans,
            BLASTranspose::ConjTrans => BLASTranspose::NoTrans,
        }
    }

    /// The character the kernels know the flag by: `N`, `T` or `C`.
    pub open spec fn code_of(self) -> c_char {
        match self {
            BLASTranspose::NoTrans => 78,
            BLASTranspose::Trans => 84,
            BLASTranspose::ConjTrans => 67,
        }
    }

    #[verifier::when_used_as_spec(code_of)]
    pub fn code(self) -> (r: c_char)
        ensures
            r == self.code_of(),
    {
        match self {
            BLASTranspose::NoTrans => 78,
            BLASTranspose::Trans => 84,
            BLASTranspose::ConjTrans => 67,
        }
    }
}

/// The triangle of a symmetric, Hermitian or triangular matrix that is stored.
#[derive(Clone, Copy, Debug, PartialEq, Eq, Structural)]
pub enum BLASUpLo {
    Upper,
    Lower,
}

impl BLASUpLo {
    /// The triangle that holds the same entries once the matrix is transposed.
    pub open spec fn flipped(self) -> BLASUpLo {
        match self {
            BLASUpLo::Upper => BLASUpLo::Lower,
            BLASUpLo::Lower => BLASUpLo::Upper,
        }
    }

    #[verifier::when_used_as_spec(flipped)]
    pub fn flip(self) -> (r: BLASUpLo)
        ensures
            r == self.flipped(),
    {
        match self {
            BLASUpLo::Upper => BLASUpLo::Lower,
            BLASUpLo::Lower => BLASUpLo::Upper,
        }
    }

    /// The character the kernels know the triangle by: `U` or `L`.
    pub open spec fn code_of(self) -> c_char {
        match self {
            BLASUpLo::Upper => 85,
            BLASUpLo::Lower => 76,
        }
    }

    #[verifier::when_used_as_spec(code_of)]
    pub fn code(self) -> (r: c_char)
        ensures
            r == self.code_of(),
    {
        match self {
            BLASUpLo::Upper => 85,
            BLASUpLo::Lower => 76,
        }
    }
}

/// Whether the diagonal of a triangular matrix is taken to be all ones.
#[derive(Clone, Copy, Debug, PartialEq, Eq, Structural)]
pub enum BLASDiag {
    NonUnit,
    Unit,
}

impl BLASDiag {
    /// The character the kernels know the flag by: `N` or `U`.
    pub open spec fn code_of(self) -> c_char {
        match self {
            BLASDiag::NonUnit => 78,
            BLASDiag::Unit => 85,
        }
    }

    #[verifier::when_used_as_spec(code_of)]
    pub fn code(self) -> (r: c_char)
        ensures
            r == self.code_of(),
    {
        match self {
            BLASDiag::NonUnit => 78,
            BLASDiag::Unit => 85,
        }
    }
}

} // verus!
