//! What a dispatch can fail with, before any kernel runs.
//!
//! Every failure is one of an input: a state that only a defect of the
//! library could bring about, such as a vector that is to be solved in place
//! but is not the caller's own, is ruled out by proof and has no error value.
use vstd::prelude::*;

verus! {

/// The three families of failure.
#[derive(Clone, Copy, Debug, PartialEq, Eq, Structural)]
pub enum BLASErrorKind {
    /// A selector outside the set the operation takes, or an operand whose
    /// layout the kernel boundary cannot take.
    InvalidParameter,
    /// Operand shapes that do not fit each other.
    IncompatibleDimensions,
    /// A dimension, stride or size that the kernel's integer cannot hold.
    IntegerOverflow,
}

/// The check that failed. Every error is found before the kernel is called,
/// and none is retried.
#[derive(Clone, Copy, Debug, PartialEq, Eq, Structural)]
pub enum BLASError {
    /// The transpose flag is not one the operation takes for this element type.
    Transpose,
    /// The inner builder was handed a layout other than column-major.
    LayoutHint,
    /// An operand reached the kernel boundary in a layout the kernel cannot walk.
    OperandLayout,
    /// The packed triangle does not hold `n (n + 1) / 2` elements.
    PackedLength,
    /// The output matrix is not `n` by `n`.
    OutputShape,
    /// The order `n` does not fit the kernel's integer.
    DimN,
    /// The inner dimension `k` does not fit the kernel's integer.
    DimK,
    /// The leading dimension of the input matrix does not fit the kernel's integer.
    LeadingDimA,
    /// The leading dimension of the output matrix does not fit the kernel's integer.
    LeadingDimC,
    /// The increment of the vector does not fit the kernel's integer.
    Increment,
    /// A fresh output buffer would hold more elements than can be counted.
    BufferSize,
}

impl BLASError {
    /// The family the failed check belongs to.
    pub open spec fn kind_of(self) -> BLASErrorKind {
        match self {
            BLASError::Transpose => BLASErrorKind::InvalidParameter,
            BLASError::LayoutHint => BLASErrorKind::InvalidParameter,
            BLASError::OperandLayout => BLASErrorKind::InvalidParameter,
            BLASError::PackedLength => BLASErrorKind::IncompatibleDimensions,
            BLASError::OutputShape => BLASErrorKind::IncompatibleDimensions,
            BLASError::DimN => BLASErrorKind::IntegerOverflow,
            BLASError::DimK => BLASErrorKind::IntegerOverflow,
            BLASError::LeadingDimA => BLASErrorKind::IntegerOverflow,
            BLASError::LeadingDimC => BLASErrorKind::IntegerOverflow,
            BLASError::Increment => BLASErrorKind::IntegerOverflow,
            BLASError::BufferSize => BLASErrorKind::IntegerOverflow,
        }
    }

    #[verifier::when_used_as_spec(kind_of)]
    pub fn kind(self) -> (r: BLASErrorKind)
        ensures
            r == self.kind_of(),
    {
        match self {
            BLASError::Transpose => BLASErrorKind::InvalidParameter,
            BLASError::LayoutHint => BLASErrorKind::InvalidParameter,
            BLASError::OperandLayout => BLASErrorKind::InvalidParameter,
            BLASError::PackedLength => BLASErrorKind::IncompatibleDimensions,
            BLASError::OutputShape => BLASErrorKind::IncompatibleDimensions,
            BLASError::DimN => BLASErrorKind::IntegerOverflow,
            BLASError::DimK => BLASErrorKind::IntegerOverflow,
            BLASError::LeadingDimA => BLASErrorKind::IntegerOverflow,
            BLASError::LeadingDimC => BLASErrorKind::IntegerOverflow,
            BLASError::Increment => BLASErrorKind::IntegerOverflow,
            BLASError::BufferSize => BLASErrorKind::IntegerOverflow,
        }
    }

    /// The sentence shown to the caller.
    pub open spec fn message_of(self) -> &'static str {
        match self {
            BLASError::Transpose => "transpose flag not accepted by this operation",
            BLASError::LayoutHint => "inner builder takes column-major requests only",
            BLASError::OperandLayout => "operand is not column-major at the kernel boundary",
            BLASError::PackedLength => "packed length is not n (n + 1) / 2",
            BLASError::OutputShape => "output matrix is not n by n",
            BLASError::DimN => "order n exceeds the kernel integer",
            BLASError::DimK => "inner dimension k exceeds the kernel integer",
            BLASError::LeadingDimA => "leading dimension of the input exceeds the kernel integer",
            BLASError::LeadingDimC => "leading dimension of the output exceeds the kernel integer",
            BLASError::Increment => "vector increment exceeds the kernel integer",
            BLASError::BufferSize => "output buffer size cannot be counted",
        }
    }

    /// A readable account of which check failed.
    pub fn message(self) -> (r: &'static str)
        ensures
            r == self.message_of(),
    {
        match self {
            BLASError::Transpose => "transpose flag not accepted by this operation",
            BLASError::LayoutHint => "inner builder takes column-major requests only",
            BLASError::OperandLayout => "operand is not column-major at the kernel boundary",
            BLASError::PackedLength => "packed length is not n (n + 1) / 2",
            BLASError::OutputShape => "output matrix is not n by n",
            BLASError::DimN => "order n exceeds the kernel integer",
            BLASError::DimK => "inner dimension k exceeds the kernel integer",
            BLASError::LeadingDimA => "leading dimension of the input exceeds the kernel integer",
            BLASError::LeadingDimC => "leading dimension of the output exceeds the kernel integer",
            BLASError::Increment => "vector increment exceeds the kernel integer",
            BLASError::BufferSize => "output buffer size cannot be counted",
        }
    }
}

} // verus!
