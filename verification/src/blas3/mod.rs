//! Operations on two matrices.
pub mod syrk;
