//! Operations on a matrix and a vector.
pub mod tpsv;
