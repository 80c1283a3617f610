//! Layout-agnostic dispatch onto column-major linear-algebra kernels.
//!
//! Callers describe their vectors and matrices as strided views over plain
//! buffers, in row-major or column-major order. The library classifies each
//! operand, elects a layout for the whole call, rewrites the request
//! (transpose flag, triangle, conjugation) so that a column-major kernel can
//! serve it with as few copies as possible, validates and narrows every
//! dimension, and manages the output buffer.
#![allow(non_camel_case_types)]

pub mod array_out;
pub mod blas2;
pub mod blas3;
pub mod error;
pub mod flags;
pub mod flip;
pub mod frame;
pub mod laws;
pub mod layout;
pub mod matrix;
pub mod scalar;
pub mod vector;
