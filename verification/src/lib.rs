//! A dense, row-major matrix value type over a generic numeric element type,
//! with bounds-checked access, functional transformation, and the algebraic
//! operations addition, subtraction and matrix multiplication.

pub mod element;
pub mod laws;
pub mod matrix;
pub mod utils;
