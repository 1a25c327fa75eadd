//! Linear algebra on matrices of any size.

pub mod matrix;
