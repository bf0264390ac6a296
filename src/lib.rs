//! Layout and decision logic of a piecewise-cubic spline fit.
//!
//! A fit over `n + 1` sorted samples has `n` cubic segments and a square
//! system of `4n` equations in the `4n` segment coefficients. This crate
//! states which equation stands in which row, what each matrix entry is as
//! a symbolic term over the samples, and how elimination picks its pivots.
//! Evaluating the terms and the elimination arithmetic happen in floating
//! point outside the verified code.

pub mod constraint;
pub mod laws;
pub mod pivot;
pub mod system;
