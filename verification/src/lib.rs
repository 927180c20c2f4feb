//! Composite Simpson quadrature over exact rational arithmetic.
//!
//! The integrator partitions an interval into equal-width panels and sums
//! the Simpson contribution of each panel. All values are rationals, so the
//! contracts pin the result down exactly.

pub mod integrand;
pub mod rational;
pub mod laws;
pub mod simpson;
