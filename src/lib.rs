//! Evaluation of univariate polynomials and of their first derivative by
//! Horner's scheme, over a dynamically sized or a fixed-size coefficient store.
//!
//! Coefficient `i` of a store is the coefficient of `x^i`. The results are
//! proved equal to the direct power sums of the mathematical model in [`model`].
pub mod containers;
pub mod model;
pub mod numeric;
pub mod polynomial;

pub use containers::{FixedPolynomial, VecPolynomial};
pub use numeric::Numeric;
pub use polynomial::Polynomial;
