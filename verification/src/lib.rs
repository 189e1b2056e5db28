//! Constraint system and execution traces for proving predictions of a
//! private linear model `y = m * x + b` over a 128-bit prime field.
//!
//! A prover who holds the slope `m` and the intercept `b` builds an
//! [`ExecutionTrace`] from them, from public sample points and from a query
//! point. A [`LinearRegressionAir`] states which traces are valid for a
//! public input record: it evaluates the transition constraints between
//! adjacent rows and lists the boundary assertions that bind trace cells to
//! the record. A proof engine takes both from here.

pub mod air;
pub mod error;
pub mod field;
pub mod inference;
pub mod inputs;
pub mod prover;
pub mod soundness;
pub mod trace;

pub use air::LinearRegressionAir;
pub use inputs::LinearRegressionInputs;
pub use prover::LinearRegressionProver;
pub use trace::{build_linear_regression_trace, ExecutionTrace};
