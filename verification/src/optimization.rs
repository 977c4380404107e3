//! Root finding.

pub mod root_find;

pub use root_find::{secant, ConvergenceType, SecantError, SecantOk, SecantSolver, SecantStage};
