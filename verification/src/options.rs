//! European options: pricing and implied volatility.

pub mod black_scholes;
pub mod volatility;

pub use black_scholes::black_scholes;
pub use volatility::{implied_volatility, implied_volatility_with, SolverConfig};
