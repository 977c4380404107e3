//! A secant root finder, Black-Scholes pricing of European options and
//! implied volatility, over IEEE 754 binary64 numbers.
//!
//! A binary64 number is held as its bit pattern ([`binary64::Binary64`]) and
//! is read through the standard's value model, so every comparison the
//! algorithms make is decided here, and proved. The operations on the numbers
//! are the caller's ([`numerics::Numerics`]): each function is handed the
//! operations it computes with, and its contract says which results of which
//! operations its own result is made of.

pub mod binary64;
pub mod numerics;
pub mod optimization;
pub mod options;
