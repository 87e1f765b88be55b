//! Psychrometric request handling: locating the temperature and relative
//! humidity in a request line, validating them, deriving the mould-growth risk
//! index, and framing the response.
//!
//! Measurements are IEEE 754 binary64 values carried as their bit patterns, so
//! every comparison and rounding rule is stated and proved over integers.

pub mod binary64;
pub mod error;
pub mod measurement;
pub mod mould;
pub mod request;
pub mod response;
pub mod text;
