//! Continuous probability distributions over IEEE-754 double-precision
//! values, modelled at the bit level.
//!
//! A double is carried as its 64-bit pattern ([`Double`]). Every operation
//! whose result is exact in binary64 arithmetic — classification, ordering,
//! scaling by powers of two, parameter validation, and the domain and
//! algorithm-regime decisions of the distribution layer — is implemented
//! and verified here against an integer-valued model of the encoding.
//! The approximate transcendental evaluations and the rejection sampler
//! consume these decisions from a host crate.

pub mod chi_squared;
pub mod error;
pub mod fisher_snedecor;
pub mod fp;
pub mod gamma;
pub mod special;

pub use chi_squared::ChiSquared;
pub use error::StatsError;
pub use fisher_snedecor::FisherSnedecor;
pub use fp::Double;
pub use gamma::Gamma;
