//! Maps anonymous-credential proofs to W3C verifiable presentations, and checks JSON
//! documents against simple path-addressed structure expectations.
pub mod json;
pub mod presentation;
pub mod structure;
