//! Witness extraction for weak Sigma-protocols and blinded polynomial
//! commitments over the BLS12-381 family of curves.
//!
//! Field elements are carried as four little-endian 64-bit limbs holding the
//! canonical representative; the arithmetic itself is done by `ark_ff`.

pub mod modular;
pub mod poly;
pub mod search;
pub mod sigma;
pub mod bls_field;
pub mod curve;
pub mod ed_field;
pub mod error;
pub mod extract;
