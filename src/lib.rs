//! Constraint synthesis for zero-knowledge statements over the BN254 scalar field:
//! variable allocation, comparison and conditional-equality gadgets, polynomial
//! evaluation, and an ElGamal encryption gadget over the Baby-Jubjub-style
//! Edwards curve whose base field is the BN254 scalar field.
//!
//! The field and the curve are fixed (BN254's scalar field, and ed-on-bn254 from
//! arkworks) rather than generic, so that the contracts can speak of canonical
//! integers and points.

pub mod field;
pub mod system;
pub mod allocation;
pub mod gadgets;
pub mod circuits;
pub mod elgamal;
