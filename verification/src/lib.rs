//! Nugget BLS: BLS signatures on BLS12-381 accompanied by a Chaum-Pedersen
//! DLEQ proof, with Straus-Shamir (and GLV) dual scalar multiplication used
//! to verify them quickly.
//!
//! Group elements and scalars are held as plain values (canonical encodings
//! and little-endian limbs); the arithmetic itself is done by arkworks.
pub mod scalar;
pub mod group;
pub mod dual_scalar_mul;
pub mod correctness;
pub mod nugget;
pub mod chaum_pedersen_signature;
pub mod double_nugget;
pub mod double_nugget_glv;
pub mod triple_nugget;
