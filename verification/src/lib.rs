//! Compiles wire-level descriptions of arithmetic circuits into PLONK-style
//! circuits over the scalar field of BLS12-377, and says in which order a
//! proving session does its work, for one party and for several.
//!
//! A description names its wires, marks each as public or as a secret share,
//! and lists product and sum constraints as tokens `(A|B|C)`. From it come
//! the verifier's circuit with the public inputs by name ([`compat`]) and the
//! prover's circuit with its witness ([`witness`]). The proof system pads the
//! prover's circuit; [`padding`] takes the padded circuit in and derives the
//! verifier's circuit from it. A [`session`] then names each piece of outside
//! work in turn: setup, keys, proof, the opening of a shared proof, and the
//! verification.

pub mod circuit;
pub mod compat;
pub mod decimal;
pub mod error;
pub mod gather;
pub mod padding;
pub mod pow2;
pub mod scalar;
pub mod session;
pub mod squaring;
pub mod token;
pub mod witness;
