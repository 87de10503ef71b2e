//! Buffer, tensor and entity layer for GLWE/GGSW ciphertext data.
//!
//! A single flat buffer of integers backs every entity of the scheme: a list
//! of ciphertexts, a ciphertext's mask and body polynomials, or a GGSW
//! decomposition-level matrix and its rows. This crate provides the one
//! concrete wrapper around such a buffer ([`tensor::Tensor`]), the capability
//! contracts that qualify a type as a buffer, dimension-checked constructors
//! for the layered entity types, and the exact, non-overlapping partitioning
//! of a buffer into equal-size sub-regions that row and ciphertext iteration
//! rest on.

pub mod as_tensor;
pub mod container;
pub mod entities;
pub mod ggsw;
pub mod glwe;
pub mod numeric;
pub mod parameters;
pub mod plaintext;
pub mod polynomial;
pub mod seeder;
pub mod split;
pub mod tensor;
