//! Entities of the GLWE scheme: single ciphertexts, ciphertext bodies, and
//! lists of ciphertexts.

pub mod body;
pub mod ciphertext;
pub mod list;
