//! Shape parameters of the scheme's entities.
//!
//! Each parameter is a newtype around `usize`, so that a polynomial size can
//! never be confused with a GLWE size or a ciphertext count in a signature.

use vstd::prelude::*;

verus! {

/// Number of coefficients of the ring polynomials underlying an entity.
#[derive(Clone, Copy, Debug, PartialEq, Eq, Structural)]
pub struct PolynomialSize(pub usize);

/// Number of ring elements of one GLWE ciphertext: mask components plus one
/// body component.
#[derive(Clone, Copy, Debug, PartialEq, Eq, Structural)]
pub struct GlweSize(pub usize);

/// Number of mask components of one GLWE ciphertext; one less than the GLWE
/// size.
#[derive(Clone, Copy, Debug, PartialEq, Eq, Structural)]
pub struct GlweDimension(pub usize);

/// Number of ciphertexts held by a list.
#[derive(Clone, Copy, Debug, PartialEq, Eq, Structural)]
pub struct CiphertextCount(pub usize);

/// Number of plaintexts held by a plaintext list.
#[derive(Clone, Copy, Debug, PartialEq, Eq, Structural)]
pub struct PlaintextCount(pub usize);

/// Index of one digit of the gadget decomposition.
#[derive(Clone, Copy, Debug, PartialEq, Eq, Structural)]
pub struct DecompositionLevel(pub usize);

} // verus!
