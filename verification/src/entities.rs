//! The top-level abstraction for entities: every entity type carries, in
//! the type system, a marker that encodes what abstract kind of object it
//! is. Backends dispatch on that kind without inspecting the type itself.

use vstd::prelude::*;

use crate::glwe::ciphertext::GlweCiphertext;
use crate::glwe::list::GlweList;
use crate::plaintext::PlaintextList;

verus! {

/// A marker type that encodes the abstract kind of an entity.
pub trait EntityKindMarker {
}

/// The kind of a single GLWE ciphertext.
pub struct GlweCiphertextKind;

impl EntityKindMarker for GlweCiphertextKind {
}

/// The kind of a vector of GLWE ciphertexts.
pub struct GlweCiphertextVectorKind;

impl EntityKindMarker for GlweCiphertextVectorKind {
}

/// The kind of a vector of plaintexts.
pub struct PlaintextVectorKind;

impl EntityKindMarker for PlaintextVectorKind {
}

/// A top-level abstraction for entities: a type with an associated kind
/// marker. A type implements exactly one kind, which keeps every entity
/// type narrowly defined.
pub trait AbstractEntity {
    type Kind: EntityKindMarker;
}

impl<T> AbstractEntity for GlweCiphertext<T> {
    type Kind = GlweCiphertextKind;
}

impl<T> AbstractEntity for GlweList<T> {
    type Kind = GlweCiphertextVectorKind;
}

impl<T> AbstractEntity for PlaintextList<T> {
    type Kind = PlaintextVectorKind;
}

} // verus!
