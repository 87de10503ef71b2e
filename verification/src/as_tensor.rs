//! View-capability contracts for entity types.
//!
//! Every entity of the scheme is structurally a [`Tensor`] plus shape
//! metadata. The three contracts here give each such type one uniform way to
//! expose that tensor: borrowed read-only, borrowed mutable, and consuming.
//! Each entity implements the three by delegating to its tensor field, so
//! the accessor logic lives in one place and cannot drift between entity
//! types.

use vstd::prelude::*;

use crate::tensor::Tensor;

verus! {

/// Read-only view contract: the entity can expose a borrowed tensor view of
/// its backing buffer.
pub trait AsRefTensor {
    type Element;

    /// The content of the entity's backing buffer, in order.
    spec fn tensor_data(&self) -> Seq<Self::Element>;

    /// Returns a borrowed tensor view of the entity's backing buffer.
    fn as_tensor(&self) -> (t: &Tensor<Self::Element>)
        ensures
            t@ == self.tensor_data(),
    ;
}

/// Mutable view contract: the entity can expose a mutably borrowed tensor
/// view of its backing buffer. The entity's shape metadata is untouched by
/// whatever the caller writes through the view.
pub trait AsMutTensor: AsRefTensor {
    /// Whether two values of the entity carry the same shape metadata.
    spec fn same_shape(&self, other: &Self) -> bool;

    /// Returns a mutably borrowed tensor view of the entity's backing
    /// buffer.
    fn as_mut_tensor(&mut self) -> (t: &mut Tensor<Self::Element>)
        ensures
            (*t)@ == old(self).tensor_data(),
            final(self).tensor_data() == (*final(t))@,
            final(self).same_shape(old(self)),
    ;
}

/// Consuming view contract: the entity can be consumed, handing its backing
/// tensor out by value. This is what reinterpretation between entity types
/// of identical layout is built on: the tensor moves, the wrapping type
/// changes, no data moves.
pub trait IntoTensor: AsRefTensor + Sized {
    /// Consumes the entity and returns its backing tensor.
    fn into_tensor(self) -> (t: Tensor<Self::Element>)
        ensures
            t@ == self.tensor_data(),
    ;
}

} // verus!
