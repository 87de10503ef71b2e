//! The body of a GLWE ciphertext: the one polynomial that carries the
//! encoded plaintext.

use vstd::prelude::*;

use crate::as_tensor::{AsMutTensor, AsRefTensor, IntoTensor};
use crate::polynomial::Polynomial;
use crate::tensor::Tensor;

verus! {

/// The body polynomial of a GLWE ciphertext.
pub struct GlweBody<T> {
    poly: Polynomial<T>,
}

impl<T> View for GlweBody<T> {
    type V = Seq<T>;

    closed spec fn view(&self) -> Seq<T> {
        self.poly@
    }
}

impl<T> GlweBody<T> {
    /// Wraps a container of coefficients as a ciphertext body, with no
    /// copy.
    pub fn from_container(cont: Vec<T>) -> (b: GlweBody<T>)
        ensures
            b@ == cont@,
    {
        GlweBody { poly: Polynomial::from_container(cont) }
    }

    /// Wraps a tensor of coefficients as a ciphertext body, with no copy.
    pub fn from_tensor(tensor: Tensor<T>) -> (b: GlweBody<T>)
        ensures
            b@ == tensor@,
    {
        GlweBody { poly: Polynomial::from_tensor(tensor) }
    }

    /// Consumes the body and returns a polynomial over the original
    /// container.
    pub fn into_polynomial(self) -> (p: Polynomial<T>)
        ensures
            p@ == self@,
    {
        self.poly
    }

    /// Returns a borrowed polynomial over the body's buffer.
    pub fn as_polynomial(&self) -> (p: &Polynomial<T>)
        ensures
            p@ == self@,
    {
        &self.poly
    }

    /// Returns a mutably borrowed polynomial over the body's buffer.
    pub fn as_mut_polynomial(&mut self) -> (p: &mut Polynomial<T>)
        ensures
            (*p)@ == old(self)@,
            final(self)@ == (*final(p))@,
    {
        &mut self.poly
    }
}

impl<T> AsRefTensor for GlweBody<T> {
    type Element = T;

    open spec fn tensor_data(&self) -> Seq<T> {
        self@
    }

    fn as_tensor(&self) -> &Tensor<T> {
        self.poly.as_tensor()
    }
}

impl<T> AsMutTensor for GlweBody<T> {
    open spec fn same_shape(&self, other: &GlweBody<T>) -> bool {
        true
    }

    fn as_mut_tensor(&mut self) -> &mut Tensor<T> {
        self.poly.as_mut_tensor()
    }
}

impl<T> IntoTensor for GlweBody<T> {
    fn into_tensor(self) -> Tensor<T> {
        self.poly.into_tensor()
    }
}

} // verus!
