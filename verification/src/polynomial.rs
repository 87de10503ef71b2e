//! A single ring polynomial, stored as its coefficient buffer.

use vstd::prelude::*;

use crate::as_tensor::{AsMutTensor, AsRefTensor, IntoTensor};
use crate::parameters::PolynomialSize;
use crate::tensor::Tensor;

verus! {

/// A polynomial of the ring underlying the scheme: one coefficient per
/// buffer element, and nothing else.
pub struct Polynomial<T> {
    tensor: Tensor<T>,
}

impl<T> View for Polynomial<T> {
    type V = Seq<T>;

    closed spec fn view(&self) -> Seq<T> {
        self.tensor@
    }
}

impl<T> Polynomial<T> {
    /// Wraps a container of coefficients, with no copy.
    pub fn from_container(cont: Vec<T>) -> (p: Polynomial<T>)
        ensures
            p@ == cont@,
    {
        Polynomial { tensor: Tensor::from_container(cont) }
    }

    /// Wraps a tensor of coefficients, with no copy.
    pub fn from_tensor(tensor: Tensor<T>) -> (p: Polynomial<T>)
        ensures
            p@ == tensor@,
    {
        Polynomial { tensor }
    }

    /// Returns the number of coefficients of the polynomial.
    pub fn polynomial_size(&self) -> (s: PolynomialSize)
        ensures
            s.0 == self@.len(),
    {
        PolynomialSize(self.tensor.len())
    }
}

impl<T> AsRefTensor for Polynomial<T> {
    type Element = T;

    open spec fn tensor_data(&self) -> Seq<T> {
        self@
    }

    fn as_tensor(&self) -> &Tensor<T> {
        &self.tensor
    }
}

impl<T> AsMutTensor for Polynomial<T> {
    open spec fn same_shape(&self, other: &Polynomial<T>) -> bool {
        true
    }

    fn as_mut_tensor(&mut self) -> &mut Tensor<T> {
        &mut self.tensor
    }
}

impl<T> IntoTensor for Polynomial<T> {
    fn into_tensor(self) -> Tensor<T> {
        self.tensor
    }
}

} // verus!
