//! A single GLWE ciphertext: mask polynomials followed by one body
//! polynomial, all in one flat buffer.

use vstd::prelude::*;

use crate::as_tensor::{AsMutTensor, AsRefTensor, IntoTensor};
use crate::numeric::Numeric;
use crate::parameters::{GlweDimension, GlweSize, PolynomialSize};
use crate::plaintext::PlaintextList;
use crate::tensor::Tensor;

verus! {

/// A GLWE ciphertext over one flat buffer: the mask polynomials first, the
/// body polynomial last, each of `poly_size` coefficients.
pub struct GlweCiphertext<T> {
    tensor: Tensor<T>,
    poly_size: PolynomialSize,
}

impl<T> View for GlweCiphertext<T> {
    type V = Seq<T>;

    closed spec fn view(&self) -> Seq<T> {
        self.tensor@
    }
}

impl<T> GlweCiphertext<T> {
    /// The declared polynomial size of the ciphertext.
    pub closed spec fn spec_polynomial_size(&self) -> PolynomialSize {
        self.poly_size
    }

    /// The number of polynomials the buffer holds, mask components plus
    /// body.
    pub open spec fn spec_size(&self) -> int {
        self@.len() as int / self.spec_polynomial_size().0 as int
    }

    /// The buffer is an exact stack of polynomials of the declared size.
    pub open spec fn well_formed(&self) -> bool {
        &&& self.spec_polynomial_size().0 >= 1
        &&& self@.len() as int % self.spec_polynomial_size().0 as int == 0
    }

    /// Wraps a container of values as a ciphertext of the given polynomial
    /// size, with no copy. The container length must be an exact multiple
    /// of the polynomial size.
    pub fn from_container(cont: Vec<T>, poly_size: PolynomialSize) -> (c: GlweCiphertext<T>)
        requires
            poly_size.0 >= 1,
            cont@.len() as int % poly_size.0 as int == 0,
        ensures
            c@ == cont@,
            c.spec_polynomial_size() == poly_size,
            c.well_formed(),
    {
        GlweCiphertext { tensor: Tensor::from_container(cont), poly_size }
    }

    /// Wraps a tensor of values as a ciphertext of the given polynomial
    /// size, with no copy.
    pub fn from_tensor(tensor: Tensor<T>, poly_size: PolynomialSize) -> (c: GlweCiphertext<T>)
        requires
            poly_size.0 >= 1,
            tensor@.len() as int % poly_size.0 as int == 0,
        ensures
            c@ == tensor@,
            c.spec_polynomial_size() == poly_size,
            c.well_formed(),
    {
        GlweCiphertext { tensor, poly_size }
    }

    /// Consumes the ciphertext and returns the container backing it.
    pub fn into_container(self) -> (cont: Vec<T>)
        ensures
            cont@ == self@,
    {
        self.tensor.into_container()
    }

    /// Returns the number of coefficients of the ciphertext's polynomials.
    pub fn polynomial_size(&self) -> (s: PolynomialSize)
        ensures
            s == self.spec_polynomial_size(),
    {
        self.poly_size
    }

    /// Returns the number of polynomials of the ciphertext, mask components
    /// plus body.
    pub fn size(&self) -> (s: GlweSize)
        requires
            self.well_formed(),
        ensures
            s.0 == self.spec_size(),
    {
        GlweSize(self.tensor.len() / self.poly_size.0)
    }

    /// Returns the number of mask polynomials of the ciphertext.
    pub fn mask_size(&self) -> (d: GlweDimension)
        requires
            self.well_formed(),
            self.spec_size() >= 1,
        ensures
            d.0 == self.spec_size() - 1,
    {
        GlweDimension(self.tensor.len() / self.poly_size.0 - 1)
    }
}

impl<T: Copy> GlweCiphertext<T> {
    /// Allocates a ciphertext of `size.0` polynomials of `poly_size.0`
    /// copies of `value` each.
    pub fn allocate(value: T, poly_size: PolynomialSize, size: GlweSize) -> (c: GlweCiphertext<T>)
        requires
            poly_size.0 >= 1,
            poly_size.0 * size.0 <= usize::MAX,
        ensures
            c@ == Seq::new((poly_size.0 * size.0) as nat, |i: int| value),
            c.spec_polynomial_size() == poly_size,
            c.well_formed(),
            c.spec_size() == size.0,
    {
        let len = poly_size.0 * size.0;
        let c = GlweCiphertext { tensor: Tensor::allocate(value, len), poly_size };
        proof {
            assert(len as int % poly_size.0 as int == 0 && len as int / poly_size.0 as int
                == size.0) by (nonlinear_arith)
                requires
                    poly_size.0 >= 1,
                    len == poly_size.0 * size.0,
            ;
        }
        c
    }

    /// Returns the body of the ciphertext: its last polynomial, the one
    /// that carries the encoded plaintext.
    pub fn get_body(&self) -> (b: super::body::GlweBody<T>)
        requires
            self.well_formed(),
            self.spec_size() >= 1,
        ensures
            b@ == self@.skip(self@.len() - self.spec_polynomial_size().0),
    {
        let len = self.tensor.len();
        let poly = self.poly_size.0;
        proof {
            assert(poly <= len) by (nonlinear_arith)
                requires
                    poly >= 1,
                    len as int % poly as int == 0,
                    len as int / poly as int >= 1,
            ;
        }
        let sub = self.tensor.subtensor(len - poly, poly);
        proof {
            assert(self@.subrange(len - poly, len as int) =~= self@.skip(len - poly));
        }
        super::body::GlweBody::from_tensor(sub)
    }
}

impl<T: Numeric> GlweCiphertext<T> {
    /// Writes a trivial encryption of `plaintexts` into the ciphertext: the
    /// mask polynomials are zeroed, and the body polynomial receives the
    /// plaintexts as they are. No noise is involved; the result is not a
    /// secure encryption.
    pub fn fill_with_trivial_encryption(&mut self, plaintexts: &PlaintextList<T>)
        requires
            old(self).well_formed(),
            old(self).spec_size() >= 1,
            plaintexts@.len() == old(self).spec_polynomial_size().0,
        ensures
            final(self).spec_polynomial_size() == old(self).spec_polynomial_size(),
            final(self).well_formed(),
            final(self)@.len() == old(self)@.len(),
            final(self)@ == Seq::new(
                (old(self)@.len() - plaintexts@.len()) as nat,
                |i: int| T::spec_zero(),
            ) + plaintexts@,
    {
        let len = self.tensor.len();
        let poly = self.poly_size.0;
        proof {
            assert(poly <= len) by (nonlinear_arith)
                requires
                    poly >= 1,
                    len as int % poly as int == 0,
                    len as int / poly as int >= 1,
            ;
        }
        let mask_len = len - poly;
        self.tensor.fill_range(0, mask_len, T::zero());
        self.tensor.copy_range_from(mask_len, plaintexts.as_tensor());
        proof {
            assert(self.tensor@ =~= Seq::new(mask_len as nat, |i: int| T::spec_zero())
                + plaintexts@);
        }
    }
}

impl<T> AsRefTensor for GlweCiphertext<T> {
    type Element = T;

    open spec fn tensor_data(&self) -> Seq<T> {
        self@
    }

    fn as_tensor(&self) -> &Tensor<T> {
        &self.tensor
    }
}

impl<T> AsMutTensor for GlweCiphertext<T> {
    open spec fn same_shape(&self, other: &GlweCiphertext<T>) -> bool {
        self.spec_polynomial_size() == other.spec_polynomial_size()
    }

    fn as_mut_tensor(&mut self) -> &mut Tensor<T> {
        &mut self.tensor
    }
}

impl<T> IntoTensor for GlweCiphertext<T> {
    fn into_tensor(self) -> Tensor<T> {
        self.tensor
    }
}

} // verus!
