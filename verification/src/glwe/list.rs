//! A list of ciphertexts encoded with the GLWE scheme, over one flat
//! buffer.
//!
//! The buffer holds `ciphertext_count` consecutive ciphertexts, each of
//! `glwe_size × polynomial_size` elements. The shape metadata is redundant
//! with the buffer length on purpose: it makes the indexing arithmetic
//! explicit, and the divisibility condition of [`GlweList::well_formed`]
//! guards that the redundancy never drifts out of sync.

use vstd::prelude::*;

use crate::as_tensor::{AsMutTensor, AsRefTensor, IntoTensor};
use crate::glwe::ciphertext::GlweCiphertext;
use crate::numeric::Numeric;
use crate::parameters::{CiphertextCount, GlweDimension, GlweSize, PolynomialSize};
use crate::plaintext::PlaintextList;
use crate::split::{lemma_chunks_flatten, lemma_chunks_index, lemma_chunks_len, spec_chunks, Split};
use crate::tensor::Tensor;

verus! {

/// The buffers of a sequence of ciphertexts, in order.
pub open spec fn spec_ciphertext_views<T>(cts: Seq<GlweCiphertext<T>>) -> Seq<Seq<T>> {
    cts.map_values(|c: GlweCiphertext<T>| c@)
}

/// A list of GLWE ciphertexts over one flat buffer.
pub struct GlweList<T> {
    tensor: Tensor<T>,
    rlwe_size: GlweSize,
    poly_size: PolynomialSize,
}

impl<T> View for GlweList<T> {
    type V = Seq<T>;

    closed spec fn view(&self) -> Seq<T> {
        self.tensor@
    }
}

impl<T> GlweList<T> {
    /// The declared size of each ciphertext of the list, in ring elements.
    pub closed spec fn spec_glwe_size(&self) -> GlweSize {
        self.rlwe_size
    }

    /// The declared polynomial size of the list's ciphertexts.
    pub closed spec fn spec_polynomial_size(&self) -> PolynomialSize {
        self.poly_size
    }

    /// The stride of one ciphertext inside the buffer.
    pub open spec fn spec_ciphertext_size(&self) -> int {
        self.spec_glwe_size().0 * self.spec_polynomial_size().0
    }

    /// The number of ciphertexts the buffer holds.
    pub open spec fn spec_ciphertext_count(&self) -> int {
        self@.len() as int / self.spec_ciphertext_size()
    }

    /// The number of mask components of each ciphertext.
    pub open spec fn spec_glwe_dimension(&self) -> int {
        self.spec_glwe_size().0 - 1
    }

    /// The buffer is an exact stack of ciphertexts of the declared shape.
    pub open spec fn well_formed(&self) -> bool {
        &&& self.spec_glwe_size().0 >= 1
        &&& self.spec_polynomial_size().0 >= 1
        &&& self.spec_ciphertext_size() <= usize::MAX
        &&& self@.len() as int % self.spec_ciphertext_size() == 0
    }

    /// Creates a list from a container of values, with no copy. The
    /// container length must be an exact multiple of the ciphertext stride
    /// `(rlwe_dimension + 1) × poly_size`.
    pub fn from_container(
        cont: Vec<T>,
        rlwe_dimension: GlweDimension,
        poly_size: PolynomialSize,
    ) -> (l: GlweList<T>)
        requires
            poly_size.0 >= 1,
            rlwe_dimension.0 + 1 <= usize::MAX,
            (rlwe_dimension.0 + 1) * poly_size.0 <= usize::MAX,
            cont@.len() as int % ((rlwe_dimension.0 + 1) * poly_size.0) == 0,
        ensures
            l@ == cont@,
            l.spec_glwe_size().0 == rlwe_dimension.0 + 1,
            l.spec_polynomial_size() == poly_size,
            l.well_formed(),
            l.spec_ciphertext_count() == cont@.len() as int / ((rlwe_dimension.0 + 1)
                * poly_size.0),
    {
        GlweList {
            tensor: Tensor::from_container(cont),
            rlwe_size: GlweSize(rlwe_dimension.0 + 1),
            poly_size,
        }
    }

    /// Creates a list from a container of values after checking the shape:
    /// the result is the list exactly when the polynomial size is positive,
    /// the ciphertext stride fits the machine, and the container length is
    /// an exact multiple of the stride; otherwise nothing is produced and
    /// no list with a fractional ciphertext can exist.
    pub fn checked_from_container(
        cont: Vec<T>,
        rlwe_dimension: GlweDimension,
        poly_size: PolynomialSize,
    ) -> (r: Option<GlweList<T>>)
        ensures
            r is Some <==> (poly_size.0 >= 1 && rlwe_dimension.0 + 1 <= usize::MAX && (
            rlwe_dimension.0 + 1) * poly_size.0 <= usize::MAX && cont@.len() as int % ((
            rlwe_dimension.0 + 1) * poly_size.0) == 0),
            r matches Some(l) ==> l@ == cont@ && l.spec_glwe_size().0 == rlwe_dimension.0 + 1
                && l.spec_polynomial_size() == poly_size && l.well_formed(),
    {
        if poly_size.0 == 0 {
            return None;
        }
        let rlwe_size = match rlwe_dimension.0.checked_add(1) {
            Some(s) => s,
            None => {
                return None;
            },
        };
        let size = match rlwe_size.checked_mul(poly_size.0) {
            Some(s) => s,
            None => {
                return None;
            },
        };
        proof {
            assert(size >= 1) by (nonlinear_arith)
                requires
                    rlwe_size >= 1,
                    poly_size.0 >= 1,
                    size == rlwe_size * poly_size.0,
            ;
        }
        if cont.len() % size != 0 {
            return None;
        }
        Some(Self::from_container(cont, rlwe_dimension, poly_size))
    }

    /// Returns the number of ciphertexts in the list.
    pub fn ciphertext_count(&self) -> (c: CiphertextCount)
        requires
            self.well_formed(),
        ensures
            c.0 == self.spec_ciphertext_count(),
    {
        let size = self.rlwe_size.0 * self.poly_size.0;
        proof {
            assert(size >= 1) by (nonlinear_arith)
                requires
                    self.rlwe_size.0 >= 1,
                    self.poly_size.0 >= 1,
                    size == self.rlwe_size.0 * self.poly_size.0,
            ;
        }
        CiphertextCount(self.tensor.len() / size)
    }

    /// Returns the size of the GLWE ciphertexts contained in the list.
    pub fn glwe_size(&self) -> (s: GlweSize)
        ensures
            s == self.spec_glwe_size(),
    {
        self.rlwe_size
    }

    /// Returns the number of coefficients of the polynomials used for the
    /// list ciphertexts.
    pub fn polynomial_size(&self) -> (s: PolynomialSize)
        ensures
            s == self.spec_polynomial_size(),
    {
        self.poly_size
    }

    /// Returns the number of masks of the ciphertexts in the list.
    pub fn glwe_dimension(&self) -> (d: GlweDimension)
        requires
            self.well_formed(),
        ensures
            d.0 == self.spec_glwe_dimension(),
    {
        GlweDimension(self.rlwe_size.0 - 1)
    }

    /// Partitions the list into its ciphertexts by ownership transfer: the
    /// list is consumed, and each disjoint `glwe_size × poly_size` region of
    /// its buffer moves into one ciphertext, in buffer order.
    pub fn ciphertext_iter_mut(self) -> (cts: Vec<GlweCiphertext<T>>)
        requires
            self.well_formed(),
        ensures
            cts@.len() == self.spec_ciphertext_count(),
            forall|i: int|
                0 <= i < cts@.len() ==> (#[trigger] cts@[i])@ == self@.subrange(
                    i * self.spec_ciphertext_size(),
                    (i + 1) * self.spec_ciphertext_size(),
                ),
            forall|i: int|
                0 <= i < cts@.len() ==> (#[trigger] cts@[i]).spec_polynomial_size()
                    == self.spec_polynomial_size() && cts@[i].well_formed() && cts@[i].spec_size()
                    == self.spec_glwe_size().0,
    {
        let ghost me = self;
        let poly_size = self.poly_size;
        let rlwe = self.rlwe_size.0;
        let size = rlwe * poly_size.0;
        proof {
            assert(size > 0) by (nonlinear_arith)
                requires
                    rlwe >= 1,
                    poly_size.0 >= 1,
                    size == rlwe * poly_size.0,
            ;
        }
        let chunks = Split::into_chunks(self.tensor, size);
        proof {
            assert forall|i: int| 0 <= i < chunks@.len() implies (#[trigger] chunks@[i])@.len()
                == rlwe * poly_size.0 by {
                assert(0 <= i * size && i * size + size <= me@.len()) by (nonlinear_arith)
                    requires
                        size > 0,
                        me@.len() as int % size as int == 0,
                        0 <= i < me@.len() as int / size as int,
                ;
            }
        }
        let cts = ciphertexts_from_tensors(chunks, poly_size, rlwe);
        proof {
            assert forall|i: int| 0 <= i < cts@.len() implies (#[trigger] cts@[i])@
                == me@.subrange(i * me.spec_ciphertext_size(), (i + 1) * me.spec_ciphertext_size())
                by {
                assert((i + 1) * size == i * size + size) by (nonlinear_arith);
            }
        }
        cts
    }

    /// Rebuilds a list from its ciphertexts: the buffers of `cts` are
    /// concatenated, in order, into one flat buffer. Together with
    /// partitioning this is the round trip: the ciphertexts produced by one
    /// partitioning call, handed back in order, reproduce the original list.
    pub fn from_ciphertexts(
        cts: Vec<GlweCiphertext<T>>,
        glwe_dimension: GlweDimension,
        poly_size: PolynomialSize,
    ) -> (l: GlweList<T>)
        requires
            poly_size.0 >= 1,
            glwe_dimension.0 + 1 <= usize::MAX,
            (glwe_dimension.0 + 1) * poly_size.0 <= usize::MAX,
            forall|i: int|
                0 <= i < cts@.len() ==> (#[trigger] cts@[i])@.len() == (glwe_dimension.0 + 1)
                    * poly_size.0,
        ensures
            l@ == spec_ciphertext_views(cts@).flatten(),
            l.spec_glwe_size().0 == glwe_dimension.0 + 1,
            l.spec_polynomial_size() == poly_size,
            l.well_formed(),
            l.spec_ciphertext_count() == cts@.len(),
    {
        let ghost octs = cts@;
        let ghost cs = (glwe_dimension.0 + 1) * poly_size.0;
        let mut cts = cts;
        let mut data: Vec<T> = Vec::new();
        let n = cts.len();
        proof {
            assert(cs >= 1) by (nonlinear_arith)
                requires
                    glwe_dimension.0 + 1 >= 1,
                    poly_size.0 >= 1,
                    cs == (glwe_dimension.0 + 1) * poly_size.0,
            ;
            assert(spec_ciphertext_views(octs.take(0)) =~= Seq::<Seq<T>>::empty());
            assert(data@ =~= spec_ciphertext_views(octs.take(0)).flatten());
        }
        for idx in 0..n
            invariant
                n == octs.len(),
                cts@ == octs.skip(idx as int),
                data@ == spec_ciphertext_views(octs.take(idx as int)).flatten(),
                data@.len() == idx * cs,
                forall|i: int| 0 <= i < octs.len() ==> (#[trigger] octs[i])@.len() == cs,
        {
            let ct = cts.remove(0);
            let mut buf = ct.into_container();
            let ghost prev = data@;
            let ghost bufv = buf@;
            data.append(&mut buf);
            proof {
                assert(cts@ =~= octs.skip(idx + 1));
                let done = spec_ciphertext_views(octs.take(idx as int));
                let now = spec_ciphertext_views(octs.take(idx + 1));
                assert(bufv == octs[idx as int]@);
                assert(data@ == prev + bufv);
                assert(now =~= done.push(octs[idx as int]@));
                Seq::lemma_flatten_push(done, octs[idx as int]@);
                assert(data@ == now.flatten());
                assert((idx + 1) * cs == idx * cs + cs) by (nonlinear_arith);
            }
        }
        proof {
            assert(octs.take(n as int) =~= octs);
            assert(n * cs as int % cs == 0 && n * cs as int / cs == n) by (nonlinear_arith)
                requires
                    cs >= 1,
            ;
        }
        GlweList {
            tensor: Tensor::from_container(data),
            rlwe_size: GlweSize(glwe_dimension.0 + 1),
            poly_size,
        }
    }
}

impl<T: Copy> GlweList<T> {
    /// Allocates storage for an owned list of `ciphertext_number.0`
    /// ciphertexts filled with `value`, each of `glwe_dimension.0 + 1`
    /// polynomials of `poly_size.0` coefficients.
    pub fn allocate(
        value: T,
        poly_size: PolynomialSize,
        glwe_dimension: GlweDimension,
        ciphertext_number: CiphertextCount,
    ) -> (l: GlweList<T>)
        requires
            poly_size.0 >= 1,
            glwe_dimension.0 + 1 <= usize::MAX,
            (glwe_dimension.0 + 1) * poly_size.0 <= usize::MAX,
            poly_size.0 * (glwe_dimension.0 + 1) * ciphertext_number.0 <= usize::MAX,
        ensures
            l@ == Seq::new(
                (poly_size.0 * (glwe_dimension.0 + 1) * ciphertext_number.0) as nat,
                |i: int| value,
            ),
            l.spec_glwe_size().0 == glwe_dimension.0 + 1,
            l.spec_polynomial_size() == poly_size,
            l.well_formed(),
            l.spec_ciphertext_count() == ciphertext_number.0,
    {
        proof {
            assert(poly_size.0 * (glwe_dimension.0 + 1) <= poly_size.0 * (glwe_dimension.0 + 1)
                * ciphertext_number.0 || ciphertext_number.0 == 0) by (nonlinear_arith)
                requires
                    poly_size.0 >= 1,
                    glwe_dimension.0 + 1 >= 1,
            ;
        }
        let len = (poly_size.0 * (glwe_dimension.0 + 1)) * ciphertext_number.0;
        let l = GlweList {
            tensor: Tensor::allocate(value, len),
            rlwe_size: GlweSize(glwe_dimension.0 + 1),
            poly_size,
        };
        proof {
            let cs = (glwe_dimension.0 + 1) * poly_size.0;
            assert(len as int % cs == 0 && len as int / cs == ciphertext_number.0)
                by (nonlinear_arith)
                requires
                    poly_size.0 >= 1,
                    glwe_dimension.0 + 1 >= 1,
                    cs == (glwe_dimension.0 + 1) * poly_size.0,
                    len == poly_size.0 * (glwe_dimension.0 + 1) * ciphertext_number.0,
            ;
        }
        l
    }

    /// Returns one fresh ciphertext per disjoint `glwe_size × poly_size`
    /// region of the list's buffer, in buffer order.
    pub fn ciphertext_iter(&self) -> (cts: Vec<GlweCiphertext<T>>)
        requires
            self.well_formed(),
        ensures
            cts@.len() == self.spec_ciphertext_count(),
            forall|i: int|
                0 <= i < cts@.len() ==> (#[trigger] cts@[i])@ == self@.subrange(
                    i * self.spec_ciphertext_size(),
                    (i + 1) * self.spec_ciphertext_size(),
                ),
            forall|i: int|
                0 <= i < cts@.len() ==> (#[trigger] cts@[i]).spec_polynomial_size()
                    == self.spec_polynomial_size() && cts@[i].well_formed() && cts@[i].spec_size()
                    == self.spec_glwe_size().0,
    {
        let poly_size = self.poly_size;
        let rlwe = self.rlwe_size.0;
        let size = rlwe * poly_size.0;
        proof {
            assert(size > 0) by (nonlinear_arith)
                requires
                    rlwe >= 1,
                    poly_size.0 >= 1,
                    size == rlwe * poly_size.0,
            ;
        }
        let subs = self.tensor.subtensor_iter(size);
        proof {
            assert forall|i: int| 0 <= i < subs@.len() implies (#[trigger] subs@[i])@.len()
                == rlwe * poly_size.0 by {
                assert(0 <= i * size && i * size + size <= self@.len()) by (nonlinear_arith)
                    requires
                        size > 0,
                        self@.len() as int % size as int == 0,
                        0 <= i < self@.len() as int / size as int,
                ;
            }
        }
        let cts = ciphertexts_from_tensors(subs, poly_size, rlwe);
        proof {
            assert forall|i: int| 0 <= i < cts@.len() implies (#[trigger] cts@[i])@
                == self@.subrange(
                i * self.spec_ciphertext_size(),
                (i + 1) * self.spec_ciphertext_size(),
            ) by {
                assert((i + 1) * size == i * size + size) by (nonlinear_arith);
            }
        }
        cts
    }

    /// Writes a trivial encryption of `plaintexts` into the list: for each
    /// ciphertext, in buffer order, the mask polynomials are zeroed and the
    /// body polynomial receives the next `poly_size` plaintexts. The
    /// supplied plaintext count must equal `poly_size × ciphertext_count`.
    pub fn fill_with_trivial_encryption(&mut self, plaintexts: &PlaintextList<T>) where T: Numeric
        requires
            old(self).well_formed(),
            plaintexts@.len() == old(self).spec_polynomial_size().0
                * old(self).spec_ciphertext_count(),
        ensures
            final(self).spec_glwe_size() == old(self).spec_glwe_size(),
            final(self).spec_polynomial_size() == old(self).spec_polynomial_size(),
            final(self)@.len() == old(self)@.len(),
            final(self).well_formed(),
            forall|i: int|
                0 <= i < old(self).spec_ciphertext_count() ==> #[trigger] final(self)@.subrange(
                    i * old(self).spec_ciphertext_size(),
                    (i + 1) * old(self).spec_ciphertext_size(),
                ) == Seq::new(
                    (old(self).spec_ciphertext_size() - old(self).spec_polynomial_size().0) as nat,
                    |q: int| T::spec_zero(),
                ) + plaintexts@.subrange(
                    i * old(self).spec_polynomial_size().0,
                    (i + 1) * old(self).spec_polynomial_size().0,
                ),
    {
        let poly = self.poly_size.0;
        let cs = self.rlwe_size.0 * poly;
        proof {
            assert(cs >= poly && cs >= 1) by (nonlinear_arith)
                requires
                    poly >= 1,
                    self.rlwe_size.0 >= 1,
                    cs == self.rlwe_size.0 * poly,
            ;
        }
        let len = self.tensor.len();
        let count = len / cs;
        let mask = cs - poly;
        let plain_len = plaintexts.count().0;
        proof {
            let ghost occ = old(self).spec_ciphertext_count();
            assert(count * cs == len && count == occ) by (nonlinear_arith)
                requires
                    poly >= 1,
                    self.rlwe_size.0 >= 1,
                    cs == self.rlwe_size.0 * poly,
                    len as int % cs as int == 0,
                    count == len as int / cs as int,
                    occ == len as int / (self.rlwe_size.0 * poly),
            ;
        }
        let zero = T::zero();
        for i in 0..count
            invariant
                self.rlwe_size == old(self).spec_glwe_size(),
                self.poly_size == old(self).spec_polynomial_size(),
                poly == self.poly_size.0,
                poly >= 1,
                cs == self.rlwe_size.0 * poly,
                cs >= poly,
                cs >= 1,
                mask == cs - poly,
                len == self.tensor@.len(),
                len == old(self)@.len(),
                count * cs == len,
                zero == T::spec_zero(),
                plaintexts@.len() == poly * count,
                plain_len == plaintexts@.len(),
                forall|j: int|
                    0 <= j < i ==> #[trigger] self.tensor@.subrange(j * cs, (j + 1) * cs)
                        == Seq::new(mask as nat, |q: int| T::spec_zero()) + plaintexts@.subrange(
                        j * poly,
                        (j + 1) * poly,
                    ),
                forall|p: int| i * cs <= p < len ==> self.tensor@[p] == old(self)@[p],
        {
            proof {
                assert(0 <= i * cs && i * cs + cs <= count * cs && (i + 1) * cs == i * cs + cs
                    && 0 <= i * poly && i * poly + poly <= count * poly && count * poly == poly
                    * count) by (nonlinear_arith)
                    requires
                        0 <= i < count,
                        cs >= 1,
                        poly >= 1,
                ;
                assert(i * poly + poly <= plain_len);
            }
            let start = i * cs;
            let chunk = plaintexts.as_tensor().subtensor(i * poly, poly);
            let ghost before = self.tensor@;
            self.tensor.fill_range(start, mask, zero);
            self.tensor.copy_range_from(start + mask, &chunk);
            proof {
                assert forall|j: int| 0 <= j < i + 1 implies #[trigger] self.tensor@.subrange(
                    j * cs,
                    (j + 1) * cs,
                ) == Seq::new(mask as nat, |q: int| T::spec_zero()) + plaintexts@.subrange(
                    j * poly,
                    (j + 1) * poly,
                ) by {
                    assert(0 <= j * cs && (j + 1) * cs == j * cs + cs && j * cs + cs <= count * cs
                        && 0 <= j * poly && (j + 1) * poly == j * poly + poly && j * poly + poly
                        <= poly * count) by (nonlinear_arith)
                        requires
                            0 <= j < count,
                            i < count,
                            cs >= 1,
                            poly >= 1,
                    ;
                    if j < i {
                        assert(j * cs + cs <= i * cs) by (nonlinear_arith)
                            requires
                                j < i,
                                cs >= 1,
                        ;
                        assert(self.tensor@.subrange(j * cs, j * cs + cs) =~= before.subrange(
                            j * cs,
                            j * cs + cs,
                        ));
                    } else {
                        assert(self.tensor@.subrange(j * cs, j * cs + cs) =~= Seq::new(
                            mask as nat,
                            |q: int| T::spec_zero(),
                        ) + plaintexts@.subrange(j * poly, j * poly + poly));
                    }
                }
                assert forall|p: int| (i + 1) * cs <= p < len implies self.tensor@[p] == old(
                    self,
                )@[p] by {
                    assert((i + 1) * cs == i * cs + cs) by (nonlinear_arith);
                }
            }
        }
        proof {
            assert(final(self)@.len() as int % final(self).spec_ciphertext_size() == 0);
        }
    }
}

/// Rewraps each tensor of `subs` as a ciphertext of `rlwe × poly_size.0`
/// elements, in order.
fn ciphertexts_from_tensors<T>(
    subs: Vec<Tensor<T>>,
    poly_size: PolynomialSize,
    rlwe: usize,
) -> (cts: Vec<GlweCiphertext<T>>)
    requires
        poly_size.0 >= 1,
        rlwe >= 1,
        forall|i: int| 0 <= i < subs@.len() ==> (#[trigger] subs@[i])@.len() == rlwe * poly_size.0,
    ensures
        cts@.len() == subs@.len(),
        forall|i: int| 0 <= i < subs@.len() ==> (#[trigger] cts@[i])@ == subs@[i]@,
        forall|i: int|
            0 <= i < subs@.len() ==> (#[trigger] cts@[i]).spec_polynomial_size() == poly_size
                && cts@[i].well_formed() && cts@[i].spec_size() == rlwe,
{
    let mut subs = subs;
    let mut cts: Vec<GlweCiphertext<T>> = Vec::new();
    let ghost osubs = subs@;
    let n = subs.len();
    proof {
        assert(rlwe * poly_size.0 as int % poly_size.0 as int == 0 && rlwe * poly_size.0 as int
            / poly_size.0 as int == rlwe) by (nonlinear_arith)
            requires
                poly_size.0 >= 1,
                rlwe >= 1,
        ;
    }
    for idx in 0..n
        invariant
            n == osubs.len(),
            subs@ == osubs.skip(idx as int),
            cts@.len() == idx,
            poly_size.0 >= 1,
            rlwe >= 1,
            forall|i: int|
                0 <= i < osubs.len() ==> (#[trigger] osubs[i])@.len() == rlwe * poly_size.0,
            rlwe * poly_size.0 as int % poly_size.0 as int == 0,
            rlwe * poly_size.0 as int / poly_size.0 as int == rlwe,
            forall|i: int| 0 <= i < idx ==> (#[trigger] cts@[i])@ == osubs[i]@,
            forall|i: int|
                0 <= i < idx ==> (#[trigger] cts@[i]).spec_polynomial_size() == poly_size
                    && cts@[i].well_formed() && cts@[i].spec_size() == rlwe,
    {
        let t = subs.remove(0);
        cts.push(GlweCiphertext::from_tensor(t, poly_size));
        proof {
            assert(subs@ =~= osubs.skip(idx + 1));
        }
    }
    cts
}

/// Idempotence law: every size a list reports is a function of its buffer
/// content and its declared shape alone. Two lists over equal buffers with
/// equal declared shapes report equal ciphertext counts, strides and
/// dimensions, so reconstructing a list from the same buffer and shape
/// reports identical values on repeated calls and across multiple views of
/// the same buffer.
pub proof fn lemma_from_container_deterministic<T>(a: GlweList<T>, b: GlweList<T>)
    requires
        a@ == b@,
        a.spec_glwe_size() == b.spec_glwe_size(),
        a.spec_polynomial_size() == b.spec_polynomial_size(),
    ensures
        a.spec_ciphertext_size() == b.spec_ciphertext_size(),
        a.spec_ciphertext_count() == b.spec_ciphertext_count(),
        a.spec_glwe_dimension() == b.spec_glwe_dimension(),
        a.well_formed() == b.well_formed(),
{
}

/// Round-trip law at the list level: the ciphertexts produced by one
/// partitioning of a well-formed list, concatenated back in order, are
/// exactly the list's buffer — no loss, no reordering.
pub proof fn lemma_ciphertext_round_trip<T>(l: GlweList<T>, cts: Seq<GlweCiphertext<T>>)
    requires
        l.well_formed(),
        cts.len() == l.spec_ciphertext_count(),
        forall|i: int|
            0 <= i < cts.len() ==> (#[trigger] cts[i])@ == l@.subrange(
                i * l.spec_ciphertext_size(),
                (i + 1) * l.spec_ciphertext_size(),
            ),
    ensures
        spec_ciphertext_views(cts).flatten() == l@,
{
    let cs = l.spec_ciphertext_size();
    assert(cs >= 1) by (nonlinear_arith)
        requires
            l.spec_glwe_size().0 >= 1,
            l.spec_polynomial_size().0 >= 1,
            cs == l.spec_glwe_size().0 * l.spec_polynomial_size().0,
    ;
    let k = cs as nat;
    assert(l@.len() % k == 0);
    lemma_chunks_len(l@, k);
    lemma_chunks_flatten(l@, k);
    assert forall|i: int| 0 <= i < cts.len() implies spec_ciphertext_views(cts)[i]
        == spec_chunks(l@, k)[i] by {
        lemma_chunks_index(l@, k, i);
        assert((i + 1) * cs == i * cs + cs) by (nonlinear_arith);
    }
    assert(spec_ciphertext_views(cts) =~= spec_chunks(l@, k));
}

impl<T> AsRefTensor for GlweList<T> {
    type Element = T;

    open spec fn tensor_data(&self) -> Seq<T> {
        self@
    }

    fn as_tensor(&self) -> &Tensor<T> {
        &self.tensor
    }
}

impl<T> AsMutTensor for GlweList<T> {
    open spec fn same_shape(&self, other: &GlweList<T>) -> bool {
        self.spec_glwe_size() == other.spec_glwe_size() && self.spec_polynomial_size()
            == other.spec_polynomial_size()
    }

    fn as_mut_tensor(&mut self) -> &mut Tensor<T> {
        &mut self.tensor
    }
}

impl<T> IntoTensor for GlweList<T> {
    fn into_tensor(self) -> Tensor<T> {
        self.tensor
    }
}

} // verus!
