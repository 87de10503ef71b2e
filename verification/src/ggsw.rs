//! The per-decomposition-level structure of a GGSW ciphertext: level
//! matrices and their rows.
//!
//! A level matrix is a stack of rows of `glwe_size × poly_size` elements;
//! each row, once its level metadata is discarded, is structurally a full
//! GLWE ciphertext, which is what [`GgswLevelRow::into_glwe`] expresses: the
//! buffer moves, nothing is copied or transformed.

use vstd::prelude::*;

use rayon::iter::{IntoParallelRefMutIterator, ParallelIterator};

use crate::as_tensor::{AsMutTensor, AsRefTensor, IntoTensor};
use crate::glwe::ciphertext::GlweCiphertext;
use crate::parameters::{DecompositionLevel, GlweSize, PolynomialSize};
use crate::split::{lemma_chunks_flatten, lemma_chunks_index, lemma_chunks_len, spec_chunks, Split};
use crate::tensor::Tensor;

verus! {

/// A row of a GGSW level matrix: a stack of polynomials that forms one GLWE
/// ciphertext of the level.
pub struct GgswLevelRow<T> {
    tensor: Tensor<T>,
    poly_size: PolynomialSize,
    level: DecompositionLevel,
}

impl<T> View for GgswLevelRow<T> {
    type V = Seq<T>;

    closed spec fn view(&self) -> Seq<T> {
        self.tensor@
    }
}

impl<T> GgswLevelRow<T> {
    /// The declared polynomial size of the row.
    pub closed spec fn spec_polynomial_size(&self) -> PolynomialSize {
        self.poly_size
    }

    /// The decomposition level the row belongs to.
    pub closed spec fn spec_decomposition_level(&self) -> DecompositionLevel {
        self.level
    }

    /// The number of polynomials the row holds, derived from its buffer
    /// length.
    pub open spec fn spec_glwe_size(&self) -> int {
        self@.len() as int / self.spec_polynomial_size().0 as int
    }

    /// The buffer is an exact stack of polynomials of the declared size.
    pub open spec fn well_formed(&self) -> bool {
        &&& self.spec_polynomial_size().0 >= 1
        &&& self@.len() as int % self.spec_polynomial_size().0 as int == 0
    }

    /// Creates a level row from a container of values, with no copy. The
    /// container length must be an exact multiple of the polynomial size.
    pub fn from_container(
        cont: Vec<T>,
        poly_size: PolynomialSize,
        level: DecompositionLevel,
    ) -> (r: GgswLevelRow<T>)
        requires
            poly_size.0 >= 1,
            cont@.len() as int % poly_size.0 as int == 0,
        ensures
            r@ == cont@,
            r.spec_polynomial_size() == poly_size,
            r.spec_decomposition_level() == level,
            r.well_formed(),
    {
        GgswLevelRow { tensor: Tensor::from_container(cont), poly_size, level }
    }

    /// Creates a level row from a tensor of values, with no copy.
    pub fn from_tensor(
        tensor: Tensor<T>,
        poly_size: PolynomialSize,
        level: DecompositionLevel,
    ) -> (r: GgswLevelRow<T>)
        requires
            poly_size.0 >= 1,
            tensor@.len() as int % poly_size.0 as int == 0,
        ensures
            r@ == tensor@,
            r.spec_polynomial_size() == poly_size,
            r.spec_decomposition_level() == level,
            r.well_formed(),
    {
        GgswLevelRow { tensor, poly_size, level }
    }

    /// Creates a level row from a container of values after checking the
    /// shape: the result is the row exactly when the polynomial size is
    /// positive and divides the container length.
    pub fn checked_from_container(
        cont: Vec<T>,
        poly_size: PolynomialSize,
        level: DecompositionLevel,
    ) -> (r: Option<GgswLevelRow<T>>)
        ensures
            r is Some <==> (poly_size.0 >= 1 && cont@.len() as int % poly_size.0 as int == 0),
            r matches Some(row) ==> row@ == cont@ && row.spec_polynomial_size() == poly_size
                && row.spec_decomposition_level() == level && row.well_formed(),
    {
        if poly_size.0 == 0 {
            return None;
        }
        if cont.len() % poly_size.0 != 0 {
            return None;
        }
        Some(Self::from_container(cont, poly_size, level))
    }

    /// Returns the size of the GLWE ciphertext composing this level row,
    /// derived as its buffer length divided by the polynomial size.
    pub fn glwe_size(&self) -> (s: GlweSize)
        requires
            self.well_formed(),
        ensures
            s.0 == self.spec_glwe_size(),
    {
        GlweSize(self.tensor.len() / self.poly_size.0)
    }

    /// Returns the index of the level corresponding to this row.
    pub fn decomposition_level(&self) -> (l: DecompositionLevel)
        ensures
            l == self.spec_decomposition_level(),
    {
        self.level
    }

    /// Returns the size of the polynomials used in the row.
    pub fn polynomial_size(&self) -> (s: PolynomialSize)
        ensures
            s == self.spec_polynomial_size(),
    {
        self.poly_size
    }

    /// Consumes the row and returns its buffer wrapped into a GLWE
    /// ciphertext: the polynomial size and the content are unchanged, and
    /// no data is copied or transformed — only the level metadata is
    /// discarded.
    pub fn into_glwe(self) -> (c: GlweCiphertext<T>)
        requires
            self.well_formed(),
        ensures
            c@ == self@,
            c.spec_polynomial_size() == self.spec_polynomial_size(),
            c.well_formed(),
            c.spec_size() == self.spec_glwe_size(),
    {
        GlweCiphertext::from_tensor(self.tensor, self.poly_size)
    }
}

impl<T: Copy> GgswLevelRow<T> {
    /// Overwrites every element of the row with `value`.
    pub fn fill_with_element(&mut self, value: T)
        ensures
            final(self)@ == Seq::new(old(self)@.len(), |i: int| value),
            final(self).spec_polynomial_size() == old(self).spec_polynomial_size(),
            final(self).spec_decomposition_level() == old(self).spec_decomposition_level(),
    {
        self.tensor.fill_with_element(value);
    }
}

impl<T> AsRefTensor for GgswLevelRow<T> {
    type Element = T;

    open spec fn tensor_data(&self) -> Seq<T> {
        self@
    }

    fn as_tensor(&self) -> &Tensor<T> {
        &self.tensor
    }
}

impl<T> AsMutTensor for GgswLevelRow<T> {
    open spec fn same_shape(&self, other: &GgswLevelRow<T>) -> bool {
        self.spec_polynomial_size() == other.spec_polynomial_size()
            && self.spec_decomposition_level() == other.spec_decomposition_level()
    }

    fn as_mut_tensor(&mut self) -> &mut Tensor<T> {
        &mut self.tensor
    }
}

impl<T> IntoTensor for GgswLevelRow<T> {
    fn into_tensor(self) -> Tensor<T> {
        self.tensor
    }
}

/// A matrix containing a single level of the gadget decomposition: a stack
/// of rows, each of which is one GLWE ciphertext of the level.
pub struct GgswLevelMatrix<T> {
    tensor: Tensor<T>,
    poly_size: PolynomialSize,
    glwe_size: GlweSize,
    level: DecompositionLevel,
}

impl<T> View for GgswLevelMatrix<T> {
    type V = Seq<T>;

    closed spec fn view(&self) -> Seq<T> {
        self.tensor@
    }
}

impl<T> GgswLevelMatrix<T> {
    /// The declared polynomial size of the matrix.
    pub closed spec fn spec_polynomial_size(&self) -> PolynomialSize {
        self.poly_size
    }

    /// The declared size of the GLWE ciphertexts composing the matrix.
    pub closed spec fn spec_glwe_size(&self) -> GlweSize {
        self.glwe_size
    }

    /// The decomposition level the matrix belongs to.
    pub closed spec fn spec_decomposition_level(&self) -> DecompositionLevel {
        self.level
    }

    /// The stride of one row inside the buffer.
    pub open spec fn spec_row_size(&self) -> int {
        self.spec_polynomial_size().0 * self.spec_glwe_size().0
    }

    /// The number of rows the buffer holds.
    pub open spec fn spec_row_count(&self) -> int {
        self@.len() as int / self.spec_row_size()
    }

    /// The buffer is an exact stack of rows of the declared shape.
    pub open spec fn well_formed(&self) -> bool {
        &&& self.spec_polynomial_size().0 >= 1
        &&& self.spec_glwe_size().0 >= 1
        &&& self.spec_row_size() <= usize::MAX
        &&& self@.len() as int % self.spec_row_size() == 0
    }

    /// Creates a GGSW level matrix from a container of values, with no
    /// copy. The container length must be an exact multiple of the row
    /// stride `poly_size × rlwe_size`.
    pub fn from_container(
        cont: Vec<T>,
        poly_size: PolynomialSize,
        rlwe_size: GlweSize,
        level: DecompositionLevel,
    ) -> (m: GgswLevelMatrix<T>)
        requires
            poly_size.0 >= 1,
            rlwe_size.0 >= 1,
            poly_size.0 * rlwe_size.0 <= usize::MAX,
            cont@.len() as int % (poly_size.0 * rlwe_size.0) == 0,
        ensures
            m@ == cont@,
            m.spec_polynomial_size() == poly_size,
            m.spec_glwe_size() == rlwe_size,
            m.spec_decomposition_level() == level,
            m.well_formed(),
            m.spec_row_count() == cont@.len() as int / (poly_size.0 * rlwe_size.0),
    {
        GgswLevelMatrix {
            tensor: Tensor::from_container(cont),
            poly_size,
            glwe_size: rlwe_size,
            level,
        }
    }

    /// Creates a GGSW level matrix from a container of values after
    /// checking the shape: the result is the matrix exactly when both
    /// declared sizes are positive, the row stride fits the machine, and
    /// the container length is an exact multiple of the stride.
    pub fn checked_from_container(
        cont: Vec<T>,
        poly_size: PolynomialSize,
        rlwe_size: GlweSize,
        level: DecompositionLevel,
    ) -> (r: Option<GgswLevelMatrix<T>>)
        ensures
            r is Some <==> (poly_size.0 >= 1 && rlwe_size.0 >= 1 && poly_size.0 * rlwe_size.0
                <= usize::MAX && cont@.len() as int % (poly_size.0 * rlwe_size.0) == 0),
            r matches Some(m) ==> m@ == cont@ && m.spec_polynomial_size() == poly_size
                && m.spec_glwe_size() == rlwe_size && m.spec_decomposition_level() == level
                && m.well_formed(),
    {
        if poly_size.0 == 0 || rlwe_size.0 == 0 {
            return None;
        }
        let size = match poly_size.0.checked_mul(rlwe_size.0) {
            Some(s) => s,
            None => {
                return None;
            },
        };
        proof {
            assert(size >= 1) by (nonlinear_arith)
                requires
                    poly_size.0 >= 1,
                    rlwe_size.0 >= 1,
                    size == poly_size.0 * rlwe_size.0,
            ;
        }
        if cont.len() % size != 0 {
            return None;
        }
        Some(Self::from_container(cont, poly_size, rlwe_size, level))
    }

    /// Returns the size of the GLWE ciphertexts composing the GGSW level
    /// matrix. This is the number of columns of the matrix, as well as its
    /// number of rows when the matrix is complete.
    pub fn glwe_size(&self) -> (s: GlweSize)
        ensures
            s == self.spec_glwe_size(),
    {
        self.glwe_size
    }

    /// Returns the index of the level corresponding to this matrix.
    pub fn decomposition_level(&self) -> (l: DecompositionLevel)
        ensures
            l == self.spec_decomposition_level(),
    {
        self.level
    }

    /// Returns the size of the polynomials of the current matrix.
    pub fn polynomial_size(&self) -> (s: PolynomialSize)
        ensures
            s == self.spec_polynomial_size(),
    {
        self.poly_size
    }

    /// Partitions the matrix into its rows by ownership transfer: the
    /// matrix is consumed, and each disjoint `poly_size × glwe_size` region
    /// of its buffer moves into one row, in buffer order.
    pub fn row_iter_mut(self) -> (rows: Vec<GgswLevelRow<T>>)
        requires
            self.well_formed(),
        ensures
            rows@.len() == self.spec_row_count(),
            forall|i: int|
                0 <= i < rows@.len() ==> (#[trigger] rows@[i])@ == self@.subrange(
                    i * self.spec_row_size(),
                    (i + 1) * self.spec_row_size(),
                ),
            forall|i: int|
                0 <= i < rows@.len() ==> (#[trigger] rows@[i]).spec_polynomial_size()
                    == self.spec_polynomial_size() && rows@[i].spec_decomposition_level()
                    == self.spec_decomposition_level() && rows@[i].well_formed()
                    && rows@[i].spec_glwe_size() == self.spec_glwe_size().0,
    {
        let ghost me = self;
        let poly_size = self.poly_size;
        let glwe = self.glwe_size.0;
        let level = self.level;
        let size = poly_size.0 * glwe;
        proof {
            assert(size > 0) by (nonlinear_arith)
                requires
                    glwe >= 1,
                    poly_size.0 >= 1,
                    size == poly_size.0 * glwe,
            ;
        }
        let chunks = Split::into_chunks(self.tensor, size);
        proof {
            assert forall|i: int| 0 <= i < chunks@.len() implies (#[trigger] chunks@[i])@.len()
                == poly_size.0 * glwe by {
                assert(0 <= i * size && i * size + size <= me@.len()) by (nonlinear_arith)
                    requires
                        size > 0,
                        me@.len() as int % size as int == 0,
                        0 <= i < me@.len() as int / size as int,
                ;
            }
        }
        let rows = rows_from_tensors(chunks, poly_size, glwe, level);
        proof {
            assert forall|i: int| 0 <= i < rows@.len() implies (#[trigger] rows@[i])@
                == me@.subrange(i * me.spec_row_size(), (i + 1) * me.spec_row_size()) by {
                assert((i + 1) * size == i * size + size) by (nonlinear_arith);
            }
        }
        rows
    }

    /// Rebuilds a level matrix from its rows: the buffers of `rows` are
    /// concatenated, in order, into one flat buffer. Together with
    /// partitioning this is the round trip: the rows produced by one
    /// partitioning call, handed back in order, reproduce the original
    /// matrix.
    pub fn from_rows(
        rows: Vec<GgswLevelRow<T>>,
        poly_size: PolynomialSize,
        rlwe_size: GlweSize,
        level: DecompositionLevel,
    ) -> (m: GgswLevelMatrix<T>)
        requires
            poly_size.0 >= 1,
            rlwe_size.0 >= 1,
            poly_size.0 * rlwe_size.0 <= usize::MAX,
            forall|i: int|
                0 <= i < rows@.len() ==> (#[trigger] rows@[i])@.len() == poly_size.0
                    * rlwe_size.0,
        ensures
            m@ == spec_row_views(rows@).flatten(),
            m.spec_polynomial_size() == poly_size,
            m.spec_glwe_size() == rlwe_size,
            m.spec_decomposition_level() == level,
            m.well_formed(),
            m.spec_row_count() == rows@.len(),
    {
        let ghost orows = rows@;
        let ghost rs = poly_size.0 * rlwe_size.0;
        let mut rows = rows;
        let mut data: Vec<T> = Vec::new();
        let n = rows.len();
        proof {
            assert(rs >= 1) by (nonlinear_arith)
                requires
                    poly_size.0 >= 1,
                    rlwe_size.0 >= 1,
                    rs == poly_size.0 * rlwe_size.0,
            ;
            assert(spec_row_views(orows.take(0)) =~= Seq::<Seq<T>>::empty());
            assert(data@ =~= spec_row_views(orows.take(0)).flatten());
        }
        for idx in 0..n
            invariant
                n == orows.len(),
                rows@ == orows.skip(idx as int),
                data@ == spec_row_views(orows.take(idx as int)).flatten(),
                data@.len() == idx * rs,
                forall|i: int| 0 <= i < orows.len() ==> (#[trigger] orows[i])@.len() == rs,
        {
            let row = rows.remove(0);
            let mut buf = row.into_tensor().into_container();
            let ghost prev = data@;
            let ghost bufv = buf@;
            data.append(&mut buf);
            proof {
                assert(rows@ =~= orows.skip(idx + 1));
                let done = spec_row_views(orows.take(idx as int));
                let now = spec_row_views(orows.take(idx + 1));
                assert(bufv == orows[idx as int]@);
                assert(data@ == prev + bufv);
                assert(now =~= done.push(orows[idx as int]@));
                Seq::lemma_flatten_push(done, orows[idx as int]@);
                assert(data@ == now.flatten());
                assert((idx + 1) * rs == idx * rs + rs) by (nonlinear_arith);
            }
        }
        proof {
            assert(orows.take(n as int) =~= orows);
            assert(n * rs as int % rs == 0 && n * rs as int / rs == n) by (nonlinear_arith)
                requires
                    rs >= 1,
            ;
        }
        GgswLevelMatrix {
            tensor: Tensor::from_container(data),
            poly_size,
            glwe_size: rlwe_size,
            level,
        }
    }
}

impl<T: Copy> GgswLevelMatrix<T> {
    /// Returns one fresh row per disjoint `poly_size × glwe_size` region of
    /// the matrix's buffer, in buffer order.
    pub fn row_iter(&self) -> (rows: Vec<GgswLevelRow<T>>)
        requires
            self.well_formed(),
        ensures
            rows@.len() == self.spec_row_count(),
            forall|i: int|
                0 <= i < rows@.len() ==> (#[trigger] rows@[i])@ == self@.subrange(
                    i * self.spec_row_size(),
                    (i + 1) * self.spec_row_size(),
                ),
            forall|i: int|
                0 <= i < rows@.len() ==> (#[trigger] rows@[i]).spec_polynomial_size()
                    == self.spec_polynomial_size() && rows@[i].spec_decomposition_level()
                    == self.spec_decomposition_level() && rows@[i].well_formed()
                    && rows@[i].spec_glwe_size() == self.spec_glwe_size().0,
    {
        let poly_size = self.poly_size;
        let glwe = self.glwe_size.0;
        let level = self.level;
        let size = poly_size.0 * glwe;
        proof {
            assert(size > 0) by (nonlinear_arith)
                requires
                    glwe >= 1,
                    poly_size.0 >= 1,
                    size == poly_size.0 * glwe,
            ;
        }
        let subs = self.tensor.subtensor_iter(size);
        proof {
            assert forall|i: int| 0 <= i < subs@.len() implies (#[trigger] subs@[i])@.len()
                == poly_size.0 * glwe by {
                assert(0 <= i * size && i * size + size <= self@.len()) by (nonlinear_arith)
                    requires
                        size > 0,
                        self@.len() as int % size as int == 0,
                        0 <= i < self@.len() as int / size as int,
                ;
            }
        }
        let rows = rows_from_tensors(subs, poly_size, glwe, level);
        proof {
            assert forall|i: int| 0 <= i < rows@.len() implies (#[trigger] rows@[i])@
                == self@.subrange(i * self.spec_row_size(), (i + 1) * self.spec_row_size()) by {
                assert((i + 1) * size == i * size + size) by (nonlinear_arith);
            }
        }
        rows
    }
}

impl<T: Copy + Send + Sync> GgswLevelMatrix<T> {
    /// Overwrites every row of the matrix with `value`, handing the
    /// disjoint rows to parallel workers. The rows are mutated with no
    /// synchronization: the partitioning transfers ownership of each
    /// disjoint region to exactly one worker, so no two workers can touch
    /// the same element. The result is the same as filling the rows one by
    /// one in buffer order.
    pub fn par_fill_rows(&mut self, value: T)
        requires
            old(self).well_formed(),
        ensures
            final(self).spec_polynomial_size() == old(self).spec_polynomial_size(),
            final(self).spec_glwe_size() == old(self).spec_glwe_size(),
            final(self).spec_decomposition_level() == old(self).spec_decomposition_level(),
            final(self)@ == Seq::new(old(self)@.len(), |i: int| value),
            final(self).well_formed(),
    {
        let ghost orig = *old(self);
        let poly_size = self.poly_size;
        let glwe = self.glwe_size.0;
        let level = self.level;
        let size = poly_size.0 * glwe;
        proof {
            assert(size > 0) by (nonlinear_arith)
                requires
                    glwe >= 1,
                    poly_size.0 >= 1,
                    size == poly_size.0 * glwe,
            ;
        }
        let mut t = Tensor::from_container(Vec::new());
        core::mem::swap(&mut self.tensor, &mut t);
        let ghost tv = t@;
        let chunks = Split::into_chunks(t, size);
        proof {
            assert forall|i: int| 0 <= i < chunks@.len() implies (#[trigger] chunks@[i])@.len()
                == poly_size.0 * glwe by {
                assert(0 <= i * size && i * size + size <= tv.len()) by (nonlinear_arith)
                    requires
                        size > 0,
                        tv.len() as int % size as int == 0,
                        0 <= i < tv.len() as int / size as int,
                ;
            }
        }
        let mut rows = rows_from_tensors(chunks, poly_size, glwe, level);
        let ghost count = rows@.len() as int;
        par_fill_each_row(&mut rows, value);
        let mut data: Vec<T> = Vec::new();
        let n = rows.len();
        let mut rows = rows;
        for idx in 0..n
            invariant
                n == count,
                rows@.len() == n - idx,
                forall|i: int| 0 <= i < rows@.len() ==> (#[trigger] rows@[i])@.len() == size,
                forall|i: int|
                    0 <= i < rows@.len() ==> (#[trigger] rows@[i])@ == Seq::new(
                        size as nat,
                        |q: int| value,
                    ),
                data@.len() == idx * size,
                forall|p: int| 0 <= p < data@.len() ==> data@[p] == value,
        {
            let row = rows.remove(0);
            let mut buf = row.into_tensor().into_container();
            data.append(&mut buf);
            proof {
                assert((idx + 1) * size == idx * size + size) by (nonlinear_arith);
            }
        }
        proof {
            assert(count * size == tv.len()) by (nonlinear_arith)
            requires
                size > 0,
                tv.len() as int % size as int == 0,
                count == tv.len() as int / size as int,
            ;
        }
        self.tensor = Tensor::from_container(data);
        proof {
            assert(self.tensor@ =~= Seq::new(orig@.len(), |i: int| value));
        }
    }
}

impl<T> AsRefTensor for GgswLevelMatrix<T> {
    type Element = T;

    open spec fn tensor_data(&self) -> Seq<T> {
        self@
    }

    fn as_tensor(&self) -> &Tensor<T> {
        &self.tensor
    }
}

impl<T> AsMutTensor for GgswLevelMatrix<T> {
    open spec fn same_shape(&self, other: &GgswLevelMatrix<T>) -> bool {
        self.spec_polynomial_size() == other.spec_polynomial_size() && self.spec_glwe_size()
            == other.spec_glwe_size() && self.spec_decomposition_level()
            == other.spec_decomposition_level()
    }

    fn as_mut_tensor(&mut self) -> &mut Tensor<T> {
        &mut self.tensor
    }
}

impl<T> IntoTensor for GgswLevelMatrix<T> {
    fn into_tensor(self) -> Tensor<T> {
        self.tensor
    }
}

/// The buffers of a sequence of rows, in order.
pub open spec fn spec_row_views<T>(rows: Seq<GgswLevelRow<T>>) -> Seq<Seq<T>> {
    rows.map_values(|r: GgswLevelRow<T>| r@)
}

/// Round-trip law at the matrix level: the rows produced by one
/// partitioning of a well-formed level matrix, concatenated back in order,
/// are exactly the matrix's buffer — no loss, no reordering.
pub proof fn lemma_row_round_trip<T>(m: GgswLevelMatrix<T>, rows: Seq<GgswLevelRow<T>>)
    requires
        m.well_formed(),
        rows.len() == m.spec_row_count(),
        forall|i: int|
            0 <= i < rows.len() ==> (#[trigger] rows[i])@ == m@.subrange(
                i * m.spec_row_size(),
                (i + 1) * m.spec_row_size(),
            ),
    ensures
        spec_row_views(rows).flatten() == m@,
{
    let rs = m.spec_row_size();
    assert(rs >= 1) by (nonlinear_arith)
        requires
            m.spec_polynomial_size().0 >= 1,
            m.spec_glwe_size().0 >= 1,
            rs == m.spec_polynomial_size().0 * m.spec_glwe_size().0,
    ;
    let k = rs as nat;
    assert(m@.len() % k == 0);
    lemma_chunks_len(m@, k);
    lemma_chunks_flatten(m@, k);
    assert forall|i: int| 0 <= i < rows.len() implies spec_row_views(rows)[i] == spec_chunks(
        m@,
        k,
    )[i] by {
        lemma_chunks_index(m@, k, i);
        assert((i + 1) * rs == i * rs + rs) by (nonlinear_arith);
    }
    assert(spec_row_views(rows) =~= spec_chunks(m@, k));
}

/// Rewraps each tensor of `subs` as a level row of `poly_size.0 × glwe`
/// elements, in order.
fn rows_from_tensors<T>(
    subs: Vec<Tensor<T>>,
    poly_size: PolynomialSize,
    glwe: usize,
    level: DecompositionLevel,
) -> (rows: Vec<GgswLevelRow<T>>)
    requires
        poly_size.0 >= 1,
        glwe >= 1,
        forall|i: int|
            0 <= i < subs@.len() ==> (#[trigger] subs@[i])@.len() == poly_size.0 * glwe,
    ensures
        rows@.len() == subs@.len(),
        forall|i: int| 0 <= i < subs@.len() ==> (#[trigger] rows@[i])@ == subs@[i]@,
        forall|i: int|
            0 <= i < subs@.len() ==> (#[trigger] rows@[i]).spec_polynomial_size() == poly_size
                && rows@[i].spec_decomposition_level() == level && rows@[i].well_formed()
                && rows@[i].spec_glwe_size() == glwe,
{
    let mut subs = subs;
    let mut rows: Vec<GgswLevelRow<T>> = Vec::new();
    let ghost osubs = subs@;
    let n = subs.len();
    proof {
        assert(poly_size.0 * glwe as int % poly_size.0 as int == 0 && poly_size.0 * glwe as int
            / poly_size.0 as int == glwe) by (nonlinear_arith)
            requires
                poly_size.0 >= 1,
                glwe >= 1,
        ;
    }
    for idx in 0..n
        invariant
            n == osubs.len(),
            subs@ == osubs.skip(idx as int),
            rows@.len() == idx,
            poly_size.0 >= 1,
            glwe >= 1,
            forall|i: int|
                0 <= i < osubs.len() ==> (#[trigger] osubs[i])@.len() == poly_size.0 * glwe,
            poly_size.0 * glwe as int % poly_size.0 as int == 0,
            poly_size.0 * glwe as int / poly_size.0 as int == glwe,
            forall|i: int| 0 <= i < idx ==> (#[trigger] rows@[i])@ == osubs[i]@,
            forall|i: int|
                0 <= i < idx ==> (#[trigger] rows@[i]).spec_polynomial_size() == poly_size
                    && rows@[i].spec_decomposition_level() == level && rows@[i].well_formed()
                    && rows@[i].spec_glwe_size() == glwe,
    {
        let t = subs.remove(0);
        rows.push(GgswLevelRow::from_tensor(t, poly_size, level));
        proof {
            assert(subs@ =~= osubs.skip(idx + 1));
        }
    }
    rows
}

/// Relies on rayon's `par_iter_mut().for_each(..)` over a vector: the
/// closure runs on each element of the vector exactly once, each element
/// handed to exactly one worker, and the vector's length and order are
/// unchanged. The closure only calls the row's own verified fill.
#[verifier::external_body]
fn par_fill_each_row<T: Copy + Send + Sync>(rows: &mut Vec<GgswLevelRow<T>>, value: T)
    ensures
        final(rows)@.len() == old(rows)@.len(),
        forall|i: int|
            0 <= i < old(rows)@.len() ==> (#[trigger] final(rows)@[i])@ == Seq::new(
                old(rows)@[i]@.len(),
                |q: int| value,
            ),
        forall|i: int|
            0 <= i < old(rows)@.len() ==> (#[trigger] final(rows)@[i]).spec_polynomial_size()
                == old(rows)@[i].spec_polynomial_size()
                && final(rows)@[i].spec_decomposition_level()
                == old(rows)@[i].spec_decomposition_level(),
{
    rows.par_iter_mut().for_each(|row| row.fill_with_element(value));
}

} // verus!
