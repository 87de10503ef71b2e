//! The single concrete wrapper around a flat buffer of elements.
//!
//! A [`Tensor`] is a one-dimensional, length-indexed buffer. It is *not* an
//! n-dimensional array: every multi-dimensional meaning is layered on top of
//! it by the entity types, through fixed-stride partitioning. All binary
//! operations demand operands of equal length; there is no broadcasting, no
//! truncation and no padding.

use vstd::prelude::*;

use crate::numeric::Numeric;

verus! {

/// A flat buffer of elements, the backbone of every entity of the scheme.
pub struct Tensor<T> {
    data: Vec<T>,
}

impl<T> View for Tensor<T> {
    type V = Seq<T>;

    closed spec fn view(&self) -> Seq<T> {
        self.data@
    }
}

impl<T> Tensor<T> {
    /// Wraps a container of values, with no copy.
    pub fn from_container(cont: Vec<T>) -> (t: Tensor<T>)
        ensures
            t@ == cont@,
    {
        Tensor { data: cont }
    }

    /// Consumes the tensor and returns the container backing it.
    pub fn into_container(self) -> (cont: Vec<T>)
        ensures
            cont@ == self@,
    {
        self.data
    }

    /// Returns the number of elements of the tensor.
    pub fn len(&self) -> (n: usize)
        ensures
            n == self@.len(),
    {
        self.data.len()
    }
}

impl<T: Copy> Tensor<T> {
    /// Allocates a fresh owned buffer holding `size` copies of `value`.
    pub fn allocate(value: T, size: usize) -> (t: Tensor<T>)
        ensures
            t@ == Seq::new(size as nat, |i: int| value),
    {
        let mut data: Vec<T> = Vec::new();
        for idx in 0..size
            invariant
                data@.len() == idx,
                forall|j: int| 0 <= j < idx ==> data@[j] == value,
        {
            data.push(value);
        }
        assert(data@ =~= Seq::new(size as nat, |i: int| value));
        Tensor { data }
    }

    /// Returns the element at position `i`.
    pub fn get(&self, i: usize) -> (x: T)
        requires
            i < self@.len(),
        ensures
            x == self@[i as int],
    {
        self.data[i]
    }

    /// Replaces the element at position `i` by `x`.
    pub fn set(&mut self, i: usize, x: T)
        requires
            i < old(self)@.len(),
        ensures
            final(self)@ == old(self)@.update(i as int, x),
    {
        self.data[i] = x;
    }

    /// Overwrites every element of the tensor with `value`.
    pub fn fill_with_element(&mut self, value: T)
        ensures
            final(self)@ == Seq::new(old(self)@.len(), |i: int| value),
    {
        let n = self.data.len();
        for idx in 0..n
            invariant
                self.data@.len() == n,
                forall|j: int| 0 <= j < idx ==> self.data@[j] == value,
        {
            self.data[idx] = value;
        }
        assert(self.data@ =~= Seq::new(self.data@.len(), |i: int| value));
    }

    /// Returns a fresh tensor holding the `len` elements starting at
    /// position `start`.
    pub fn subtensor(&self, start: usize, len: usize) -> (t: Tensor<T>)
        requires
            start + len <= self@.len(),
        ensures
            t@ == self@.subrange(start as int, start as int + len as int),
    {
        let n = self.data.len();
        let mut data: Vec<T> = Vec::new();
        for idx in 0..len
            invariant
                n == self@.len(),
                start + len <= n,
                data@.len() == idx,
                forall|j: int| 0 <= j < idx ==> data@[j] == self@[start + j],
        {
            data.push(self.data[start + idx]);
        }
        assert(data@ =~= self@.subrange(start as int, start as int + len as int));
        Tensor { data }
    }

    /// Partitions the tensor into `self.len() / size` fresh sub-tensors of
    /// `size` elements each, in buffer order.
    pub fn subtensor_iter(&self, size: usize) -> (subs: Vec<Tensor<T>>)
        requires
            size > 0,
            self@.len() as int % size as int == 0,
        ensures
            subs@.len() == self@.len() as int / size as int,
            forall|i: int|
                0 <= i < subs@.len() ==> #[trigger] subs@[i]@ == self@.subrange(
                    i * size,
                    i * size + size,
                ),
    {
        let n = self.data.len();
        let count = n / size;
        let mut subs: Vec<Tensor<T>> = Vec::new();
        assert(count * size == n) by (nonlinear_arith)
            requires
                size > 0,
                count == n as int / size as int,
                n as int % size as int == 0,
        ;
        for i in 0..count
            invariant
                size > 0,
                count * size == n,
                n == self@.len(),
                subs@.len() == i,
                forall|j: int|
                    0 <= j < i ==> #[trigger] subs@[j]@ == self@.subrange(
                        j * size,
                        j * size + size,
                    ),
        {
            proof {
                assert(i * size + size <= count * size) by (nonlinear_arith)
                    requires
                        0 <= i < count,
                        size > 0,
                ;
                assert(0 <= i * size) by (nonlinear_arith)
                    requires
                        0 <= i,
                        size > 0,
                ;
            }
            let sub = self.subtensor(i * size, size);
            subs.push(sub);
        }
        subs
    }

    /// Overwrites the `len` elements starting at `start` with `value`,
    /// leaving the rest of the buffer unchanged.
    pub fn fill_range(&mut self, start: usize, len: usize, value: T)
        requires
            start + len <= old(self)@.len(),
        ensures
            final(self)@.len() == old(self)@.len(),
            forall|j: int|
                start <= j < start + len ==> final(self)@[j] == value,
            forall|j: int|
                0 <= j < final(self)@.len() && !(start <= j < start + len) ==> final(self)@[j]
                    == old(self)@[j],
    {
        let n = self.data.len();
        for idx in 0..len
            invariant
                n == self@.len(),
                start + len <= n,
                self@.len() == old(self)@.len(),
                forall|j: int| start <= j < start + idx ==> self@[j] == value,
                forall|j: int|
                    0 <= j < self@.len() && !(start <= j < start + idx) ==> self@[j] == old(
                        self,
                    )@[j],
        {
            self.data[start + idx] = value;
        }
    }

    /// Overwrites the elements starting at `start` with the content of
    /// `src`, leaving the rest of the buffer unchanged.
    pub fn copy_range_from(&mut self, start: usize, src: &Tensor<T>)
        requires
            start + src@.len() <= old(self)@.len(),
        ensures
            final(self)@.len() == old(self)@.len(),
            forall|j: int|
                start <= j < start + src@.len() ==> final(self)@[j] == src@[j - start],
            forall|j: int|
                0 <= j < final(self)@.len() && !(start <= j < start + src@.len())
                    ==> final(self)@[j] == old(self)@[j],
    {
        let len = src.data.len();
        let n = self.data.len();
        for idx in 0..len
            invariant
                len == src@.len(),
                n == self@.len(),
                start + len <= n,
                self@.len() == old(self)@.len(),
                forall|j: int| start <= j < start + idx ==> self@[j] == src@[j - start],
                forall|j: int|
                    0 <= j < self@.len() && !(start <= j < start + idx) ==> self@[j] == old(
                        self,
                    )@[j],
        {
            self.data[start + idx] = src.data[idx];
        }
    }
}

impl<T: Copy> Tensor<T> {
    /// Overwrites every element of the tensor with `f` applied to the
    /// paired elements of `a` and `b`. All three tensors must have equal
    /// length.
    pub fn fill_with_two<F: Fn(T, T) -> T>(&mut self, a: &Tensor<T>, b: &Tensor<T>, f: F)
        requires
            a@.len() == old(self)@.len(),
            b@.len() == old(self)@.len(),
            forall|i: int| 0 <= i < old(self)@.len() ==> #[trigger] f.requires((a@[i], b@[i])),
        ensures
            final(self)@.len() == old(self)@.len(),
            forall|i: int|
                0 <= i < final(self)@.len() ==> f.ensures(
                    (a@[i], b@[i]),
                    #[trigger] final(self)@[i],
                ),
    {
        let n = self.data.len();
        for idx in 0..n
            invariant
                n == self@.len(),
                n == a@.len(),
                n == b@.len(),
                self@.len() == old(self)@.len(),
                forall|i: int| 0 <= i < n ==> #[trigger] f.requires((a@[i], b@[i])),
                forall|j: int| 0 <= j < idx ==> f.ensures((a@[j], b@[j]), #[trigger] self@[j]),
        {
            let v = f(a.data[idx], b.data[idx]);
            self.data[idx] = v;
        }
    }
}

impl<T: Numeric> Tensor<T> {
    /// Updates the tensor in place by adding, with wrapping, the elements of
    /// `other` to its own. The operands must have equal length.
    pub fn update_with_wrapping_add(&mut self, other: &Tensor<T>)
        requires
            other@.len() == old(self)@.len(),
        ensures
            final(self)@.len() == old(self)@.len(),
            forall|j: int|
                0 <= j < final(self)@.len() ==> final(self)@[j] == old(self)@[
                    j
                ].spec_wrapping_add(other@[j]),
    {
        let n = self.data.len();
        for idx in 0..n
            invariant
                n == self@.len(),
                n == other@.len(),
                self@.len() == old(self)@.len(),
                forall|j: int| idx <= j < n ==> self@[j] == old(self)@[j],
                forall|j: int|
                    0 <= j < idx ==> self@[j] == old(self)@[j].spec_wrapping_add(other@[j]),
        {
            let sum = self.data[idx].wrapping_add(other.data[idx]);
            self.data[idx] = sum;
        }
    }
}

} // verus!
