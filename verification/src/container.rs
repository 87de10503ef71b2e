//! The buffer capability layer: what being a contiguous container of
//! elements means, independent of how the storage is laid out.
//!
//! [`Container`] is the read capability every buffer shape has;
//! [`ContainerOwned`] adds the ability to be built by consuming exactly N
//! values. The plain heap-owned shape is `Vec<T>`; [`AlignedBuffer`] is the
//! heap-owned, memory-aligned shape, carried by the `aligned-vec` crate
//! behind a small set of trusted calls.

use vstd::prelude::*;

verus! {

/// A contiguous container of elements: it knows what it holds and how many
/// elements that is.
pub trait Container {
    type Element;

    /// The elements of the container, in order.
    spec fn contents(&self) -> Seq<Self::Element>;

    /// Returns the number of elements of the container.
    fn container_len(&self) -> (n: usize)
        ensures
            n == self.contents().len(),
    ;
}

/// An owned container shape: it can additionally be built by consuming
/// exactly the values of a vector, in order.
pub trait ContainerOwned: Container + Sized {
    /// Whether this shape can be built from these values.
    spec fn can_collect(items: Seq<Self::Element>) -> bool;

    /// Builds the container from the values of `items`, in order.
    fn collect(items: Vec<Self::Element>) -> (c: Self)
        requires
            Self::can_collect(items@),
        ensures
            c.contents() == items@,
    ;
}

impl<T> Container for Vec<T> {
    type Element = T;

    open spec fn contents(&self) -> Seq<T> {
        self@
    }

    fn container_len(&self) -> usize {
        self.len()
    }
}

impl<T> Container for Box<[T]> {
    type Element = T;

    open spec fn contents(&self) -> Seq<T> {
        self@
    }

    fn container_len(&self) -> usize {
        self.len()
    }
}

impl<'a, T> Container for &'a [T] {
    type Element = T;

    open spec fn contents(&self) -> Seq<T> {
        self@
    }

    fn container_len(&self) -> usize {
        self.len()
    }
}

impl<T> ContainerOwned for Vec<T> {
    open spec fn can_collect(items: Seq<T>) -> bool {
        true
    }

    fn collect(items: Vec<T>) -> Vec<T> {
        items
    }
}

/// A heap-owned, fixed-size buffer of 64-bit elements whose storage is
/// memory-aligned for vectorized access. The storage is carried by the
/// `aligned-vec` crate and is opaque here; this crate states only what the
/// buffer holds.
#[verifier::external_body]
pub struct AlignedBuffer {
    buf: aligned_vec::AVec<u64>,
}

/// What the aligned buffer holds, in order.
pub uninterp spec fn aligned_contents(b: &AlignedBuffer) -> Seq<u64>;

/// Relies on `AVec::from_iter`: it collects the values of the iterator into
/// aligned storage, in order (alignment argument 0 selects the minimum
/// valid alignment for the element type).
#[verifier::external_body]
fn aligned_collect(items: Vec<u64>) -> (b: AlignedBuffer)
    ensures
        aligned_contents(&b) == items@,
{
    AlignedBuffer { buf: aligned_vec::AVec::from_iter(0, items) }
}

/// Relies on `AVec::len`: the number of elements the vector holds.
#[verifier::external_body]
fn aligned_len(b: &AlignedBuffer) -> (n: usize)
    ensures
        n == aligned_contents(b).len(),
{
    b.buf.len()
}

/// Relies on `AVec::as_slice`: a view of all the elements the vector
/// holds, in order.
#[verifier::external_body]
fn aligned_get(b: &AlignedBuffer, i: usize) -> (x: u64)
    requires
        i < aligned_contents(b).len(),
    ensures
        x == aligned_contents(b)[i as int],
{
    b.buf.as_slice()[i]
}

/// Relies on `AVec::as_slice`: a view of all the elements the vector
/// holds, in order, copied here into a plain vector.
#[verifier::external_body]
fn aligned_to_vec(b: &AlignedBuffer) -> (v: Vec<u64>)
    ensures
        v@ == aligned_contents(b),
{
    b.buf.as_slice().to_vec()
}

impl AlignedBuffer {
    /// Returns the element at position `i`.
    pub fn get(&self, i: usize) -> (x: u64)
        requires
            i < self.contents().len(),
        ensures
            x == self.contents()[i as int],
    {
        aligned_get(self, i)
    }

    /// Copies the buffer's elements into a plain vector, in order.
    pub fn to_vec(&self) -> (v: Vec<u64>)
        ensures
            v@ == self.contents(),
    {
        aligned_to_vec(self)
    }
}

impl Container for AlignedBuffer {
    type Element = u64;

    open spec fn contents(&self) -> Seq<u64> {
        aligned_contents(self)
    }

    fn container_len(&self) -> usize {
        aligned_len(self)
    }
}

impl ContainerOwned for AlignedBuffer {
    open spec fn can_collect(items: Seq<u64>) -> bool {
        true
    }

    fn collect(items: Vec<u64>) -> AlignedBuffer {
        aligned_collect(items)
    }
}

} // verus!
