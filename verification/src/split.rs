//! Exact partitioning of a buffer into equal-size sub-regions.
//!
//! Partitioning is the one place that produces the sub-regions every row or
//! ciphertext iteration hands out, so its guarantees carry the whole layer:
//! the sub-regions are produced in buffer order, they are pairwise disjoint,
//! and together they cover the parent buffer exactly. [`spec_chunks`] is the
//! specification-level model of the partition; the [`Split`] trait is its
//! executable counterpart, implemented by the buffer shapes that can be taken
//! apart by ownership transfer.

use vstd::prelude::*;

use crate::tensor::Tensor;

verus! {

/// The partition of `s` into consecutive chunks of `k` elements, in order.
///
/// A trailing remainder shorter than `k` is not a chunk; the partitioning
/// entry points require that there is none.
pub open spec fn spec_chunks<T>(s: Seq<T>, k: nat) -> Seq<Seq<T>>
    decreases s.len(),
{
    if k == 0 || s.len() < k {
        Seq::empty()
    } else {
        seq![s.take(k as int)] + spec_chunks(s.skip(k as int), k)
    }
}

/// The partition of a buffer whose length is a multiple of `k` has exactly
/// one chunk per `k` elements.
pub proof fn lemma_chunks_len<T>(s: Seq<T>, k: nat)
    requires
        k > 0,
        s.len() % k == 0,
    ensures
        spec_chunks(s, k).len() == s.len() / k,
    decreases s.len(),
{
    if s.len() == 0 {
    } else {
        assert(s.len() >= k) by (nonlinear_arith)
            requires
                s.len() % k == 0,
                s.len() > 0,
                k > 0,
        ;
        let rest = s.skip(k as int);
        assert(rest.len() % k == 0 && rest.len() / k + 1 == s.len() / k) by (nonlinear_arith)
            requires
                s.len() % k == 0,
                k > 0,
                s.len() >= k,
                rest.len() == s.len() - k,
        ;
        lemma_chunks_len(rest, k);
    }
}

/// The chunk at position `i` of the partition is the sub-region of the
/// parent buffer that starts at offset `i * k`.
pub proof fn lemma_chunks_index<T>(s: Seq<T>, k: nat, i: int)
    requires
        k > 0,
        s.len() % k == 0,
        0 <= i < s.len() / k,
    ensures
        spec_chunks(s, k)[i] == s.subrange(i * k, i * k + k),
    decreases s.len(),
{
    lemma_chunks_len(s, k);
    assert(s.len() >= k) by (nonlinear_arith)
        requires
            s.len() % k == 0,
            s.len() / k > 0,
            k > 0,
    ;
    let rest = s.skip(k as int);
    assert(rest.len() % k == 0 && rest.len() / k + 1 == s.len() / k) by (nonlinear_arith)
        requires
            s.len() % k == 0,
            k > 0,
            s.len() >= k,
            rest.len() == s.len() - k,
    ;
    assert(0 <= i * k && i * k + k <= s.len()) by (nonlinear_arith)
        requires
            k > 0,
            s.len() % k == 0,
            0 <= i < s.len() / k,
    ;
    if i == 0 {
        assert(spec_chunks(s, k)[0] =~= s.subrange(0, k as int));
    } else {
        assert(0 <= (i - 1) * k && (i - 1) * k < rest.len() && i - 1 < rest.len() / k)
            by (nonlinear_arith)
            requires
                k > 0,
                rest.len() % k == 0,
                rest.len() / k + 1 == s.len() / k,
                1 <= i < s.len() / k,
                i * k + k <= s.len(),
                rest.len() == s.len() - k,
        ;
        lemma_chunks_index(rest, k, i - 1);
        assert(spec_chunks(s, k)[i] == spec_chunks(rest, k)[i - 1]);
        assert((i - 1) * k == i * k - k) by (nonlinear_arith);
        assert(rest.subrange(i * k - k, i * k) =~= s.subrange(i * k, i * k + k));
    }
}

/// Round-trip law: concatenating the chunks of a partition back in order
/// reproduces the original buffer content exactly, with no loss and no
/// reordering, for any chunk size that evenly divides the buffer length.
pub proof fn lemma_chunks_flatten<T>(s: Seq<T>, k: nat)
    requires
        k > 0,
        s.len() % k == 0,
    ensures
        spec_chunks(s, k).flatten() == s,
    decreases s.len(),
{
    if s.len() == 0 {
        assert(spec_chunks(s, k).flatten() =~= s);
    } else {
        assert(s.len() >= k) by (nonlinear_arith)
            requires
                s.len() % k == 0,
                s.len() > 0,
                k > 0,
        ;
        let rest = s.skip(k as int);
        assert(rest.len() % k == 0) by (nonlinear_arith)
            requires
                s.len() % k == 0,
                k > 0,
                s.len() >= k,
                rest.len() == s.len() - k,
        ;
        lemma_chunks_flatten(rest, k);
        let chunks = spec_chunks(s, k);
        assert(chunks.drop_first() =~= spec_chunks(rest, k));
        assert(chunks.flatten() == chunks.first() + chunks.drop_first().flatten());
        assert(s.take(k as int) + rest =~= s);
    }
}

/// Disjointness law, first half: the index ranges of two distinct chunks of
/// one partitioning call do not overlap — the range of the earlier chunk ends
/// no later than the range of the later chunk begins.
pub proof fn lemma_chunk_ranges_disjoint(k: int, i: int, j: int)
    requires
        k > 0,
        0 <= i < j,
    ensures
        i * k + k <= j * k,
{
    assert(i * k + k <= j * k) by (nonlinear_arith)
        requires
            k > 0,
            0 <= i < j,
    ;
}

/// Disjointness law, second half: the chunk index ranges together cover the
/// full parent index range — every position of the parent buffer lies inside
/// the range of the chunk at position `p / k`, and of no other.
pub proof fn lemma_chunk_ranges_cover(len: int, k: int, p: int)
    requires
        k > 0,
        len % k == 0,
        0 <= p < len,
    ensures
        0 <= p / k < len / k,
        (p / k) * k <= p < (p / k) * k + k,
        forall|i: int|
            0 <= i < len / k && i != p / k ==> !(#[trigger] (i * k) <= p < i * k + k),
{
    assert(0 <= p / k < len / k && (p / k) * k <= p < (p / k) * k + k) by (nonlinear_arith)
        requires
            k > 0,
            len % k == 0,
            0 <= p < len,
    ;
    assert forall|i: int| 0 <= i < len / k && i != p / k implies !(#[trigger] (i * k) <= p < i * k
        + k) by {
        assert(i * k <= p < i * k + k ==> i == p / k) by (nonlinear_arith)
            requires
                k > 0,
        ;
    }
}

/// A buffer shape that partitioning can take apart by ownership transfer:
/// given a chunk size or a chunk count, it splits into a sequence of
/// equal-size sub-buffers, in buffer order, covering the whole buffer with
/// no overlap and no remainder.
pub trait Split: Sized {
    type Element;

    /// The elements of this buffer, in order.
    spec fn split_view(&self) -> Seq<Self::Element>;

    /// Splits the buffer into consecutive chunks of `chunk_size` elements.
    /// The length must be an exact multiple of the chunk size.
    fn into_chunks(self, chunk_size: usize) -> (chunks: Vec<Self>)
        requires
            chunk_size > 0,
            self.split_view().len() as int % chunk_size as int == 0,
        ensures
            chunks@.len() == self.split_view().len() as int / chunk_size as int,
            forall|i: int|
                0 <= i < chunks@.len() ==> (#[trigger] chunks@[i]).split_view()
                    == self.split_view().subrange(
                    i * chunk_size,
                    i * chunk_size + chunk_size,
                ),
    ;

    /// Splits the buffer into `chunk_count` consecutive chunks of equal
    /// size. Zero chunks are only valid for an empty buffer, and an empty
    /// buffer only splits into zero chunks.
    fn split_into(self, chunk_count: usize) -> (chunks: Vec<Self>)
        requires
            chunk_count == 0 <==> self.split_view().len() == 0,
            chunk_count > 0 ==> self.split_view().len() as int % chunk_count as int == 0,
        ensures
            chunks@.len() == chunk_count,
            forall|i: int|
                0 <= i < chunks@.len() ==> (#[trigger] chunks@[i]).split_view()
                    == self.split_view().subrange(
                    i * (self.split_view().len() as int / chunk_count as int),
                    (i + 1) * (self.split_view().len() as int / chunk_count as int),
                ),
    ;

    /// Splits the buffer into the part before `mid` and the part from `mid`
    /// on.
    fn split_at(self, mid: usize) -> (parts: (Self, Self))
        requires
            mid <= self.split_view().len(),
        ensures
            parts.0.split_view() == self.split_view().take(mid as int),
            parts.1.split_view() == self.split_view().skip(mid as int),
    ;
}

impl<T> Split for Vec<T> {
    type Element = T;

    open spec fn split_view(&self) -> Seq<T> {
        self@
    }

    fn into_chunks(self, chunk_size: usize) -> (chunks: Vec<Vec<T>>) {
        let ghost orig = self@;
        let mut rest = self;
        let mut chunks: Vec<Vec<T>> = Vec::new();
        proof {
            assert(chunks@.len() * chunk_size + rest@.len() == orig.len());
            assert(orig.skip(0) =~= orig);
        }
        while rest.len() > 0
            invariant
                chunk_size > 0,
                orig.len() as int % chunk_size as int == 0,
                rest@.len() as int % chunk_size as int == 0,
                chunks@.len() * chunk_size + rest@.len() == orig.len(),
                rest@ == orig.skip(chunks@.len() * chunk_size),
                forall|i: int|
                    0 <= i < chunks@.len() ==> (#[trigger] chunks@[i])@ == orig.subrange(
                        i * chunk_size,
                        i * chunk_size + chunk_size,
                    ),
            decreases rest@.len(),
        {
            proof {
                assert(rest@.len() >= chunk_size) by (nonlinear_arith)
                    requires
                        rest@.len() as int % chunk_size as int == 0,
                        rest@.len() > 0,
                        chunk_size > 0,
                ;
            }
            let ghost done = chunks@.len();
            let tail = rest.split_off(chunk_size);
            chunks.push(rest);
            rest = tail;
            proof {
                assert((done + 1) * chunk_size == done * chunk_size + chunk_size)
                    by (nonlinear_arith);
                assert(chunks@[done as int]@ =~= orig.subrange(
                    done * chunk_size,
                    done * chunk_size + chunk_size,
                ));
                assert(rest@ =~= orig.skip((done + 1) * chunk_size));
                assert(chunk_size as int * (done + 1) == (done + 1) * chunk_size)
                    by (nonlinear_arith);
                vstd::arithmetic::div_mod::lemma_mod_multiples_vanish(
                    done as int + 1,
                    rest@.len() as int,
                    chunk_size as int,
                );
            }
        }
        proof {
            assert(chunks@.len() == orig.len() as int / chunk_size as int) by (nonlinear_arith)
                requires
                    chunk_size > 0,
                    chunks@.len() * chunk_size == orig.len(),
            ;
        }
        chunks
    }

    fn split_into(self, chunk_count: usize) -> (chunks: Vec<Vec<T>>) {
        if chunk_count == 0 {
            Vec::new()
        } else {
            let ghost v = self@;
            let chunk_size = self.len() / chunk_count;
            let ghost sz = chunk_size as int;
            proof {
                assert(chunk_size > 0 && chunk_size * chunk_count == v.len()
                    && v.len() as int % chunk_size as int == 0) by (nonlinear_arith)
                    requires
                        chunk_count > 0,
                        v.len() > 0,
                        v.len() as int % chunk_count as int == 0,
                        chunk_size == v.len() as int / chunk_count as int,
                ;
            }
            let chunks = Split::into_chunks(self, chunk_size);
            proof {
                assert(chunks@.len() == chunk_count) by (nonlinear_arith)
                    requires
                        chunk_size > 0,
                        chunk_size * chunk_count == v.len(),
                        chunks@.len() == v.len() as int / chunk_size as int,
                ;
                assert forall|i: int| 0 <= i < chunks@.len() implies (
                #[trigger] chunks@[i])@ == v.subrange(i * sz, (i + 1) * sz) by {
                    assert((i + 1) * sz == i * sz + sz) by (nonlinear_arith);
                }
            }
            chunks
        }
    }

    fn split_at(self, mid: usize) -> (parts: (Vec<T>, Vec<T>)) {
        let mut first = self;
        let second = first.split_off(mid);
        (first, second)
    }
}

impl<T> Split for Tensor<T> {
    type Element = T;

    open spec fn split_view(&self) -> Seq<T> {
        self@
    }

    fn into_chunks(self, chunk_size: usize) -> (chunks: Vec<Tensor<T>>) {
        let parts = Split::into_chunks(self.into_container(), chunk_size);
        tensors_from_vecs(parts)
    }

    fn split_into(self, chunk_count: usize) -> (chunks: Vec<Tensor<T>>) {
        let parts = self.into_container().split_into(chunk_count);
        tensors_from_vecs(parts)
    }

    fn split_at(self, mid: usize) -> (parts: (Tensor<T>, Tensor<T>)) {
        let (first, second) = self.into_container().split_at(mid);
        (Tensor::from_container(first), Tensor::from_container(second))
    }
}

/// Rewraps each buffer of `parts` as a tensor, in order.
fn tensors_from_vecs<T>(parts: Vec<Vec<T>>) -> (tensors: Vec<Tensor<T>>)
    ensures
        tensors@.len() == parts@.len(),
        forall|i: int| 0 <= i < parts@.len() ==> (#[trigger] tensors@[i])@ == parts@[i]@,
{
    let mut parts = parts;
    let mut tensors: Vec<Tensor<T>> = Vec::new();
    let ghost orig = parts@;
    let n = parts.len();
    for idx in 0..n
        invariant
            n == orig.len(),
            parts@ == orig.skip(idx as int),
            tensors@.len() == idx,
            forall|i: int| 0 <= i < idx ==> (#[trigger] tensors@[i])@ == orig[i]@,
    {
        let head = parts.remove(0);
        tensors.push(Tensor::from_container(head));
        proof {
            assert(parts@ =~= orig.skip(idx + 1));
        }
    }
    tensors
}

} // verus!
