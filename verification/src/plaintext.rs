//! A list of plaintext values, the input of trivial encryption.

use vstd::prelude::*;

use crate::as_tensor::{AsMutTensor, AsRefTensor, IntoTensor};
use crate::parameters::PlaintextCount;
use crate::tensor::Tensor;

verus! {

/// A flat list of plaintexts: one value per buffer element.
pub struct PlaintextList<T> {
    tensor: Tensor<T>,
}

impl<T> View for PlaintextList<T> {
    type V = Seq<T>;

    closed spec fn view(&self) -> Seq<T> {
        self.tensor@
    }
}

impl<T: Copy> PlaintextList<T> {
    /// Allocates a list of `count` copies of `value`.
    pub fn allocate(value: T, count: PlaintextCount) -> (p: PlaintextList<T>)
        ensures
            p@ == Seq::new(count.0 as nat, |i: int| value),
    {
        PlaintextList { tensor: Tensor::allocate(value, count.0) }
    }

    /// Returns one sub-list per consecutive `count` plaintexts, in buffer
    /// order. The list length must be an exact multiple of `count.0`.
    pub fn sublist_iter(&self, count: PlaintextCount) -> (subs: Vec<PlaintextList<T>>)
        requires
            count.0 > 0,
            self@.len() as int % count.0 as int == 0,
        ensures
            subs@.len() == self@.len() as int / count.0 as int,
            forall|i: int|
                0 <= i < subs@.len() ==> (#[trigger] subs@[i])@ == self@.subrange(
                    i * count.0,
                    i * count.0 + count.0,
                ),
    {
        let parts = self.tensor.subtensor_iter(count.0);
        let mut subs: Vec<PlaintextList<T>> = Vec::new();
        let n = parts.len();
        let mut parts = parts;
        let ghost orig = parts@;
        for idx in 0..n
            invariant
                n == orig.len(),
                parts@ == orig.skip(idx as int),
                subs@.len() == idx,
                forall|i: int| 0 <= i < idx ==> (#[trigger] subs@[i])@ == orig[i]@,
        {
            let head = parts.remove(0);
            subs.push(PlaintextList { tensor: head });
            proof {
                assert(parts@ =~= orig.skip(idx + 1));
            }
        }
        subs
    }
}

impl<T> PlaintextList<T> {
    /// Wraps a container of plaintexts, with no copy.
    pub fn from_container(cont: Vec<T>) -> (p: PlaintextList<T>)
        ensures
            p@ == cont@,
    {
        PlaintextList { tensor: Tensor::from_container(cont) }
    }

    /// Returns the number of plaintexts of the list.
    pub fn count(&self) -> (c: PlaintextCount)
        ensures
            c.0 == self@.len(),
    {
        PlaintextCount(self.tensor.len())
    }
}

impl<T> AsRefTensor for PlaintextList<T> {
    type Element = T;

    open spec fn tensor_data(&self) -> Seq<T> {
        self@
    }

    fn as_tensor(&self) -> &Tensor<T> {
        &self.tensor
    }
}

impl<T> AsMutTensor for PlaintextList<T> {
    open spec fn same_shape(&self, other: &PlaintextList<T>) -> bool {
        true
    }

    fn as_mut_tensor(&mut self) -> &mut Tensor<T> {
        &mut self.tensor
    }
}

impl<T> IntoTensor for PlaintextList<T> {
    fn into_tensor(self) -> Tensor<T> {
        self.tensor
    }
}

} // verus!
