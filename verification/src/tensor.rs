//! Logical tensor metadata: identities, materialization status and
//! descriptions. None of these types carries physical storage.

use vstd::prelude::*;

verus! {

/// Identity of a logical tensor within one handle table.
#[derive(Clone, Copy, Debug, PartialEq, Eq, Structural, Hash)]
pub struct TensorId {
    pub value: u64,
}

impl TensorId {
    pub fn new(value: u64) -> (id: Self)
        ensures
            id.value == value,
    {
        TensorId { value }
    }
}

/// How an operation may use a tensor it refers to.
#[derive(Clone, Copy, Debug, PartialEq, Eq, Structural, Hash)]
pub enum TensorStatus {
    /// No storage is bound yet; the operation that names it produces it.
    NotInit,
    /// The tensor is read and stays alive afterwards.
    ReadOnly,
    /// Last use: the tensor is consumed by the operation.
    ReadWrite,
}

/// Immutable logical metadata of a tensor as seen by one queued operation.
#[derive(Debug)]
pub struct TensorDescription {
    pub id: TensorId,
    pub shape: Vec<usize>,
    pub status: TensorStatus,
}

/// Mathematical value of a [`TensorDescription`].
pub struct TensorView {
    pub id: TensorId,
    pub shape: Seq<usize>,
    pub status: TensorStatus,
}

impl View for TensorDescription {
    type V = TensorView;

    open spec fn view(&self) -> TensorView {
        TensorView { id: self.id, shape: self.shape@, status: self.status }
    }
}

impl Clone for TensorDescription {
    fn clone(&self) -> (copy: Self)
        ensures
            copy@ == self@,
    {
        TensorDescription { id: self.id, shape: self.shape.clone(), status: self.status }
    }
}

impl TensorDescription {
    pub fn new(id: TensorId, shape: Vec<usize>, status: TensorStatus) -> (tensor: Self)
        ensures
            tensor@ == (TensorView { id, shape: shape@, status }),
    {
        TensorDescription { id, shape, status }
    }
}

/// Views of a sequence of descriptions, element by element.
pub open spec fn tensor_views(tensors: Seq<TensorDescription>) -> Seq<TensorView> {
    tensors.map_values(|t: TensorDescription| t@)
}

/// Whether two shapes hold the same extents in the same order.
pub fn same_shape(a: &Vec<usize>, b: &Vec<usize>) -> (equal: bool)
    ensures
        equal == (a@ == b@),
{
    if a.len() != b.len() {
        return false;
    }
    let mut i: usize = 0;
    while i < a.len()
        invariant
            a.len() == b.len(),
            i <= a.len(),
            forall|j: int| 0 <= j < i ==> a@[j] == b@[j],
        decreases a.len() - i,
    {
        if a[i] != b[i] {
            return false;
        }
        i += 1;
    }
    assert(a@ =~= b@);
    true
}

} // verus!
