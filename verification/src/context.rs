//! What a kernel is bound to when it runs: the shapes tensors have at drain
//! time and the handle table.

use vstd::prelude::*;
use std::collections::HashMap;
use crate::device::{launched, DeviceError, Handle};
use crate::error::FusionError;
use crate::handle::HandleContainer;
use crate::tensor::{tensor_views, TensorDescription, TensorId, TensorView};
use crate::trace::has_id;

verus! {

broadcast use vstd::std_specs::hash::group_hash_axioms;

/// Bindings available to a kernel: descriptions with their bound shapes,
/// keyed by the value of the tensor identity, and the handle table.
pub struct Context {
    pub tensors: HashMap<u64, TensorDescription>,
    pub handles: HandleContainer,
}

/// Identity of the first tensor at or after `from` that owns no storage.
pub open spec fn first_unbound(
    tensors: Seq<TensorView>,
    handles: Map<TensorId, u64>,
    from: int,
) -> Option<TensorId>
    decreases tensors.len() - from,
{
    if from < 0 || from >= tensors.len() {
        None
    } else if !handles.contains_key(tensors[from].id) {
        Some(tensors[from].id)
    } else {
        first_unbound(tensors, handles, from + 1)
    }
}

/// Why result `k` cannot be bound, if it cannot.
pub open spec fn output_fault(
    outputs: Seq<TensorView>,
    k: int,
    handles: Map<TensorId, u64>,
    ids: nat,
) -> Option<FusionError> {
    let id = outputs[k].id;
    if id.value >= ids {
        Some(FusionError::UnknownTensor(id))
    } else if handles.contains_key(id) || has_id(outputs.subrange(0, k), id) {
        Some(FusionError::OutputBound(id))
    } else {
        None
    }
}

/// The fault of the first result at or after `from` that cannot be bound.
pub open spec fn first_output_fault(
    outputs: Seq<TensorView>,
    handles: Map<TensorId, u64>,
    ids: nat,
    from: int,
) -> Option<FusionError>
    decreases outputs.len() - from,
{
    if from < 0 || from >= outputs.len() {
        None
    } else if output_fault(outputs, from, handles, ids) is Some {
        output_fault(outputs, from, handles, ids)
    } else {
        first_output_fault(outputs, handles, ids, from + 1)
    }
}

/// Why a kernel with this boundary cannot be bound to the handle table: the
/// first input without storage, else the first result that cannot take
/// storage. `None` when the kernel can run.
pub open spec fn binding_error(
    inputs: Seq<TensorView>,
    outputs: Seq<TensorView>,
    handles: Map<TensorId, u64>,
    ids: nat,
) -> Option<FusionError> {
    match first_unbound(inputs, handles, 0) {
        Some(id) => Some(FusionError::MissingHandle(id)),
        None => first_output_fault(outputs, handles, ids, 0),
    }
}

/// A binding fault is one of three: an input without storage, a result for
/// an unknown identity, or a result for an identity that is taken.
pub proof fn lemma_binding_faults(
    inputs: Seq<TensorView>,
    outputs: Seq<TensorView>,
    handles: Map<TensorId, u64>,
    ids: nat,
)
    ensures
        binding_error(inputs, outputs, handles, ids) matches Some(fault) ==> fault is MissingHandle
            || fault is UnknownTensor || fault is OutputBound,
{
    lemma_output_faults(outputs, handles, ids, 0);
}

proof fn lemma_output_faults(
    outputs: Seq<TensorView>,
    handles: Map<TensorId, u64>,
    ids: nat,
    from: int,
)
    requires
        0 <= from,
    ensures
        first_output_fault(outputs, handles, ids, from) matches Some(fault) ==> fault
            is UnknownTensor || fault is OutputBound,
    decreases outputs.len() - from,
{
    if from < outputs.len() && output_fault(outputs, from, handles, ids) is None {
        lemma_output_faults(outputs, handles, ids, from + 1);
    }
}

/// The storages the tensors own, in the order of the tensors.
pub open spec fn bound_storages(tensors: Seq<TensorView>, handles: Map<TensorId, u64>) -> Seq<u64> {
    Seq::new(tensors.len(), |i: int| handles[tensors[i].id])
}

/// The identities of the tensors.
pub open spec fn ids_of(tensors: Seq<TensorView>) -> Set<TensorId> {
    Set::new(|id: TensorId| has_id(tensors, id))
}

/// What becomes of a launch once the device has answered: its failure is
/// the device's; a number of results other than the number of outputs is a
/// mismatch; otherwise the launch succeeded.
pub open spec fn launch_outcome(
    outputs: Seq<TensorView>,
    answer: Result<Seq<u64>, DeviceError>,
) -> Result<(), FusionError> {
    match answer {
        Err(failure) => Err(FusionError::Device(failure)),
        Ok(storages) => if storages.len() != outputs.len() {
            Err(FusionError::OutputMismatch)
        } else {
            Ok(())
        },
    }
}

/// The handle table after the results of a kernel were bound: every binding
/// it had is kept, exactly the results were added, and result `k` owns
/// storage `k`.
pub open spec fn results_bound(
    outputs: Seq<TensorView>,
    storages: Seq<u64>,
    before: HandleContainer,
    after: HandleContainer,
) -> bool {
    &&& after.ids() == before.ids()
    &&& after@.dom() == before@.dom().union(ids_of(outputs))
    &&& before@.submap_of(after@)
    &&& forall|k: int| 0 <= k < outputs.len() ==> after@[(#[trigger] outputs[k]).id] == storages[k]
}

/// The handle table after a launch was answered: the results are bound when
/// the launch succeeded, and nothing changed when it did not.
pub open spec fn launch_bound(
    outputs: Seq<TensorView>,
    answer: Result<Seq<u64>, DeviceError>,
    before: HandleContainer,
    after: HandleContainer,
) -> bool {
    if launch_outcome(outputs, answer) is Ok {
        results_bound(outputs, answer->Ok_0, before, after)
    } else {
        after == before
    }
}

/// When no input is unbound, every input owns storage.
pub proof fn lemma_no_unbound(tensors: Seq<TensorView>, handles: Map<TensorId, u64>, from: int)
    requires
        0 <= from,
        first_unbound(tensors, handles, from) is None,
    ensures
        forall|i: int| from <= i < tensors.len() ==> handles.contains_key(#[trigger] tensors[i].id),
    decreases tensors.len() - from,
{
    if from < tensors.len() {
        lemma_no_unbound(tensors, handles, from + 1);
    }
}

/// When no result is at fault, every result can take storage.
pub proof fn lemma_no_output_fault(
    outputs: Seq<TensorView>,
    handles: Map<TensorId, u64>,
    ids: nat,
    from: int,
)
    requires
        0 <= from,
        first_output_fault(outputs, handles, ids, from) is None,
    ensures
        forall|k: int| from <= k < outputs.len() ==> output_fault(outputs, k, handles, ids) is None,
    decreases outputs.len() - from,
{
    if from < outputs.len() {
        lemma_no_output_fault(outputs, handles, ids, from + 1);
    }
}

impl Context {
    pub fn new(tensors: HashMap<u64, TensorDescription>, handles: HandleContainer) -> (context:
        Self)
        ensures
            context.tensors == tensors,
            context.handles == handles,
    {
        Context { tensors, handles }
    }

    /// Remembers the shape a tensor has at drain time.
    pub fn bind_shape(&mut self, tensor: &TensorDescription)
        ensures
            final(self).handles == old(self).handles,
            final(self).tensors@.dom() == old(self).tensors@.dom().insert(tensor.id.value),
            final(self).tensors@[tensor.id.value]@ == tensor@,
            forall|id: u64|
                id != tensor.id.value && old(self).tensors@.contains_key(id)
                    ==> final(self).tensors@[id] == old(self).tensors@[id],
    {
        let _ = self.tensors.insert(tensor.id.value, tensor.clone());
    }
}

impl HandleContainer {
    /// Checks that a kernel with this boundary can run, and resolves its
    /// inputs to the storages they own.
    pub fn bind(&self, inputs: &Vec<TensorDescription>, outputs: &Vec<TensorDescription>) -> (bound:
        Result<Vec<u64>, FusionError>)
        ensures
            match bound {
                Ok(storages) => binding_error(
                    tensor_views(inputs@),
                    tensor_views(outputs@),
                    self@,
                    self.ids(),
                ) is None && storages@ == bound_storages(tensor_views(inputs@), self@),
                Err(fault) => binding_error(
                    tensor_views(inputs@),
                    tensor_views(outputs@),
                    self@,
                    self.ids(),
                ) == Some(fault),
            },
    {
        let ghost ins = tensor_views(inputs@);
        let ghost outs = tensor_views(outputs@);
        let mut storages: Vec<u64> = Vec::new();
        let mut i: usize = 0;
        while i < inputs.len()
            invariant
                i <= inputs@.len(),
                ins == tensor_views(inputs@),
                first_unbound(ins, self@, 0) == first_unbound(ins, self@, i as int),
                storages@.len() == i,
                forall|m: int|
                    0 <= m < i ==> self@.contains_key((#[trigger] ins[m]).id) && storages@[m]
                        == self@[ins[m].id],
            decreases inputs@.len() - i,
        {
            assert(ins[i as int] == inputs@[i as int]@);
            match self.storage_of(inputs[i].id) {
                Some(storage) => {
                    storages.push(storage);
                },
                None => {
                    return Err(FusionError::MissingHandle(inputs[i].id));
                },
            }
            i += 1;
        }
        assert(storages@ =~= bound_storages(ins, self@));
        let mut k: usize = 0;
        while k < outputs.len()
            invariant
                k <= outputs@.len(),
                ins == tensor_views(inputs@),
                first_unbound(ins, self@, 0) is None,
                outs == tensor_views(outputs@),
                first_output_fault(outs, self@, self.ids(), 0) == first_output_fault(
                    outs,
                    self@,
                    self.ids(),
                    k as int,
                ),
            decreases outputs@.len() - k,
        {
            assert(outs[k as int] == outputs@[k as int]@);
            let id = outputs[k].id;
            if !self.knows(id) {
                return Err(FusionError::UnknownTensor(id));
            }
            if self.is_bound(id) || seen_before(outputs, k, id) {
                return Err(FusionError::OutputBound(id));
            }
            k += 1;
        }
        Ok(storages)
    }

    /// Takes the device's answer to a launch and concludes it: a failure of
    /// the device is passed on, a wrong number of results is a mismatch, and
    /// otherwise each result is bound to the storage returned for it.
    pub fn conclude_launch(
        &mut self,
        outputs: &Vec<TensorDescription>,
        answer: Result<Vec<Handle>, DeviceError>,
    ) -> (outcome: Result<(), FusionError>)
        requires
            first_output_fault(tensor_views(outputs@), old(self)@, old(self).ids(), 0) is None,
        ensures
            outcome == launch_outcome(tensor_views(outputs@), launched(answer)),
            launch_bound(tensor_views(outputs@), launched(answer), *old(self), *final(self)),
    {
        let storages = match answer {
            Ok(storages) => storages,
            Err(failure) => {
                return Err(FusionError::Device(failure));
            },
        };
        if storages.len() != outputs.len() {
            return Err(FusionError::OutputMismatch);
        }
        let ghost given = storages@;
        self.adopt(outputs, storages);
        proof {
            let views = tensor_views(outputs@);
            assert forall|k: int| 0 <= k < views.len() implies self@[(#[trigger] views[k]).id]
                == crate::device::storages_of(given)[k] by {
                assert(views[k] == outputs@[k]@);
            }
        }
        Ok(())
    }

    /// Binds each result of a kernel to the storage the device returned for
    /// it.
    pub fn adopt(&mut self, outputs: &Vec<TensorDescription>, storages: Vec<Handle>)
        requires
            storages@.len() == outputs@.len(),
            first_output_fault(tensor_views(outputs@), old(self)@, old(self).ids(), 0) is None,
        ensures
            final(self).ids() == old(self).ids(),
            final(self)@.dom() == old(self)@.dom().union(ids_of(tensor_views(outputs@))),
            old(self)@.submap_of(final(self)@),
            forall|k: int|
                0 <= k < outputs@.len() ==> final(self)@[(#[trigger] outputs@[k]).id]
                    == storages@[k]@,
    {
        let ghost outs = tensor_views(outputs@);
        let ghost given = storages@;
        proof {
            lemma_no_output_fault(outs, self@, self.ids(), 0);
        }
        let mut rest = storages;
        let mut k: usize = outputs.len();
        while k > 0
            invariant
                k <= outputs@.len(),
                outs == tensor_views(outputs@),
                given.len() == outputs@.len(),
                rest@ == given.subrange(0, k as int),
                self.ids() == old(self).ids(),
                forall|m: int|
                    0 <= m < outs.len() ==> output_fault(outs, m, old(self)@, old(self).ids())
                        is None,
                old(self)@.submap_of(self@),
                forall|id: TensorId|
                    self@.contains_key(id) <==> old(self)@.contains_key(id) || has_id(
                        outs.subrange(k as int, outs.len() as int),
                        id,
                    ),
                forall|m: int|
                    k <= m < outputs@.len() ==> self@[(#[trigger] outputs@[m]).id] == given[m]@,
            decreases k,
        {
            k -= 1;
            let handle = rest.pop().unwrap();
            let id = outputs[k].id;
            assert(outs[k as int] == outputs@[k as int]@);
            assert(output_fault(outs, k as int, old(self)@, old(self).ids()) is None);
            let _ = self.register_handle(id, handle);
            assert(rest@ =~= given.subrange(0, k as int));
            proof {
                let tail = outs.subrange(k as int, outs.len() as int);
                let shorter = outs.subrange(k + 1, outs.len() as int);
                assert(tail[0] == outs[k as int]);
                assert forall|other: TensorId|
                    self@.contains_key(other) <==> old(self)@.contains_key(other) || has_id(
                        tail,
                        other,
                    ) by {
                    if has_id(tail, other) {
                        let w = choose|w: int| 0 <= w < tail.len() && tail[w].id == other;
                        if w > 0 {
                            assert(shorter[w - 1] == tail[w]);
                        }
                    }
                    if has_id(shorter, other) {
                        let w = choose|w: int| 0 <= w < shorter.len() && shorter[w].id == other;
                        assert(tail[w + 1] == shorter[w]);
                    }
                }
                assert forall|m: int| k < m < outputs@.len() implies self@[(
                #[trigger] outputs@[m]).id] == given[m]@ by {
                    assert(outs[m] == outputs@[m]@);
                    assert(output_fault(outs, m, old(self)@, old(self).ids()) is None);
                    let earlier = outs.subrange(0, m);
                    assert(earlier[k as int] == outs[k as int]);
                    assert(outs[m].id != id);
                }
            }
        }
        assert(outs.subrange(0, outs.len() as int) =~= outs);
        assert(self@.dom() =~= old(self)@.dom().union(ids_of(outs)));
    }
}

/// Whether a result before position `k` carries the identity.
fn seen_before(outputs: &Vec<TensorDescription>, k: usize, id: TensorId) -> (seen: bool)
    requires
        k <= outputs@.len(),
    ensures
        seen == has_id(tensor_views(outputs@).subrange(0, k as int), id),
{
    let ghost earlier = tensor_views(outputs@).subrange(0, k as int);
    let mut i: usize = 0;
    while i < k
        invariant
            i <= k <= outputs@.len(),
            earlier == tensor_views(outputs@).subrange(0, k as int),
            forall|m: int| 0 <= m < i ==> (#[trigger] earlier[m]).id != id,
        decreases k - i,
    {
        assert(earlier[i as int] == outputs@[i as int]@);
        if outputs[i].id == id {
            return true;
        }
        i += 1;
    }
    false
}

} // verus!
