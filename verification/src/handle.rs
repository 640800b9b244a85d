//! The handle table: which tensor identity currently owns which storage.

use vstd::prelude::*;
use crate::device::{stored, DeviceError, Handle};
use crate::error::FusionError;
use crate::tensor::TensorId;

verus! {

/// Maps tensor identities to the storage handles they own.
///
/// Identities are handed out in increasing order and never reused, so an
/// identity resolves to at most one live handle.
pub struct HandleContainer {
    slots: Vec<Option<Handle>>,
}

impl View for HandleContainer {
    type V = Map<TensorId, u64>;

    /// The live bindings: identity to storage name.
    closed spec fn view(&self) -> Map<TensorId, u64> {
        Map::new(
            |id: TensorId| id.value < self.slots@.len() && self.slots@[id.value as int] is Some,
            |id: TensorId| self.slots@[id.value as int].unwrap()@,
        )
    }
}

impl HandleContainer {
    /// How many identities have been handed out so far.
    pub closed spec fn ids(&self) -> nat {
        self.slots@.len()
    }

    /// Only identities that were handed out can be bound.
    pub proof fn lemma_bound_is_known(&self, id: TensorId)
        requires
            self@.contains_key(id),
        ensures
            id.value < self.ids(),
    {
    }

    pub fn new() -> (table: Self)
        ensures
            table@ == Map::<TensorId, u64>::empty(),
            table.ids() == 0,
    {
        let table = HandleContainer { slots: Vec::new() };
        assert(table@ =~= Map::<TensorId, u64>::empty());
        table
    }

    /// Hands out a fresh identity with no storage bound to it.
    pub fn create_empty_handle(&mut self) -> (id: TensorId)
        ensures
            id.value == old(self).ids(),
            id.value < final(self).ids(),
            !old(self)@.contains_key(id),
            final(self).ids() == old(self).ids() + 1,
            final(self)@ == old(self)@,
    {
        let id = TensorId { value: self.slots.len() as u64 };
        self.slots.push(None);
        assert(self@ =~= old(self)@);
        id
    }

    /// Identities never repeat. An identity handed out earlier is below the
    /// counter ever after, since no operation lowers the counter; the next
    /// identity handed out is the counter itself, so it differs from every
    /// earlier one, and it owns no storage yet.
    pub proof fn lemma_identities_never_repeat(&self, earlier: TensorId, next: TensorId)
        requires
            earlier.value < self.ids(),
            next.value == self.ids(),
        ensures
            earlier != next,
            !self@.contains_key(next),
    {
    }

    /// A new identity that owns the given storage from the start.
    pub fn register_new(&mut self, handle: Handle) -> (id: TensorId)
        ensures
            id.value == old(self).ids(),
            !old(self)@.contains_key(id),
            final(self).ids() == old(self).ids() + 1,
            final(self)@ == old(self)@.insert(id, handle@),
    {
        let id = self.create_empty_handle();
        let _ = self.register_handle(id, handle);
        id
    }

    /// What becomes of the table once a device has answered a request for
    /// fresh storage: the storage is bound to the next identity, which is
    /// the result; a failure of the device is passed on and nothing changes.
    pub open spec fn taken_in(
        before: Self,
        after: Self,
        answer: Result<u64, DeviceError>,
        outcome: Result<TensorId, FusionError>,
    ) -> bool {
        match answer {
            Ok(storage) => {
                &&& outcome is Ok
                &&& outcome->Ok_0.value == before.ids()
                &&& after.ids() == before.ids() + 1
                &&& after@ == before@.insert(outcome->Ok_0, storage)
            },
            Err(failure) => {
                &&& outcome == Err::<TensorId, FusionError>(FusionError::Device(failure))
                &&& after == before
            },
        }
    }

    /// Takes a device's answer to a request for fresh storage and binds the
    /// storage to a new identity.
    pub fn take_in(&mut self, answer: Result<Handle, DeviceError>) -> (outcome: Result<
        TensorId,
        FusionError,
    >)
        ensures
            Self::taken_in(*old(self), *final(self), stored(answer), outcome),
    {
        match answer {
            Ok(handle) => Ok(self.register_new(handle)),
            Err(failure) => Err(FusionError::Device(failure)),
        }
    }

    /// Whether the identity was handed out by this table.
    pub fn knows(&self, id: TensorId) -> (known: bool)
        ensures
            known == (id.value < self.ids()),
    {
        id.value < self.slots.len() as u64
    }

    /// Whether storage is bound to the identity.
    pub fn is_bound(&self, id: TensorId) -> (bound: bool)
        ensures
            bound == self@.contains_key(id),
    {
        if id.value < self.slots.len() as u64 {
            self.slots[id.value as usize].is_some()
        } else {
            false
        }
    }

    /// The storage bound to the identity, if any.
    pub fn storage_of(&self, id: TensorId) -> (storage: Option<u64>)
        ensures
            storage == (if self@.contains_key(id) {
                Some(self@[id])
            } else {
                None
            }),
    {
        if id.value < self.slots.len() as u64 {
            match &self.slots[id.value as usize] {
                Some(handle) => Some(handle.storage()),
                None => None,
            }
        } else {
            None
        }
    }

    /// Binds a handle to a known identity and returns the handle it
    /// displaces, if any. An identity this table never handed out is
    /// refused: the handle comes back as the error and nothing changes.
    pub fn register_handle(&mut self, id: TensorId, handle: Handle) -> (displaced: Result<
        Option<Handle>,
        Handle,
    >)
        ensures
            final(self).ids() == old(self).ids(),
            id.value < old(self).ids() ==> displaced is Ok && final(self)@ == old(self)@.insert(
                id,
                handle@,
            ) && (displaced->Ok_0 is Some <==> old(self)@.contains_key(id)) && (
            displaced->Ok_0 matches Some(previous) ==> previous@ == old(self)@[id]),
            id.value >= old(self).ids() ==> displaced == Err::<Option<Handle>, Handle>(handle)
                && final(self)@ == old(self)@,
    {
        if id.value < self.slots.len() as u64 {
            let mut slot = Some(handle);
            self.slots.set_and_swap(id.value as usize, &mut slot);
            assert(self@ =~= old(self)@.insert(id, handle@));
            Ok(slot)
        } else {
            Err(handle)
        }
    }

    /// Takes the handle bound to the identity out of the table.
    pub fn remove_handle(&mut self, id: TensorId) -> (removed: Option<Handle>)
        ensures
            final(self).ids() == old(self).ids(),
            final(self)@ == old(self)@.remove(id),
            removed is Some <==> old(self)@.contains_key(id),
            removed matches Some(handle) ==> handle@ == old(self)@[id],
    {
        if id.value < self.slots.len() as u64 {
            let mut slot = None;
            self.slots.set_and_swap(id.value as usize, &mut slot);
            assert(self@ =~= old(self)@.remove(id));
            slot
        } else {
            assert(self@ =~= old(self)@.remove(id));
            None
        }
    }

    /// The identities that own storage, in increasing order.
    pub fn live_ids(&self) -> (live: Vec<TensorId>)
        ensures
            forall|id: TensorId| live@.contains(id) <==> self@.contains_key(id),
            forall|i: int, j: int| 0 <= i < j < live@.len() ==> live@[i].value < live@[j].value,
    {
        let mut live: Vec<TensorId> = Vec::new();
        let mut i: usize = 0;
        while i < self.slots.len()
            invariant
                i <= self.slots@.len(),
                forall|k: int| 0 <= k < live@.len() ==> (#[trigger] live@[k]).value < i
                    && self@.contains_key(live@[k]),
                forall|id: TensorId|
                    id.value < i && self@.contains_key(id) ==> live@.contains(id),
                forall|a: int, b: int|
                    0 <= a < b < live@.len() ==> live@[a].value < live@[b].value,
            decreases self.slots@.len() - i,
        {
            if self.slots[i].is_some() {
                let id = TensorId { value: i as u64 };
                let ghost before = live@;
                live.push(id);
                assert(live@[before.len() as int] == id);
                assert forall|other: TensorId|
                    other.value < i + 1 && self@.contains_key(other) implies live@.contains(
                    other,
                ) by {
                    if other.value < i {
                        assert(before.contains(other));
                        let k = choose|k: int| 0 <= k < before.len() && before[k] == other;
                        assert(live@[k] == other);
                    } else {
                        assert(other == id);
                    }
                }
            }
            i += 1;
        }
        live
    }
}

} // verus!
