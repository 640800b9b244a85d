//! The client: a cloneable, thread-safe front door to the dispatch server
//! of one device. Every operation holds the server's lock for its duration
//! and for no longer.

use vstd::prelude::*;
use std::sync::Arc;
use spin::mutex::Mutex;
use crate::device::{ComputeDevice, DeviceId, ElementKind, Handle};
use crate::error::FusionError;
use crate::server::{AutotuneRegistry, DrainError, DrainReport, FusionServer, Reader};
use crate::stream::OperationDescription;
use crate::kernel::generate_id;
use crate::sync::{guarded, lock, new_mutex, same_allocation, share};
use crate::tensor::{TensorDescription, TensorId};

verus! {

/// Which of the two servers of a transfer is locked first.
#[derive(Clone, Copy, Debug, PartialEq, Eq, Structural)]
pub enum LockOrder {
    SourceFirst,
    DestinationFirst,
}

/// What the lock order goes by: the identity of a server's device, and the
/// serial number the server drew when it was made, which tells two servers
/// of one device apart.
#[derive(Clone, Copy, Debug, PartialEq, Eq, Structural)]
pub struct LockKey {
    pub device: DeviceId,
    pub serial: u64,
}

impl LockKey {
    /// Strict total order on keys: by device, then by serial number.
    pub open spec fn spec_precedes(self, other: LockKey) -> bool {
        self.device.spec_precedes(other.device) || (self.device == other.device && self.serial
            < other.serial)
    }

    pub fn precedes(&self, other: &LockKey) -> (before: bool)
        ensures
            before == self.spec_precedes(*other),
    {
        self.device.precedes(&other.device) || (self.device.type_id == other.device.type_id
            && self.device.index_id == other.device.index_id && self.serial < other.serial)
    }
}

/// The server with the lower key is locked first. Two servers whose keys
/// are equal have drawn the same serial number for the same device; then
/// the destination is locked first.
pub open spec fn spec_lock_order(source: LockKey, destination: LockKey) -> LockOrder {
    if source.spec_precedes(destination) {
        LockOrder::SourceFirst
    } else {
        LockOrder::DestinationFirst
    }
}

/// Which server a transfer from `source` to `destination` locks first.
pub fn lock_order(source: &LockKey, destination: &LockKey) -> (order: LockOrder)
    ensures
        order == spec_lock_order(*source, *destination),
{
    if source.precedes(destination) {
        LockOrder::SourceFirst
    } else {
        LockOrder::DestinationFirst
    }
}

/// The lock order is global: two transfers between the same two servers in
/// opposite directions lock the same server first, the one of the lower
/// key, whether the servers belong to different devices or to one.
pub proof fn lemma_lock_order_is_global(a: LockKey, b: LockKey)
    requires
        a != b,
    ensures
        spec_lock_order(a, b) is SourceFirst <==> spec_lock_order(b, a) is DestinationFirst,
        spec_lock_order(a, b) is SourceFirst <==> a.spec_precedes(b),
        a.spec_precedes(b) != b.spec_precedes(a),
{
}

/// A tensor as a client hands it out: its identity on the client's server,
/// its shape, and the client that reaches it.
#[verifier::reject_recursive_types(D)]
pub struct FusionTensor<D: ComputeDevice> {
    pub id: TensorId,
    pub shape: Vec<usize>,
    pub client: MutexFusionClient<D>,
}

/// Use a mutex to communicate with the fusion server.
#[verifier::reject_recursive_types(D)]
pub struct MutexFusionClient<D: ComputeDevice> {
    server: Arc<Mutex<FusionServer<D>>>,
    device: DeviceId,
    serial: u64,
}

impl<D: ComputeDevice> Clone for MutexFusionClient<D> {
    fn clone(&self) -> (client: Self)
        ensures
            client == *self,
    {
        Self { server: share(&self.server), device: self.device, serial: self.serial }
    }
}

impl<D: ComputeDevice> FusionTensor<D> {
    pub fn new(id: TensorId, shape: Vec<usize>, client: MutexFusionClient<D>) -> (tensor: Self)
        ensures
            tensor.id == id,
            tensor.shape == shape,
            tensor.client == client,
    {
        FusionTensor { id, shape, client }
    }
}

impl<D: ComputeDevice> MutexFusionClient<D> {
    /// The identity of the device this client dispatches to.
    pub closed spec fn spec_device(&self) -> DeviceId {
        self.device
    }

    /// A client with a server of its own for the device. The registry is the
    /// one the server consults when it autotunes.
    pub fn new(device: D, tuner: AutotuneRegistry) -> (client: Self) {
        let server = FusionServer::new(device, tuner);
        Self { device: server.device, serial: generate_id(), server: Arc::new(new_mutex(server)) }
    }

    /// What the lock order knows this client's server by.
    pub closed spec fn spec_lock_key(&self) -> LockKey {
        LockKey { device: self.device, serial: self.serial }
    }

    pub fn lock_key(&self) -> (key: LockKey)
        ensures
            key == self.spec_lock_key(),
            key.device == self.spec_device(),
    {
        LockKey { device: self.device, serial: self.serial }
    }

    /// Appends an operation to the device's stream.
    pub fn register(&self, description: OperationDescription) {
        let mut guard = lock(&*self.server);
        let server = guarded(&mut guard);
        server.register(description)
    }

    /// Carries out everything queued, in queue order. What was queued is
    /// known only to whoever holds the lock; the report accounts for it
    /// segment by segment.
    pub fn drain(&self) -> (outcome: Result<DrainReport, DrainError>)
        ensures
            outcome matches Ok(report) ==> report.executions@.len() == report.segments@.len()
                && forall|i: int|
                0 <= i < report.segments@.len() ==> ((#[trigger] report.executions@[i]) is Fused
                    <==> report.segments@[i].fused),
    {
        let mut guard = lock(&*self.server);
        let server = guarded(&mut guard);
        server.drain_streams()
    }

    /// A new tensor of the given shape with no storage bound to it yet.
    pub fn tensor_uninitialized(&self, shape: Vec<usize>) -> (tensor: FusionTensor<D>)
        ensures
            tensor.shape == shape,
            tensor.client.spec_device() == self.spec_device(),
    {
        let id = {
            let mut guard = lock(&*self.server);
            let server = guarded(&mut guard);
            server.create_empty_handle()
        };

        FusionTensor::new(id, shape, self.clone())
    }

    pub fn device(&self) -> (device: &DeviceId)
        ensures
            *device == self.spec_device(),
    {
        &self.device
    }

    /// A new tensor that owns the given storage.
    pub fn register_tensor(&self, handle: Handle, shape: Vec<usize>) -> (tensor: FusionTensor<D>)
        ensures
            tensor.shape == shape,
            tensor.client.spec_device() == self.spec_device(),
    {
        let id = {
            let mut guard = lock(&*self.server);
            let server = guarded(&mut guard);
            server.register_tensor(handle)
        };

        FusionTensor::new(id, shape, self.clone())
    }

    /// Reads a tensor of floating-point elements: everything queued before
    /// the call is carried out first.
    pub fn read_tensor_float(&self, tensor: TensorDescription) -> (outcome: Result<
        Reader,
        FusionError,
    >)
        ensures
            outcome matches Ok(reader) ==> reader.kind == ElementKind::Float && reader.shape@
                == tensor.shape@,
    {
        let mut guard = lock(&*self.server);
        let server = guarded(&mut guard);
        server.read_float(&tensor)
    }

    /// Reads a tensor of integer elements: everything queued before the call
    /// is carried out first.
    pub fn read_tensor_int(&self, tensor: TensorDescription) -> (outcome: Result<
        Reader,
        FusionError,
    >)
        ensures
            outcome matches Ok(reader) ==> reader.kind == ElementKind::Int && reader.shape@
                == tensor.shape@,
    {
        let mut guard = lock(&*self.server);
        let server = guarded(&mut guard);
        server.read_int(&tensor)
    }

    /// Reads a tensor of boolean elements: everything queued before the call
    /// is carried out first.
    pub fn read_tensor_bool(&self, tensor: TensorDescription) -> (outcome: Result<
        Reader,
        FusionError,
    >)
        ensures
            outcome matches Ok(reader) ==> reader.kind == ElementKind::Bool && reader.shape@
                == tensor.shape@,
    {
        let mut guard = lock(&*self.server);
        let server = guarded(&mut guard);
        server.read_bool(&tensor)
    }

    /// Moves a tensor of floating-point elements to the server of another
    /// client.
    pub fn change_client_float(&self, tensor: TensorDescription, client: Self) -> (outcome: Result<
        FusionTensor<D>,
        FusionError,
    >)
        ensures
            outcome matches Ok(moved) ==> moved.shape == tensor.shape && moved.client == client,
    {
        let id = self.change_client(&tensor, ElementKind::Float, &client);
        match id {
            Ok(id) => Ok(FusionTensor::new(id, tensor.shape, client)),
            Err(failure) => Err(failure),
        }
    }

    /// Moves a tensor of integer elements to the server of another client.
    pub fn change_client_int(&self, tensor: TensorDescription, client: Self) -> (outcome: Result<
        FusionTensor<D>,
        FusionError,
    >)
        ensures
            outcome matches Ok(moved) ==> moved.shape == tensor.shape && moved.client == client,
    {
        let id = self.change_client(&tensor, ElementKind::Int, &client);
        match id {
            Ok(id) => Ok(FusionTensor::new(id, tensor.shape, client)),
            Err(failure) => Err(failure),
        }
    }

    /// Moves a tensor of boolean elements to the server of another client.
    pub fn change_client_bool(&self, tensor: TensorDescription, client: Self) -> (outcome: Result<
        FusionTensor<D>,
        FusionError,
    >)
        ensures
            outcome matches Ok(moved) ==> moved.shape == tensor.shape && moved.client == client,
    {
        let id = self.change_client(&tensor, ElementKind::Bool, &client);
        match id {
            Ok(id) => Ok(FusionTensor::new(id, tensor.shape, client)),
            Err(failure) => Err(failure),
        }
    }

    /// Drops the storage of a tensor that went out of scope.
    pub fn register_orphan(&self, id: &TensorId) {
        let mut guard = lock(&*self.server);
        let server = guarded(&mut guard);
        server.drop_tensor_handle(*id);
    }

    /// The identities that own storage on the server, in increasing order.
    pub fn live_tensors(&self) -> (live: Vec<TensorId>)
        ensures
            forall|i: int, j: int| 0 <= i < j < live@.len() ==> live@[i].value < live@[j].value,
    {
        let mut guard = lock(&*self.server);
        let server = guarded(&mut guard);
        server.context.handles.live_ids()
    }

    /// Moves a tensor to the server of `client` and returns its identity
    /// there. Both servers are locked, in the global order, for the
    /// duration; the source stream is drained before the tensor leaves. When
    /// both clients share one server the tensor is where it should be: the
    /// stream is drained and the identity stays.
    fn change_client(&self, tensor: &TensorDescription, kind: ElementKind, client: &Self) -> (outcome:
        Result<TensorId, FusionError>) {
        if same_allocation(&self.server, &client.server) {
            let mut guard = lock(&*self.server);
            let server = guarded(&mut guard);
            return settle(server, tensor);
        }
        match lock_order(&self.lock_key(), &client.lock_key()) {
            LockOrder::SourceFirst => {
                let mut guard_current = lock(&*self.server);
                let mut guard_other = lock(&*client.server);
                let server_current = guarded(&mut guard_current);
                let server_other = guarded(&mut guard_other);
                transfer(server_current, server_other, tensor, kind)
            },
            LockOrder::DestinationFirst => {
                let mut guard_other = lock(&*client.server);
                let mut guard_current = lock(&*self.server);
                let server_current = guarded(&mut guard_current);
                let server_other = guarded(&mut guard_other);
                transfer(server_current, server_other, tensor, kind)
            },
        }
    }
}

/// Drains the source and moves the tensor to the destination.
pub fn transfer<D: ComputeDevice>(
    server_current: &mut FusionServer<D>,
    server_other: &mut FusionServer<D>,
    tensor: &TensorDescription,
    kind: ElementKind,
) -> (outcome: Result<TensorId, FusionError>)
    ensures
        FusionServer::transferred(
            *old(server_current),
            *final(server_current),
            *old(server_other),
            *final(server_other),
            tensor@,
            kind,
            outcome,
        ),
{
    let drain = server_current.drain_streams();
    let ghost mid = *server_current;
    let ghost drain_outcome = drain;
    match drain {
        Ok(_) => {},
        Err(failure) => {
            assert(FusionServer::drained(*old(server_current), mid, drain_outcome));
            return Err(failure.cause);
        },
    }
    let outcome = server_current.change_server(tensor, kind, server_other);
    proof {
        FusionServer::lemma_transfer_of_drained(
            mid,
            *server_current,
            *old(server_other),
            *server_other,
            tensor@,
            kind,
            outcome,
        );
        assert(FusionServer::drained(*old(server_current), mid, drain_outcome));
    }
    outcome
}

/// A transfer between two clients of one server: the stream is drained and
/// the tensor keeps its identity. A drain that fails gives its cause.
pub fn settle<D: ComputeDevice>(server: &mut FusionServer<D>, tensor: &TensorDescription) -> (outcome:
    Result<TensorId, FusionError>)
    ensures
        exists|drain: Result<DrainReport, DrainError>|
            {
                &&& #[trigger] FusionServer::drained(*old(server), *final(server), drain)
                &&& outcome == (match drain {
                    Ok(_) => Ok::<TensorId, FusionError>(tensor.id),
                    Err(failure) => Err::<TensorId, FusionError>(failure.cause),
                })
            },
{
    let drain = server.drain_streams();
    assert(FusionServer::drained(*old(server), *server, drain));
    match drain {
        Ok(_) => Ok(tensor.id),
        Err(failure) => Err(failure.cause),
    }
}

} // verus!
