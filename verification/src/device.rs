//! The compute device boundary: device identities, storage handles and the
//! errors a device may report.

use vstd::prelude::*;
use crate::kernel::{ElementWiseKernelFactory, KernelView};
use crate::stream::{OperationDescription, OperationView};
use crate::trace::{Trace, TraceView};

verus! {

/// Identity of a compute device: a device family and an ordinal within it.
#[derive(Clone, Copy, Debug, PartialEq, Eq, Structural, Hash)]
pub struct DeviceId {
    pub type_id: u16,
    pub index_id: u32,
}

impl DeviceId {
    pub fn new(type_id: u16, index_id: u32) -> (id: Self)
        ensures
            id.type_id == type_id,
            id.index_id == index_id,
    {
        DeviceId { type_id, index_id }
    }

    /// Strict total order on identities: by family, then by ordinal.
    pub open spec fn spec_precedes(self, other: DeviceId) -> bool {
        self.type_id < other.type_id || (self.type_id == other.type_id && self.index_id
            < other.index_id)
    }

    pub fn precedes(&self, other: &DeviceId) -> (before: bool)
        ensures
            before == self.spec_precedes(*other),
    {
        self.type_id < other.type_id || (self.type_id == other.type_id && self.index_id
            < other.index_id)
    }
}

/// Element type of the data behind a handle.
#[derive(Clone, Copy, Debug, PartialEq, Eq, Structural, Hash)]
pub enum ElementKind {
    Float,
    Int,
    Bool,
}

/// Failure reported by a device; the code is the device's own.
#[derive(Clone, Copy, Debug, PartialEq, Eq, Structural, Hash)]
pub struct DeviceError {
    pub code: u32,
}

/// Opaque reference to device-resident storage. A handle is never copied:
/// whoever holds it owns the storage it names.
#[derive(Debug)]
pub struct Handle {
    storage: u64,
}

impl View for Handle {
    type V = u64;

    closed spec fn view(&self) -> u64 {
        self.storage
    }
}

impl Handle {
    pub fn new(storage: u64) -> (handle: Self)
        ensures
            handle@ == storage,
    {
        Handle { storage }
    }

    /// The device's name for the storage.
    pub fn storage(&self) -> (storage: u64)
        ensures
            storage == self@,
    {
        self.storage
    }
}

/// One request made of a device.
pub enum DeviceRequest {
    /// Run a fused kernel for its result.
    Launch { kernel: KernelView, trace: TraceView, inputs: Seq<u64> },
    /// Run a fused kernel once to measure it; its result is thrown away.
    Benchmark { kernel: KernelView, trace: TraceView, inputs: Seq<u64> },
    /// Run a single operation by itself.
    Operation { op: OperationView, inputs: Seq<u64> },
    /// Read the bytes behind a storage name.
    Read { storage: u64 },
    /// Store bytes in fresh storage.
    Upload { kind: ElementKind, shape: Seq<usize>, bytes: Seq<u8> },
    /// Give storage back.
    Release { storage: u64 },
}

/// A compute device as this crate consumes it. Implementations decide what
/// every request returns; nothing is assumed of them.
pub trait ComputeDevice {
    /// The identity of the device.
    fn id(&self) -> DeviceId;

    /// Runs a fused kernel on the storages bound to the trace's inputs, in
    /// the order of the trace's inputs, and returns fresh storage for each of
    /// the trace's outputs, in their order.
    fn launch(
        &mut self,
        kernel: &ElementWiseKernelFactory,
        trace: &Trace,
        inputs: &Vec<u64>,
    ) -> Result<Vec<Handle>, DeviceError>;

    /// Runs a fused kernel once on scratch outputs and reports how long it
    /// took, in nanoseconds.
    fn benchmark(
        &mut self,
        kernel: &ElementWiseKernelFactory,
        trace: &Trace,
        inputs: &Vec<u64>,
    ) -> Result<u64, DeviceError>;

    /// Runs one operation on the storages bound to its operands and returns
    /// fresh storage for its result.
    fn run(&mut self, op: &OperationDescription, inputs: &Vec<u64>) -> Result<Handle, DeviceError>;

    /// Reads the raw bytes behind a storage name.
    fn read(&mut self, storage: u64) -> Result<Vec<u8>, DeviceError>;

    /// Stores raw bytes of the given element kind and shape in fresh storage.
    fn upload(&mut self, kind: ElementKind, shape: &Vec<usize>, bytes: &Vec<u8>) -> Result<
        Handle,
        DeviceError,
    >;

    /// Gives storage back to the device.
    fn release(&mut self, handle: Handle);
}

/// What a device answered to one request. A handle is recorded by the name
/// of the storage it refers to.
pub enum DeviceAnswer {
    /// To a launch: the storages of the results, or the failure.
    Launched(Result<Seq<u64>, DeviceError>),
    /// To a measurement: the nanoseconds it took, or the failure.
    Measured(Result<u64, DeviceError>),
    /// To a single operation: the storage of its result, or the failure.
    Ran(Result<u64, DeviceError>),
    /// To a read: the bytes, or the failure.
    Read(Result<Seq<u8>, DeviceError>),
    /// To an upload: the fresh storage, or the failure.
    Uploaded(Result<u64, DeviceError>),
    /// To a release, which has no answer.
    Released,
}

/// One request made of a device, with what the device answered.
pub struct Exchange {
    pub request: DeviceRequest,
    pub answer: DeviceAnswer,
}

/// The names of the storages a list of handles refers to.
pub open spec fn storages_of(handles: Seq<Handle>) -> Seq<u64> {
    handles.map_values(|handle: Handle| handle@)
}

/// The answer to a launch as it is recorded.
pub open spec fn launched(answer: Result<Vec<Handle>, DeviceError>) -> Result<
    Seq<u64>,
    DeviceError,
> {
    match answer {
        Ok(handles) => Ok(storages_of(handles@)),
        Err(failure) => Err(failure),
    }
}

/// The answer to a single operation or to an upload as it is recorded.
pub open spec fn stored(answer: Result<Handle, DeviceError>) -> Result<u64, DeviceError> {
    match answer {
        Ok(handle) => Ok(handle@),
        Err(failure) => Err(failure),
    }
}

/// The answer to a read as it is recorded.
pub open spec fn read_out(answer: Result<Vec<u8>, DeviceError>) -> Result<Seq<u8>, DeviceError> {
    match answer {
        Ok(bytes) => Ok(bytes@),
        Err(failure) => Err(failure),
    }
}

/// The record grew by exactly one exchange, and its request is `request`.
pub open spec fn asked(before: Seq<Exchange>, after: Seq<Exchange>, request: DeviceRequest) -> bool {
    &&& after.len() == before.len() + 1
    &&& after.drop_last() == before
    &&& after.last().request == request
}

/// The channel to a device. Every request goes through it, and it keeps the
/// record of what was asked and what the device answered, in order: the
/// record is what the contracts of this crate speak of when they say what a
/// device was asked to do and what became of its answer.
pub struct ComputeClient<D: ComputeDevice> {
    device: D,
    record: Ghost<Seq<Exchange>>,
}

impl<D: ComputeDevice> ComputeClient<D> {
    /// Every exchange so far, oldest first.
    pub closed spec fn exchanges(&self) -> Seq<Exchange> {
        self.record@
    }

    /// A channel to the device, with nothing asked yet.
    pub fn new(device: D) -> (client: Self)
        ensures
            client.exchanges() == Seq::<Exchange>::empty(),
    {
        ComputeClient { device, record: Ghost(Seq::empty()) }
    }

    /// The identity the device reports.
    pub fn id(&self) -> (id: DeviceId) {
        self.device.id()
    }

    /// Asks the device to run a fused kernel for its result.
    pub fn launch(
        &mut self,
        kernel: &ElementWiseKernelFactory,
        trace: &Trace,
        inputs: &Vec<u64>,
    ) -> (outputs: Result<Vec<Handle>, DeviceError>)
        ensures
            asked(
                old(self).exchanges(),
                final(self).exchanges(),
                DeviceRequest::Launch { kernel: kernel@, trace: trace@, inputs: inputs@ },
            ),
            final(self).exchanges().last().answer == DeviceAnswer::Launched(launched(outputs)),
    {
        let outputs = self.device.launch(kernel, trace, inputs);
        proof {
            let exchange = Exchange {
                request: DeviceRequest::Launch { kernel: kernel@, trace: trace@, inputs: inputs@ },
                answer: DeviceAnswer::Launched(launched(outputs)),
            };
            self.record@ = self.record@.push(exchange);
            assert(self.record@.drop_last() =~= old(self).record@);
        }
        outputs
    }

    /// Asks the device to run a fused kernel once and measure it.
    pub fn benchmark(
        &mut self,
        kernel: &ElementWiseKernelFactory,
        trace: &Trace,
        inputs: &Vec<u64>,
    ) -> (elapsed: Result<u64, DeviceError>)
        ensures
            asked(
                old(self).exchanges(),
                final(self).exchanges(),
                DeviceRequest::Benchmark { kernel: kernel@, trace: trace@, inputs: inputs@ },
            ),
            final(self).exchanges().last().answer == DeviceAnswer::Measured(elapsed),
    {
        let elapsed = self.device.benchmark(kernel, trace, inputs);
        proof {
            let exchange = Exchange {
                request: DeviceRequest::Benchmark {
                    kernel: kernel@,
                    trace: trace@,
                    inputs: inputs@,
                },
                answer: DeviceAnswer::Measured(elapsed),
            };
            self.record@ = self.record@.push(exchange);
            assert(self.record@.drop_last() =~= old(self).record@);
        }
        elapsed
    }

    /// Asks the device to run one operation by itself.
    pub fn run(&mut self, op: &OperationDescription, inputs: &Vec<u64>) -> (output: Result<
        Handle,
        DeviceError,
    >)
        ensures
            asked(
                old(self).exchanges(),
                final(self).exchanges(),
                DeviceRequest::Operation { op: op@, inputs: inputs@ },
            ),
            final(self).exchanges().last().answer == DeviceAnswer::Ran(stored(output)),
    {
        let output = self.device.run(op, inputs);
        proof {
            let exchange = Exchange {
                request: DeviceRequest::Operation { op: op@, inputs: inputs@ },
                answer: DeviceAnswer::Ran(stored(output)),
            };
            self.record@ = self.record@.push(exchange);
            assert(self.record@.drop_last() =~= old(self).record@);
        }
        output
    }

    /// Asks the device for the bytes behind a storage name.
    pub fn read(&mut self, storage: u64) -> (bytes: Result<Vec<u8>, DeviceError>)
        ensures
            asked(
                old(self).exchanges(),
                final(self).exchanges(),
                DeviceRequest::Read { storage },
            ),
            final(self).exchanges().last().answer == DeviceAnswer::Read(read_out(bytes)),
    {
        let bytes = self.device.read(storage);
        proof {
            let exchange = Exchange {
                request: DeviceRequest::Read { storage },
                answer: DeviceAnswer::Read(read_out(bytes)),
            };
            self.record@ = self.record@.push(exchange);
            assert(self.record@.drop_last() =~= old(self).record@);
        }
        bytes
    }

    /// Asks the device to store bytes in fresh storage.
    pub fn upload(&mut self, kind: ElementKind, shape: &Vec<usize>, bytes: &Vec<u8>) -> (handle:
        Result<Handle, DeviceError>)
        ensures
            asked(
                old(self).exchanges(),
                final(self).exchanges(),
                DeviceRequest::Upload { kind, shape: shape@, bytes: bytes@ },
            ),
            final(self).exchanges().last().answer == DeviceAnswer::Uploaded(stored(handle)),
    {
        let handle = self.device.upload(kind, shape, bytes);
        proof {
            let exchange = Exchange {
                request: DeviceRequest::Upload { kind, shape: shape@, bytes: bytes@ },
                answer: DeviceAnswer::Uploaded(stored(handle)),
            };
            self.record@ = self.record@.push(exchange);
            assert(self.record@.drop_last() =~= old(self).record@);
        }
        handle
    }

    /// Gives storage back to the device.
    pub fn release(&mut self, handle: Handle)
        ensures
            asked(
                old(self).exchanges(),
                final(self).exchanges(),
                DeviceRequest::Release { storage: handle@ },
            ),
            final(self).exchanges().last().answer == DeviceAnswer::Released,
    {
        proof {
            let exchange = Exchange {
                request: DeviceRequest::Release { storage: handle@ },
                answer: DeviceAnswer::Released,
            };
            self.record@ = self.record@.push(exchange);
            assert(self.record@.drop_last() =~= old(self).record@);
        }
        self.device.release(handle)
    }
}

} // verus!
