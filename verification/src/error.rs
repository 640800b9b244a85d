//! Failures surfaced to callers.

use vstd::prelude::*;
use crate::device::DeviceError;
use crate::tensor::TensorId;

verus! {

/// Why a kernel could not be run or a queue not drained.
#[derive(Clone, Copy, Debug, PartialEq, Eq, Structural)]
pub enum FusionError {
    /// An operand owns no storage: its handle was dropped or never bound.
    MissingHandle(TensorId),
    /// A result is to be bound to an identity the handle table never handed
    /// out.
    UnknownTensor(TensorId),
    /// A result is to be bound to an identity that already owns storage, or
    /// that an earlier result of the same kernel is bound to.
    OutputBound(TensorId),
    /// The device returned a different number of results than the kernel
    /// produces.
    OutputMismatch,
    /// The autotune registry holds a variant index outside the candidates.
    CorruptCache(usize),
    /// Every candidate of a benchmark trial failed.
    BenchmarkFailed,
    /// The device reported a failure.
    Device(DeviceError),
}

} // verus!
