//! Deferred tensor operations: queueing, fusion of elementwise runs,
//! autotuned kernel selection and synchronized dispatch to a compute device.

pub mod tensor;
pub mod device;
pub mod handle;
pub mod stream;
pub mod trace;
pub mod kernel;
pub mod tune;
pub mod error;
pub mod context;
pub mod optimization;
pub mod sync;
pub mod server;
pub mod client;
pub mod reader;
