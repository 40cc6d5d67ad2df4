//! Inter-process communication: message queues, pipes and shared memory.

use vstd::prelude::*;

pub mod message;
pub mod pipe;
pub mod shared_memory;

verus! {

/// IPC error types.
#[derive(Debug, Clone, Copy, PartialEq, Eq, Structural)]
pub enum IpcError {
    QueueFull,
    QueueEmpty,
    InvalidPort,
    PermissionDenied,
    ConnectionRefused,
    ConnectionReset,
    Timeout,
}

/// Result of an IPC operation.
pub type IpcResult<T> = Result<T, IpcError>;

} // verus!
