//! Device driver framework.

use vstd::prelude::*;

pub mod graphics;
pub mod registry;
pub mod storage;

verus! {

/// Base interface of every device.
pub trait Device: Send + Sync {
    /// The device name.
    fn name(&self) -> (r: &str);

    /// The kind of device.
    fn device_type(&self) -> (r: DeviceType);

    /// Initialize the device.
    fn initialize(&self) -> (r: DriverResult<()>);

    /// Whether the device is present and working.
    fn is_present(&self) -> (r: bool);
}

/// Device kinds.
#[derive(Debug, Clone, Copy, PartialEq, Eq, Structural)]
pub enum DeviceType {
    Storage,
    Graphics,
    Input,
    Audio,
    Network,
    USB,
    Power,
    Other,
}

/// Driver error types.
#[derive(Debug, Clone, Copy, PartialEq, Eq, Structural)]
pub enum DriverError {
    NotFound,
    NotSupported,
    IoError,
    Timeout,
    InvalidConfig,
    OutOfMemory,
    Busy,
}

/// Result of a driver operation.
pub type DriverResult<T> = Result<T, DriverError>;

} // verus!
