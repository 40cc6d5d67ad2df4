//! Storage drivers.

use vstd::prelude::*;
use super::{Device, DeviceType, DriverResult};

verus! {

/// A device addressed in fixed-size blocks.
pub trait BlockDevice: Send + Sync {
    /// Number of blocks.
    fn block_count(&self) -> u64;

    /// Block size in bytes.
    fn block_size(&self) -> usize;

    /// Read blocks from `start_block` into `buffer`.
    fn read_blocks(&self, start_block: u64, buffer: &mut [u8]) -> DriverResult<()>;

    /// Write blocks from `buffer` at `start_block`.
    fn write_blocks(&self, start_block: u64, buffer: &[u8]) -> DriverResult<()>;

    /// Flush the write cache.
    fn flush(&self) -> DriverResult<()>;
}

/// Storage controller types.
#[derive(Debug, Clone, Copy, PartialEq, Eq, Structural)]
pub enum StorageControllerType {
    AHCI,
    NVMe,
    USB,
    IDE,
    Unknown,
}

/// Storage device information.
pub struct StorageDeviceInfo {
    pub name: String,
    pub controller_type: StorageControllerType,
    pub model: String,
    pub serial: String,
    pub capacity_bytes: u64,
    pub removable: bool,
}

/// An AHCI controller.
pub struct AhciController {
    name: String,
}

impl AhciController {
    /// The controller's name.
    pub closed spec fn name_spec(&self) -> Seq<char> {
        self.name@
    }

    /// Probe for an AHCI controller at `port`: none is ever found.
    pub fn new(port: u16) -> (r: Option<Self>)
        ensures
            r.is_none(),
    {
        None
    }
}

impl Device for AhciController {
    fn name(&self) -> (r: &str)
        ensures
            r@ == self.name_spec(),
    {
        self.name.as_str()
    }

    fn device_type(&self) -> (r: DeviceType)
        ensures
            r == DeviceType::Storage,
    {
        DeviceType::Storage
    }

    fn initialize(&self) -> (r: DriverResult<()>)
        ensures
            r is Ok,
    {
        Ok(())
    }

    fn is_present(&self) -> (r: bool)
        ensures
            r,
    {
        true
    }
}

/// An NVMe controller.
pub struct NvmeController {
    name: String,
}

impl NvmeController {
    /// The controller's name.
    pub closed spec fn name_spec(&self) -> Seq<char> {
        self.name@
    }

    /// Probe for an NVMe controller at `bar`: none is ever found.
    pub fn new(bar: u64) -> (r: Option<Self>)
        ensures
            r.is_none(),
    {
        None
    }
}

impl Device for NvmeController {
    fn name(&self) -> (r: &str)
        ensures
            r@ == self.name_spec(),
    {
        self.name.as_str()
    }

    fn device_type(&self) -> (r: DeviceType)
        ensures
            r == DeviceType::Storage,
    {
        DeviceType::Storage
    }

    fn initialize(&self) -> (r: DriverResult<()>)
        ensures
            r is Ok,
    {
        Ok(())
    }

    fn is_present(&self) -> (r: bool)
        ensures
            r,
    {
        true
    }
}

} // verus!
