//! A placeholder device.

use vstd::prelude::*;
use vstd::string::*;
use super::{Device, DeviceType, DriverResult};

verus! {

/// A device that is always present and needs no setup.
pub struct PlaceholderDevice {
    name: String,
}

impl PlaceholderDevice {
    /// The device's name.
    pub closed spec fn name_spec(&self) -> Seq<char> {
        self.name@
    }

    /// A placeholder device called `name`.
    pub fn new(name: &str) -> (r: Self)
        ensures
            r.name_spec() == name@,
    {
        PlaceholderDevice { name: String::from_str(name) }
    }
}

impl Device for PlaceholderDevice {
    fn name(&self) -> (r: &str)
        ensures
            r@ == self.name_spec(),
    {
        self.name.as_str()
    }

    fn device_type(&self) -> (r: DeviceType)
        ensures
            r == DeviceType::Other,
    {
        DeviceType::Other
    }

    fn initialize(&self) -> (r: DriverResult<()>)
        ensures
            r is Ok,
    {
        Ok(())
    }

    fn is_present(&self) -> (r: bool)
        ensures
            r,
    {
        true
    }
}

} // verus!
