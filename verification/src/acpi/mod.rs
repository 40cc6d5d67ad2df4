//! ACPI power management.

use vstd::prelude::*;

verus! {

/// Enter S3 sleep: not provided, nothing happens.
pub fn sleep() {
}

/// Enter S4 hibernation: not provided, nothing happens.
pub fn hibernate() {
}

} // verus!
