//! PCI addressing, shared by the controller drivers.

use vstd::prelude::*;

verus! {

/// A PCI function address (bus, device, function).
#[derive(Clone, Copy, Debug, PartialEq, Eq, Structural)]
pub struct PciAddress {
    pub bus: u8,
    pub device: u8,
    pub function: u8,
}

} // verus!
