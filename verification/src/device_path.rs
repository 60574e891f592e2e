//! Device-path node records, as laid down in UEFI device paths.
//!
//! Serialising these nodes into the packed on-wire form is the shell's
//! business; the records here carry the fields.

use vstd::prelude::*;

verus! {

/// USB device path node (messaging type, USB subtype).
#[derive(Clone, Copy, Debug)]
pub struct UsbDevicePathNode {
    pub node_type: u8,
    pub sub_type: u8,
    pub length: [u8; 2],
    /// Parent port number.
    pub parent_port: u8,
    /// USB interface number.
    pub interface: u8,
}

/// ACPI device path node for the PCI root bridge.
#[derive(Clone, Copy, Debug)]
pub struct AcpiDevicePathNode {
    pub node_type: u8,
    pub sub_type: u8,
    pub length: [u8; 2],
    pub hid: u32,
    pub uid: u32,
}

/// PCI device path node.
#[derive(Clone, Copy, Debug)]
pub struct PciDevicePathNode {
    pub node_type: u8,
    pub sub_type: u8,
    pub length: [u8; 2],
    pub function: u8,
    pub device: u8,
}

/// NVMe namespace device path node.
#[derive(Clone, Copy, Debug)]
pub struct NvmeDevicePathNode {
    pub node_type: u8,
    pub sub_type: u8,
    pub length: [u8; 2],
    /// Namespace identifier (NSID).
    pub namespace_id: u32,
    /// IEEE extended unique identifier (EUI-64).
    pub eui64: [u8; 8],
}

/// SATA device path node.
#[derive(Clone, Copy, Debug)]
pub struct SataDevicePathNode {
    pub node_type: u8,
    pub sub_type: u8,
    pub length: [u8; 2],
    /// HBA port number.
    pub hba_port: u16,
    /// Port multiplier port number (0xffff if no port multiplier).
    pub port_multiplier_port: u16,
    /// Logical unit number.
    pub lun: u16,
}

} // verus!
