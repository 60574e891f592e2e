//! ISO9660 / El Torito boot support: the signature check over sector
//! bytes, and the types the boot-image search reports with.
//!
//! Reading sectors off a device is I/O and stays with the caller; the
//! checks here take the bytes.

use vstd::prelude::*;

verus! {

/// ISO9660 sector size (always 2048 bytes).
pub const ISO_SECTOR_SIZE: usize = 2048;

/// Location of an El Torito EFI boot image.
#[derive(Clone, Copy, Debug, PartialEq, Eq, Structural)]
pub struct EfiBootImage {
    /// Starting sector of the EFI boot image (in device blocks).
    pub start_sector: u64,
    /// Size in sectors (in device blocks); may be zero if unspecified.
    pub sector_count: u32,
    /// Size in bytes of the boot image.
    pub size_bytes: u64,
}

/// Errors of the ISO9660 / El Torito walk.
#[derive(Clone, Copy, Debug, PartialEq, Eq, Structural)]
pub enum IsoError {
    /// Read error from the storage device.
    ReadError,
    /// Not an ISO9660 image.
    NotIso9660,
    /// No El Torito boot record found.
    NoElTorito,
    /// No EFI boot entry found.
    NoEfiEntry,
    /// Invalid boot catalog.
    InvalidCatalog,
}

/// The volume-descriptor signature check: bytes 1..6 of the sector read at
/// the primary-volume-descriptor position must spell `CD001`.
pub open spec fn has_cd001(b: Seq<u8>) -> bool {
    b.len() >= 6 && b[1] == 67 && b[2] == 68 && b[3] == 48 && b[4] == 48 && b[5] == 49
}

/// Whether the given bytes, read where the primary volume descriptor of an
/// ISO9660 image lives, carry the `CD001` signature.
pub fn is_iso9660(buffer: &Vec<u8>) -> (r: bool)
    ensures
        r == has_cd001(buffer@),
{
    buffer.len() >= 6 && buffer[1] == 0x43 && buffer[2] == 0x44 && buffer[3] == 0x30
        && buffer[4] == 0x30 && buffer[5] == 0x31
}

} // verus!
