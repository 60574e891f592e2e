//! SDHCI controller state and register-value helpers.
//!
//! The hardware probe and card bring-up run against real registers and are
//! not modelled here; this module holds the controller record those steps
//! fill in, and the pure helpers that compose and decompose the block-size
//! and command register values.

use vstd::prelude::*;
use crate::pci::PciAddress;

verus! {

/// Errors of the SD-host-controller driver.
#[derive(Clone, Copy, Debug, PartialEq, Eq, Structural)]
pub enum SdhciError {
    /// Controller not found or not initialized.
    NotInitialized,
    /// Reset failed.
    ResetFailed,
    /// No card present.
    NoCard,
    /// Card initialization failed.
    CardInitFailed,
    /// Command timeout.
    CommandTimeout,
    /// Command CRC error.
    CommandCrcError,
    /// Command index error.
    CommandIndexError,
    /// Command end bit error.
    CommandEndBitError,
    /// Data timeout.
    DataTimeout,
    /// Data CRC error.
    DataCrcError,
    /// Data end bit error.
    DataEndBitError,
    /// DMA error.
    DmaError,
    /// Invalid parameter.
    InvalidParameter,
    /// Memory allocation failed.
    AllocationFailed,
    /// Clock configuration failed.
    ClockFailed,
    /// Generic error.
    GenericError,
}

/// Block size every SD card transfer uses.
pub const SD_BLOCK_SIZE: u32 = 512;

/// Compose the block-size register value: the SDMA buffer boundary in bits
/// 12..15 and the block size in the low twelve bits.
pub fn make_blksz(boundary: u16, blksz: u16) -> (r: u16)
    ensures
        r == ((boundary & 0x7) << 12) | (blksz & 0xfff),
        (r >> 12) & 0x7 == boundary & 0x7,
        r & 0xfff == blksz & 0xfff,
{
    let r = ((boundary & 0x7) << 12) | (blksz & 0xfff);
    proof {
        let b = boundary;
        let s = blksz;
        assert((((b & 0x7) << 12) | (s & 0xfff)) >> 12 & 0x7 == b & 0x7
            && (((b & 0x7) << 12) | (s & 0xfff)) & 0xfff == s & 0xfff) by (bit_vector);
    }
    r
}

/// Compose the command register value: the command index in bits 8..14 and
/// the flag bits in the low byte.
pub fn make_cmd(cmd_idx: u8, flags: u16) -> (r: u16)
    ensures
        r == ((cmd_idx as u16) << 8) | (flags & 0xff),
        r & 0xff == flags & 0xff,
        (r >> 8) & 0xff == cmd_idx,
{
    let r = ((cmd_idx as u16) << 8) | (flags & 0xff);
    proof {
        let c = cmd_idx;
        let f = flags;
        assert(((((c as u16) << 8) | (f & 0xff)) & 0xff == f & 0xff)
            && ((((c as u16) << 8) | (f & 0xff)) >> 8) & 0xff == c as u16) by (bit_vector);
    }
    r
}

/// Extract the command index from a command register value.
pub fn get_cmd(cmd_val: u16) -> (r: u8)
    ensures
        r == ((cmd_val >> 8) & 0x3f) as u8,
{
    ((cmd_val >> 8) & 0x3f) as u8
}

/// One SD host controller's state, as the probe and card bring-up fill it
/// in.  The staging buffer is carried as a plain address.
pub struct SdhciController {
    /// PCI address (bus:device.function).
    pub pci_address: PciAddress,
    /// MMIO base address.
    pub mmio_base: u64,
    /// SDHCI specification version.
    pub version: u8,
    /// Maximum base clock frequency (Hz).
    pub max_clock: u32,
    /// Capabilities register value.
    pub capabilities: u32,
    /// Capabilities 1 register value.
    pub capabilities_1: u32,
    /// Card is present.
    pub card_present: bool,
    /// Card is initialized.
    pub card_initialized: bool,
    /// Relative card address (after initialization).
    pub rca: u16,
    /// Card is high capacity (SDHC/SDXC).
    pub high_capacity: bool,
    /// Total number of blocks on the card.
    pub num_blocks: u64,
    /// Block size (always 512 for SD).
    pub block_size: u32,
    /// Address of the staging buffer used for data transfers.
    pub dma_base: u64,
}

impl SdhciController {
    /// A controller record before any card bring-up: nothing probed, no
    /// card, SD block size.  The hardware probe fills the remaining fields.
    pub fn new(pci_address: PciAddress, mmio_base: u64, dma_base: u64) -> (r: Self)
        ensures
            r.pci_address == pci_address,
            r.mmio_base == mmio_base,
            r.dma_base == dma_base,
            r.version == 0,
            r.max_clock == 0,
            r.capabilities == 0,
            r.capabilities_1 == 0,
            r.card_present == false,
            r.card_initialized == false,
            r.rca == 0,
            r.high_capacity == false,
            r.num_blocks == 0,
            r.block_size == SD_BLOCK_SIZE,
    {
        SdhciController {
            pci_address,
            mmio_base,
            version: 0,
            max_clock: 0,
            capabilities: 0,
            capabilities_1: 0,
            card_present: false,
            card_initialized: false,
            rca: 0,
            high_capacity: false,
            num_blocks: 0,
            block_size: SD_BLOCK_SIZE,
            dma_base,
        }
    }

    /// The number of blocks on the card.
    pub fn num_blocks(&self) -> (r: u64)
        ensures
            r == self.num_blocks,
    {
        self.num_blocks
    }

    /// The block size.
    pub fn block_size(&self) -> (r: u32)
        ensures
            r == self.block_size,
    {
        self.block_size
    }

    /// A card is present and initialized.
    pub fn is_ready(&self) -> (r: bool)
        ensures
            r == (self.card_present && self.card_initialized),
    {
        self.card_present && self.card_initialized
    }

    /// The PCI address of this controller.
    pub fn pci_address(&self) -> (r: PciAddress)
        ensures
            r == self.pci_address,
    {
        self.pci_address
    }
}

} // verus!
