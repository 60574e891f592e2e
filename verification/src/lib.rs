//! A UEFI-payload firmware library centred on a verified USB 2.0 (EHCI)
//! host-controller driver.
//!
//! The driver core — descriptor construction, the asynchronous transfer
//! schedule, the control/bulk transfer engines, port enumeration and the
//! controller lifecycle — operates on an explicit register/memory model
//! (`ehci_hw`), so every decision the driver makes is verified against the
//! documented hardware semantics.  A thin unverified shell may replay the
//! same operations against real memory-mapped registers.

pub mod arch;
pub mod coreboot;
pub mod device_path;
pub mod ehci;
pub mod ehci_desc;
pub mod ehci_hw;
pub mod ehci_regs;
pub mod iso9660;
pub mod logger;
pub mod pci;
pub mod sdhci;
pub mod usb;
