//! EHCI register layout: capability and operational register offsets and
//! the bit assignments of the command, status and port registers.
//!
//! The values are normative and match the EHCI programming interface
//! bit-for-bit; they are shared by the register model and by any shell that
//! drives real memory-mapped registers.

use vstd::prelude::*;

verus! {

// Capability register offsets.
pub const CAP_CAPLENGTH: u32 = 0x00;
pub const CAP_HCSPARAMS: u32 = 0x04;
pub const CAP_HCCPARAMS: u32 = 0x08;
pub const CAP_HCSP_PORTROUTE: u32 = 0x0c;

// Operational register offsets.
pub const OP_USBCMD: u32 = 0x00;
pub const OP_USBSTS: u32 = 0x04;
pub const OP_USBINTR: u32 = 0x08;
pub const OP_FRINDEX: u32 = 0x0c;
pub const OP_CTRLDSSEGMENT: u32 = 0x10;
pub const OP_PERIODICLISTBASE: u32 = 0x14;
pub const OP_ASYNCLISTADDR: u32 = 0x18;
pub const OP_CONFIGFLAG: u32 = 0x40;
pub const OP_PORTSC_BASE: u32 = 0x44;

// USB Command register bits.
/// Run/Stop.
pub const CMD_RS: u32 = 0x01;
/// Host Controller Reset.
pub const CMD_HCRESET: u32 = 0x02;
/// Frame List Size select: 1024 entries.
pub const CMD_FLS_1024: u32 = 0x00;
/// Periodic Schedule Enable.
pub const CMD_PSE: u32 = 0x10;
/// Async Schedule Enable.
pub const CMD_ASE: u32 = 0x20;
/// Interrupt-on-Async-Advance Doorbell.
pub const CMD_IAAD: u32 = 0x40;
/// Interrupt Threshold Control: eight micro-frames.
pub const CMD_ITC_8: u32 = 0x0008_0000;

// USB Status register bits.
pub const STS_USBINT: u32 = 0x01;
pub const STS_USBERRINT: u32 = 0x02;
pub const STS_PCD: u32 = 0x04;
pub const STS_FLR: u32 = 0x08;
pub const STS_HSE: u32 = 0x10;
/// Interrupt on Async Advance (doorbell acknowledge).
pub const STS_IAA: u32 = 0x20;
/// Host Controller Halted.
pub const STS_HCHALTED: u32 = 0x1000;
pub const STS_RECLAMATION: u32 = 0x2000;
/// Periodic Schedule Status.
pub const STS_PSS: u32 = 0x4000;
/// Async Schedule Status.
pub const STS_ASS: u32 = 0x8000;

// Port Status/Control register bits.
/// Current Connect Status.
pub const PORTSC_CCS: u32 = 0x01;
/// Connect Status Change.
pub const PORTSC_CSC: u32 = 0x02;
/// Port Enabled.
pub const PORTSC_PE: u32 = 0x04;
/// Port Enable Change.
pub const PORTSC_PEC: u32 = 0x08;
/// Over-current Change.
pub const PORTSC_OCC: u32 = 0x20;
/// Port Reset.
pub const PORTSC_PR: u32 = 0x100;
/// Line Status field (bits 10..12).
pub const PORTSC_LS_MASK: u32 = 0xc00;
/// Line Status: J-state (full-/high-speed idle signalling).
pub const PORTSC_LS_JSTATE: u32 = 0x400;
/// Line Status: K-state (classic low-speed signalling).
pub const PORTSC_LS_KSTATE: u32 = 0x800;
/// Port Power.
pub const PORTSC_PP: u32 = 0x1000;
/// Port Owner (1 = companion controller drives the port).
pub const PORTSC_PO: u32 = 0x2000;
/// The write-1-to-clear change bits.
pub const PORTSC_W1C_MASK: u32 = 0x2a;

/// Decode the capability registers' first dword and the structural
/// parameters: the operational-register offset, the interface version and
/// the port count.
pub fn parse_capabilities(cap_dword0: u32, hcsparams: u32) -> (r: (u8, u16, u8))
    ensures
        r.0 == cap_dword0 & 0xff,
        r.1 == (cap_dword0 >> 16) & 0xffff,
        r.2 == hcsparams & 0xf,
{
    let caplength = (cap_dword0 & 0xff) as u8;
    let hciversion = ((cap_dword0 >> 16) & 0xffff) as u16;
    let num_ports = (hcsparams & 0xf) as u8;
    proof {
        let c = cap_dword0;
        let h = hcsparams;
        assert(c & 0xff < 0x100 && (c >> 16) & 0xffff < 0x1_0000 && h & 0xf < 0x10)
            by (bit_vector);
    }
    (caplength, hciversion, num_ports)
}

} // verus!
