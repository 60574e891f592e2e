//! EHCI hardware descriptors: Queue Heads and Queue Transfer Descriptors.
//!
//! The field layouts and bit positions follow the EHCI specification and are
//! normative: the spec-level extractors below name each field once, and every
//! builder's contract is stated through them.

use vstd::prelude::*;
use crate::usb::UsbSpeed;

verus! {

// ---------------------------------------------------------------------------
// Link pointers (QH horizontal links and qTD next/alternate pointers)
// ---------------------------------------------------------------------------

/// Terminate bit: the link points nowhere.
pub const LINK_TERMINATE: u32 = 1;
/// Type tag for a link that points at a Queue Head.
pub const LINK_TYPE_QH: u32 = 2;

/// A link pointer's terminate bit.
pub open spec fn link_terminates(w: u32) -> bool {
    w & 1 != 0
}

/// The 32-byte-aligned address carried by a link pointer.
pub open spec fn link_address(w: u32) -> u32 {
    w & 0xffff_ffe0
}

/// The descriptor-type tag of a link pointer (1 = QH).
pub open spec fn link_kind(w: u32) -> u32 {
    (w >> 1) & 3
}

// ---------------------------------------------------------------------------
// qTD token fields
// ---------------------------------------------------------------------------

pub const PID_OUT: u32 = 0;
pub const PID_IN: u32 = 0x100;
pub const PID_SETUP: u32 = 0x200;

pub const TOKEN_ACTIVE: u32 = 0x80;
pub const TOKEN_HALTED: u32 = 0x40;
pub const TOKEN_DATA_BUFFER_ERROR: u32 = 0x20;
pub const TOKEN_BABBLE: u32 = 0x10;
pub const TOKEN_XACT_ERROR: u32 = 0x08;
pub const TOKEN_MISSED_UFRAME: u32 = 0x04;
pub const TOKEN_SPLIT_STATE: u32 = 0x02;
pub const TOKEN_PING_STATE: u32 = 0x01;
/// Error counter field set to its maximum of three retries.
pub const TOKEN_CERR_3: u32 = 0xc00;
pub const TOKEN_IOC: u32 = 0x8000;
pub const TOKEN_TOGGLE: u32 = 0x8000_0000;
pub const TOKEN_ERROR_MASK: u32 = 0x78;

/// The transfer stage is still owned by the hardware.
pub open spec fn tok_active(t: u32) -> bool {
    t & 0x80 != 0
}

/// The endpoint halted (STALL or fatal error).
pub open spec fn tok_halted(t: u32) -> bool {
    t & 0x40 != 0
}

/// Any error bit (halted, data buffer error, babble, transaction error).
pub open spec fn tok_any_error(t: u32) -> bool {
    t & 0x78 != 0
}

/// PID code field (bits 8..10): 0 = OUT, 1 = IN, 2 = SETUP.
pub open spec fn tok_pid(t: u32) -> u32 {
    (t >> 8) & 3
}

/// Error counter field (bits 10..12).
pub open spec fn tok_cerr(t: u32) -> u32 {
    (t >> 10) & 3
}

/// Interrupt-on-Complete bit.
pub open spec fn tok_ioc(t: u32) -> bool {
    t & 0x8000 != 0
}

/// Total bytes to transfer (bits 16..31), counts down as the hardware moves data.
pub open spec fn tok_total_bytes(t: u32) -> u32 {
    (t >> 16) & 0x7fff
}

/// Data toggle bit (bit 31).
pub open spec fn tok_toggle(t: u32) -> bool {
    t & 0x8000_0000 != 0
}

// ---------------------------------------------------------------------------
// QH endpoint-characteristics fields
// ---------------------------------------------------------------------------

/// Device address field (bits 0..7).
pub open spec fn qh_device_address(w: u32) -> u32 {
    w & 0x7f
}

/// Endpoint number field (bits 8..12).
pub open spec fn qh_endpoint(w: u32) -> u32 {
    (w >> 8) & 0xf
}

/// Endpoint speed field (bits 12..14): 0 = full, 1 = low, 2 = high.
pub open spec fn qh_eps(w: u32) -> u32 {
    (w >> 12) & 3
}

/// Data-Toggle-Control bit: take the toggle from each qTD, not the overlay.
pub open spec fn qh_dtc(w: u32) -> bool {
    w & 0x4000 != 0
}

/// Head-of-Reclamation-List flag: marks the permanent head QH.
pub open spec fn qh_reclamation_head(w: u32) -> bool {
    w & 0x8000 != 0
}

/// Maximum packet length field (bits 16..27).
pub open spec fn qh_max_packet(w: u32) -> u32 {
    (w >> 16) & 0x7ff
}

/// Control-endpoint flag (bit 27), set for full/low-speed control endpoints.
pub open spec fn qh_control_ep_flag(w: u32) -> bool {
    w & 0x0800_0000 != 0
}

/// The EHCI encoding of a device speed in the QH endpoint-characteristics.
pub open spec fn speed_code(s: UsbSpeed) -> u32 {
    match s {
        UsbSpeed::Full => 0u32,
        UsbSpeed::Low => 1u32,
        UsbSpeed::High => 2u32,
    }
}

/// The exact endpoint-characteristics word of a transfer QH: address in
/// bits 0..7, endpoint in 8..12, speed in 12..14, data-toggle control at
/// 14, max packet in 16..27, control-endpoint flag at 27; all other bits
/// zero.
pub open spec fn spec_qh_ep_chars(device_addr: u8, endpoint: u8, max_packet: u16,
    speed: UsbSpeed, is_control: bool) -> u32 {
    ((device_addr as u32) & 0x7f) | (((endpoint as u32) & 0xf) << 8) | (match speed {
        UsbSpeed::Low => 0x1000u32,
        UsbSpeed::Full => 0u32,
        UsbSpeed::High => 0x2000u32,
    }) | (((max_packet as u32) & 0x7ff) << 16) | (if is_control && speed != UsbSpeed::High {
        0x0800_0000u32
    } else {
        0u32
    }) | (if is_control {
        0x4000u32
    } else {
        0u32
    })
}

// ---------------------------------------------------------------------------
// Queue Transfer Descriptor
// ---------------------------------------------------------------------------

/// Queue (Element) Transfer Descriptor: one DMA transfer stage.
#[derive(Clone, Copy, Debug)]
pub struct QueueTransferDescriptor {
    /// Next qTD Pointer.
    pub next_qtd: u32,
    /// Alternate Next qTD Pointer.
    pub alt_qtd: u32,
    /// Token: PID, status bits, byte count, toggle.
    pub token: u32,
    /// Buffer pointers, one per page crossed (5 pages max).
    pub buffer_ptrs: [u32; 5],
    /// Extended buffer pointers (64-bit addressing, unused here).
    pub ext_buffer_ptrs: [u32; 5],
}

/// Byte offset into a transfer already covered by the buffer pages before
/// page `i`: the partial first page, then whole pages.
pub open spec fn qtd_page_start(buffer: u32, i: int) -> int {
    if i <= 0 {
        0
    } else {
        0x1000 * i - (buffer & 0xfff)
    }
}

/// What the page-pointer array of a data qTD must hold: pointer `i` covers
/// the transfer from offset `qtd_page_start(buffer, i)` on, and is zero once
/// the transfer is exhausted.
pub open spec fn qtd_buffer_ptrs_ok(ptrs: Seq<u32>, buffer: u32, length: int) -> bool {
    forall|i: int| 0 <= i < 5 ==> ptrs[i] == (if qtd_page_start(buffer, i) < length {
        (buffer + qtd_page_start(buffer, i)) as u32
    } else {
        0u32
    })
}

impl Default for QueueTransferDescriptor {
    /// An all-zero descriptor.
    fn default() -> (r: Self)
        ensures
            r.next_qtd == 0,
            r.alt_qtd == 0,
            r.token == 0,
            r.buffer_ptrs@ =~= seq![0u32, 0u32, 0u32, 0u32, 0u32],
            r.ext_buffer_ptrs@ =~= seq![0u32, 0u32, 0u32, 0u32, 0u32],
    {
        QueueTransferDescriptor {
            next_qtd: 0,
            alt_qtd: 0,
            token: 0,
            buffer_ptrs: [0, 0, 0, 0, 0],
            ext_buffer_ptrs: [0, 0, 0, 0, 0],
        }
    }
}

impl QueueTransferDescriptor {
    /// Build a SETUP-stage qTD: PID = SETUP, active, error counter 3, eight
    /// bytes, pointing at the request packet staged at `packet_addr`.
    pub fn setup(packet_addr: u32, data_toggle: bool) -> (r: Self)
        ensures
            r.next_qtd == LINK_TERMINATE,
            r.alt_qtd == LINK_TERMINATE,
            tok_pid(r.token) == 2,
            tok_active(r.token),
            !tok_any_error(r.token),
            tok_cerr(r.token) == 3,
            tok_total_bytes(r.token) == 8,
            tok_toggle(r.token) == data_toggle,
            !tok_ioc(r.token),
            r.token == (if data_toggle {
                (PID_SETUP | TOKEN_ACTIVE | TOKEN_CERR_3 | 0x0008_0000) | TOKEN_TOGGLE
            } else {
                PID_SETUP | TOKEN_ACTIVE | TOKEN_CERR_3 | 0x0008_0000
            }),
            r.buffer_ptrs[0] == packet_addr,
            forall|i: int| 1 <= i < 5 ==> r.buffer_ptrs[i] == 0,
            forall|i: int| 0 <= i < 5 ==> r.ext_buffer_ptrs[i] == 0,
    {
        let mut qtd = Self::default();
        qtd.next_qtd = LINK_TERMINATE;
        qtd.alt_qtd = LINK_TERMINATE;
        let mut token: u32 = PID_SETUP | TOKEN_ACTIVE | TOKEN_CERR_3 | 0x0008_0000;
        if data_toggle {
            token = token | TOKEN_TOGGLE;
        }
        proof {
            assert({
                let t = 0x200u32 | 0x80 | 0xc00 | 0x0008_0000;
                let u = t | 0x8000_0000;
                (t >> 8) & 3 == 2 && t & 0x80 != 0 && t & 0x78 == 0 && (t >> 10) & 3 == 3
                    && (t >> 16) & 0x7fff == 8 && t & 0x8000_0000 == 0 && t & 0x8000 == 0
                    && (u >> 8) & 3 == 2 && u & 0x80 != 0 && u & 0x78 == 0 && (u >> 10) & 3 == 3
                    && (u >> 16) & 0x7fff == 8 && u & 0x8000_0000 != 0 && u & 0x8000 == 0
            }) by (bit_vector);
        }
        qtd.token = token;
        qtd.buffer_ptrs[0] = packet_addr;
        qtd
    }

    /// Build a DATA-stage qTD over `length` bytes staged at `buffer`:
    /// PID from the direction flag, active, error counter 3, page pointers
    /// spanning the buffer.
    pub fn data(buffer: u32, length: usize, is_in: bool, data_toggle: bool) -> (r: Self)
        requires
            buffer + length < 0x1_0000_0000,
            length <= 0x5000 - (buffer & 0xfff),
        ensures
            r.next_qtd == LINK_TERMINATE,
            r.alt_qtd == LINK_TERMINATE,
            tok_pid(r.token) == (if is_in { 1u32 } else { 0u32 }),
            tok_active(r.token),
            !tok_any_error(r.token),
            tok_cerr(r.token) == 3,
            tok_total_bytes(r.token) == length,
            tok_toggle(r.token) == data_toggle,
            !tok_ioc(r.token),
            r.token == (if data_toggle {
                ((if is_in { PID_IN } else { PID_OUT }) | TOKEN_ACTIVE | TOKEN_CERR_3
                    | ((length as u32) << 16)) | TOKEN_TOGGLE
            } else {
                (if is_in { PID_IN } else { PID_OUT }) | TOKEN_ACTIVE | TOKEN_CERR_3
                    | ((length as u32) << 16)
            }),
            qtd_buffer_ptrs_ok(r.buffer_ptrs@, buffer, length as int),
            forall|i: int| 0 <= i < 5 ==> r.ext_buffer_ptrs[i] == 0,
    {
        proof {
            assert(buffer & 0xfff < 0x1000) by (bit_vector);
        }
        let mut qtd = Self::default();
        qtd.next_qtd = LINK_TERMINATE;
        qtd.alt_qtd = LINK_TERMINATE;
        let pid: u32 = if is_in { PID_IN } else { PID_OUT };
        let len32: u32 = length as u32;
        let mut token: u32 = pid | TOKEN_ACTIVE | TOKEN_CERR_3 | (len32 << 16);
        if data_toggle {
            token = token | TOKEN_TOGGLE;
        }
        proof {
            let l = len32;
            assert(l <= 0x5000 ==> {
                let t0 = 0u32 | 0x80 | 0xc00 | (l << 16);
                let t1 = 0x100u32 | 0x80 | 0xc00 | (l << 16);
                let u0 = t0 | 0x8000_0000;
                let u1 = t1 | 0x8000_0000;
                ((t0 >> 8) & 3 == 0 && t0 & 0x80 != 0 && t0 & 0x78 == 0 && (t0 >> 10) & 3 == 3
                    && (t0 >> 16) & 0x7fff == l && t0 & 0x8000_0000 == 0 && t0 & 0x8000 == 0
                    && (u0 >> 8) & 3 == 0 && u0 & 0x80 != 0 && u0 & 0x78 == 0
                    && (u0 >> 10) & 3 == 3 && (u0 >> 16) & 0x7fff == l
                    && u0 & 0x8000_0000 != 0 && u0 & 0x8000 == 0
                    && (t1 >> 8) & 3 == 1 && t1 & 0x80 != 0 && t1 & 0x78 == 0
                    && (t1 >> 10) & 3 == 3 && (t1 >> 16) & 0x7fff == l
                    && t1 & 0x8000_0000 == 0 && t1 & 0x8000 == 0
                    && (u1 >> 8) & 3 == 1 && u1 & 0x80 != 0 && u1 & 0x78 == 0
                    && (u1 >> 10) & 3 == 3 && (u1 >> 16) & 0x7fff == l
                    && u1 & 0x8000_0000 != 0 && u1 & 0x8000 == 0)
            }) by (bit_vector);
        }
        qtd.token = token;

        // Fill one buffer pointer per page the transfer touches.  The first
        // pointer keeps the buffer's page offset; later pointers are page
        // starts.
        let page_off: u32 = buffer & 0xfff;
        let mut i: usize = 0;
        while i < 5
            invariant
                i <= 5,
                qtd.next_qtd == LINK_TERMINATE,
                qtd.alt_qtd == LINK_TERMINATE,
                qtd.token == token,
                forall|j: int| 0 <= j < 5 ==> qtd.ext_buffer_ptrs[j] == 0,
                page_off == buffer & 0xfff,
                buffer + length < 0x1_0000_0000,
                length <= 0x5000 - page_off,
                page_off < 0x1000,
                forall|j: int| 0 <= j < i ==> qtd.buffer_ptrs@[j] == (
                    if qtd_page_start(buffer, j) < length as int {
                        (buffer + qtd_page_start(buffer, j)) as u32
                    } else {
                        0u32
                    }),
                forall|j: int| i <= j < 5 ==> qtd.buffer_ptrs@[j] == 0u32,
            decreases 5 - i,
        {
            let start: u32 = if i == 0 {
                0
            } else {
                0x1000 * (i as u32) - page_off
            };
            if (start as usize) < length {
                qtd.buffer_ptrs[i] = buffer + start;
            }
            i = i + 1;
        }
        qtd
    }

    /// Build a STATUS-stage qTD: zero-length, toggle 1, Interrupt-on-Complete.
    pub fn status(is_in: bool) -> (r: Self)
        ensures
            r.next_qtd == LINK_TERMINATE,
            r.alt_qtd == LINK_TERMINATE,
            tok_pid(r.token) == (if is_in { 1u32 } else { 0u32 }),
            tok_active(r.token),
            !tok_any_error(r.token),
            tok_cerr(r.token) == 3,
            tok_total_bytes(r.token) == 0,
            tok_toggle(r.token),
            tok_ioc(r.token),
            r.token == (if is_in { PID_IN } else { PID_OUT }) | TOKEN_ACTIVE | TOKEN_CERR_3
                | TOKEN_IOC | TOKEN_TOGGLE,
            forall|i: int| 0 <= i < 5 ==> r.buffer_ptrs[i] == 0,
            forall|i: int| 0 <= i < 5 ==> r.ext_buffer_ptrs[i] == 0,
    {
        let mut qtd = Self::default();
        qtd.next_qtd = LINK_TERMINATE;
        qtd.alt_qtd = LINK_TERMINATE;
        let pid: u32 = if is_in { PID_IN } else { PID_OUT };
        let token: u32 = pid | TOKEN_ACTIVE | TOKEN_CERR_3 | TOKEN_IOC | TOKEN_TOGGLE;
        proof {
            assert({
                let t0 = 0u32 | 0x80 | 0xc00 | 0x8000 | 0x8000_0000;
                let t1 = 0x100u32 | 0x80 | 0xc00 | 0x8000 | 0x8000_0000;
                (t0 >> 8) & 3 == 0 && t0 & 0x80 != 0 && t0 & 0x78 == 0 && (t0 >> 10) & 3 == 3
                    && (t0 >> 16) & 0x7fff == 0 && t0 & 0x8000_0000 != 0 && t0 & 0x8000 != 0
                    && (t1 >> 8) & 3 == 1 && t1 & 0x80 != 0 && t1 & 0x78 == 0
                    && (t1 >> 10) & 3 == 3 && (t1 >> 16) & 0x7fff == 0
                    && t1 & 0x8000_0000 != 0 && t1 & 0x8000 != 0
            }) by (bit_vector);
        }
        qtd.token = token;
        qtd
    }

    /// The hardware has released this stage (active bit clear).
    pub fn is_complete(&self) -> (r: bool)
        ensures
            r == !tok_active(self.token),
    {
        self.token & TOKEN_ACTIVE == 0
    }

    /// Some error bit is set in the token.
    pub fn has_error(&self) -> (r: bool)
        ensures
            r == tok_any_error(self.token),
    {
        self.token & TOKEN_ERROR_MASK != 0
    }

    /// Bytes actually moved: the requested length minus the token's residual
    /// byte count, never below zero.
    pub fn bytes_transferred(&self, original_length: usize) -> (r: usize)
        ensures
            r == spec_bytes_transferred(self.token, original_length as int),
    {
        let remaining: usize = ((self.token >> 16) & 0x7fff) as usize;
        if remaining <= original_length {
            original_length - remaining
        } else {
            0
        }
    }
}

/// Requested length minus the token's residual count, saturating at zero.
pub open spec fn spec_bytes_transferred(token: u32, original_length: int) -> int {
    if tok_total_bytes(token) <= original_length {
        original_length - tok_total_bytes(token)
    } else {
        0
    }
}

// ---------------------------------------------------------------------------
// Queue Head
// ---------------------------------------------------------------------------

/// Hardware-walked async-schedule node for one endpoint.
#[derive(Clone, Copy, Debug)]
pub struct QueueHead {
    /// Horizontal Link Pointer: next QH in the ring, type tag, terminate bit.
    pub horiz_link_ptr: u32,
    /// Endpoint Characteristics: address, endpoint, speed, max packet.
    pub ep_chars: u32,
    /// Endpoint Capabilities: multiplier, split-transaction masks.
    pub ep_caps: u32,
    /// Current qTD Pointer, written by the hardware.
    pub cur_qtd: u32,
    /// Transfer overlay: the hardware's working copy of the current qTD.
    pub overlay: QueueTransferDescriptor,
}

impl Default for QueueHead {
    /// An all-zero Queue Head.
    fn default() -> (r: Self)
        ensures
            r.horiz_link_ptr == 0,
            r.ep_chars == 0,
            r.ep_caps == 0,
            r.cur_qtd == 0,
            r.overlay == (QueueTransferDescriptor {
                next_qtd: 0u32,
                alt_qtd: 0u32,
                token: 0u32,
                buffer_ptrs: [0u32, 0u32, 0u32, 0u32, 0u32],
                ext_buffer_ptrs: [0u32, 0u32, 0u32, 0u32, 0u32],
            }),
    {
        QueueHead {
            horiz_link_ptr: 0,
            ep_chars: 0,
            ep_caps: 0,
            cur_qtd: 0,
            overlay: QueueTransferDescriptor {
                next_qtd: 0,
                alt_qtd: 0,
                token: 0,
                buffer_ptrs: [0, 0, 0, 0, 0],
                ext_buffer_ptrs: [0, 0, 0, 0, 0],
            },
        }
    }
}

impl QueueHead {
    /// Build a Queue Head scoped to one endpoint of one device.
    ///
    /// Control endpoints get Data-Toggle-Control; full/low-speed control
    /// endpoints additionally get the control-endpoint flag, and non-high-
    /// speed endpoints a split-transaction schedule mask.  The horizontal
    /// link and the overlay start out terminated.
    pub fn new(device_addr: u8, endpoint: u8, max_packet: u16, speed: UsbSpeed, is_control: bool)
        -> (r: Self)
        ensures
            r.ep_chars == spec_qh_ep_chars(device_addr, endpoint, max_packet, speed,
                is_control),
            r.ep_caps == (if speed == UsbSpeed::High { 0x4000_0000u32 } else {
                0x4000_001cu32
            }),
            qh_device_address(r.ep_chars) == device_addr & 0x7f,
            qh_endpoint(r.ep_chars) == endpoint & 0xf,
            qh_eps(r.ep_chars) == speed_code(speed),
            qh_dtc(r.ep_chars) == is_control,
            qh_max_packet(r.ep_chars) == max_packet & 0x7ff,
            qh_control_ep_flag(r.ep_chars) == (is_control && speed != UsbSpeed::High),
            !qh_reclamation_head(r.ep_chars),
            r.horiz_link_ptr == LINK_TERMINATE,
            r.overlay.next_qtd == LINK_TERMINATE,
            r.overlay.alt_qtd == LINK_TERMINATE,
            r.overlay.token == 0,
            r.cur_qtd == 0,
    {
        let mut qh = Self::default();

        let addr_bits: u32 = (device_addr as u32) & 0x7f;
        let ep_bits: u32 = ((endpoint as u32) & 0xf) << 8;
        let speed_bits: u32 = match speed {
            UsbSpeed::Low => 0x1000u32,
            UsbSpeed::Full => 0u32,
            UsbSpeed::High => 0x2000u32,
        };
        let mp_bits: u32 = ((max_packet as u32) & 0x7ff) << 16;
        let ctl_bits: u32 = if is_control && !matches!(speed, UsbSpeed::High) {
            0x0800_0000u32
        } else {
            0u32
        };
        let dtc_bits: u32 = if is_control {
            0x4000u32
        } else {
            0u32
        };
        let ep_chars: u32 = addr_bits | ep_bits | speed_bits | mp_bits | ctl_bits | dtc_bits;
        proof {
            let a = device_addr;
            let e = endpoint;
            let m = max_packet;
            let s = speed_bits;
            let c = ctl_bits;
            let d = dtc_bits;
            assert((s == 0 || s == 0x1000 || s == 0x2000) && (c == 0 || c == 0x0800_0000)
                && (d == 0 || d == 0x4000) ==> {
                let w = ((a as u32) & 0x7f) | (((e as u32) & 0xf) << 8) | s
                    | (((m as u32) & 0x7ff) << 16) | c | d;
                (w & 0x7f == (a as u32) & 0x7f && (w >> 8) & 0xf == (e as u32) & 0xf
                    && (w >> 12) & 3 == s >> 12 && (w & 0x4000 != 0) == (d != 0)
                    && (w >> 16) & 0x7ff == (m as u32) & 0x7ff
                    && (w & 0x0800_0000 != 0) == (c != 0) && w & 0x8000 == 0
                    && (a & 0x7f) as u32 == (a as u32) & 0x7f
                    && (e & 0xf) as u32 == (e as u32) & 0xf
                    && (m & 0x7ff) as u32 == (m as u32) & 0x7ff
                    && 0u32 >> 12 == 0 && 0x1000u32 >> 12 == 1 && 0x2000u32 >> 12 == 2)
            }) by (bit_vector);
        }
        qh.ep_chars = ep_chars;

        // Endpoint capabilities: high-bandwidth multiplier 1; a microframe
        // schedule mask for endpoints reached through split transactions.
        let mut ep_caps: u32 = 0x4000_0000u32;
        if !matches!(speed, UsbSpeed::High) {
            ep_caps = ep_caps | 0x1c;
            proof {
                assert(0x4000_0000u32 | 0x1c == 0x4000_001c) by (bit_vector);
            }
        }
        qh.ep_caps = ep_caps;

        qh.horiz_link_ptr = LINK_TERMINATE;
        qh.overlay.next_qtd = LINK_TERMINATE;
        qh.overlay.alt_qtd = LINK_TERMINATE;
        qh.overlay.token = 0;

        qh
    }
}

} // verus!
