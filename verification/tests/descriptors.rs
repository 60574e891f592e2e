//! Bit-exact behaviour of the hardware descriptor builders.

use crabefi::ehci_desc::{QueueHead, QueueTransferDescriptor};
use crabefi::usb::UsbSpeed;

#[test]
fn queue_head_encodes_endpoint_characteristics() {
    let qh = QueueHead::new(3, 2, 512, UsbSpeed::High, false);
    // address 3, endpoint 2 at bit 8, high speed (2) at bit 12, max packet
    // 512 at bit 16
    assert_eq!(qh.ep_chars, 3 | (2 << 8) | (2 << 12) | (512 << 16));
    assert_eq!(qh.horiz_link_ptr, 1);
    assert_eq!(qh.overlay.next_qtd, 1);
    assert_eq!(qh.overlay.alt_qtd, 1);
    assert_eq!(qh.overlay.token, 0);
}

#[test]
fn queue_head_control_endpoint_flags() {
    // a high-speed control endpoint gets data-toggle control only
    let qh = QueueHead::new(0, 0, 64, UsbSpeed::High, true);
    assert_eq!(qh.ep_chars & 0x4000, 0x4000);
    assert_eq!(qh.ep_chars & 0x0800_0000, 0);

    // a full-speed control endpoint additionally gets the control flag
    let qh = QueueHead::new(1, 0, 8, UsbSpeed::Full, true);
    assert_eq!(qh.ep_chars & 0x4000, 0x4000);
    assert_eq!(qh.ep_chars & 0x0800_0000, 0x0800_0000);
    assert_eq!((qh.ep_chars >> 12) & 3, 0);

    // low speed encodes as 1
    let qh = QueueHead::new(1, 0, 8, UsbSpeed::Low, false);
    assert_eq!((qh.ep_chars >> 12) & 3, 1);
}

#[test]
fn setup_qtd_token() {
    let q = QueueTransferDescriptor::setup(0x4000, false);
    // PID=SETUP, active, CERR=3, 8 bytes, toggle 0
    assert_eq!(q.token, 0x200 | 0x80 | 0xc00 | (8 << 16));
    assert_eq!(q.buffer_ptrs[0], 0x4000);
    assert_eq!(q.next_qtd, 1);
    assert!(!q.is_complete());
    assert!(!q.has_error());
}

#[test]
fn data_qtd_token_and_pages() {
    let q = QueueTransferDescriptor::data(0x4040, 18, true, true);
    // PID=IN, active, CERR=3, 18 bytes, toggle 1
    assert_eq!(q.token, 0x100 | 0x80 | 0xc00 | (18 << 16) | 0x8000_0000);
    assert_eq!(q.buffer_ptrs[0], 0x4040);
    assert_eq!(q.buffer_ptrs[1], 0);

    // a transfer crossing a page boundary fills a second page pointer
    let q = QueueTransferDescriptor::data(0x4fc0, 0x100, false, false);
    assert_eq!(q.token, 0x80 | 0xc00 | (0x100 << 16));
    assert_eq!(q.buffer_ptrs[0], 0x4fc0);
    assert_eq!(q.buffer_ptrs[1], 0x5000);
    assert_eq!(q.buffer_ptrs[2], 0);
}

#[test]
fn status_qtd_token() {
    let q = QueueTransferDescriptor::status(true);
    // PID=IN, active, CERR=3, zero bytes, IOC, toggle 1
    assert_eq!(q.token, 0x100 | 0x80 | 0xc00 | 0x8000 | 0x8000_0000);
    let q = QueueTransferDescriptor::status(false);
    assert_eq!(q.token, 0x80 | 0xc00 | 0x8000 | 0x8000_0000);
}

#[test]
fn token_inspectors() {
    let mut q = QueueTransferDescriptor::data(0x4040, 100, true, false);
    assert!(!q.is_complete());
    // the hardware clears active and leaves a residual of 40 bytes
    q.token = (q.token & !0x80) & !(0x7fff << 16) | (40 << 16);
    assert!(q.is_complete());
    assert_eq!(q.bytes_transferred(100), 60);
    // a residual larger than the request floors at zero
    q.token = q.token & !(0x7fff << 16) | (200 << 16);
    assert_eq!(q.bytes_transferred(100), 0);

    q.token |= 0x40;
    assert!(q.has_error());
}
