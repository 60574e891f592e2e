//! Port classification, full enumeration and cleanup ordering against the
//! simulated register model.

use crabefi::ehci::{EhciController, CMD_START};
use crabefi::ehci_hw::{EhciHw, DevResponse, PortState, HwOp, OpReg, WaitCond};
use crabefi::pci::PciAddress;

fn pci() -> PciAddress {
    PciAddress { bus: 0, device: 2, function: 0 }
}

fn port(connected: bool, k_state: bool, high_speed: bool) -> PortState {
    PortState { connected, k_state, high_speed, owner: false, enabled: false, in_reset: false }
}

fn ok_resp(data: Vec<u8>) -> DevResponse {
    DevResponse { completes: true, error_bits: 0, residual: 0, data }
}

fn config_bytes() -> Vec<u8> {
    let mut cfg = vec![9u8, 2, 32, 0, 1, 1, 0, 0x80, 50];
    cfg.extend_from_slice(&[9, 4, 0, 0, 2, 8, 6, 0x50, 0]);
    cfg.extend_from_slice(&[7, 5, 0x81, 2, 0, 2, 0]);
    cfg.extend_from_slice(&[7, 5, 0x02, 2, 0, 2, 0]);
    cfg
}

fn attach_script() -> Vec<DevResponse> {
    vec![
        ok_resp(vec![18, 1, 0, 2, 0, 0, 0, 64]),
        ok_resp(Vec::new()),
        ok_resp(vec![18, 1, 0, 2, 0, 0, 0, 64, 0x34, 0x12, 0x78, 0x56, 1, 0, 0, 0, 0, 1]),
        ok_resp(vec![9, 2, 32, 0, 1, 1, 0, 0x80, 50]),
        ok_resp(config_bytes()),
        ok_resp(Vec::new()),
    ]
}

#[test]
fn port_enable_clear_releases_to_companion() {
    // a connected device that never negotiates high speed: Port-Enable
    // reads clear after reset, so the port-owner bit is set and no device
    // is added
    let hw = EhciHw::new(vec![port(true, false, false)], 4, 0, true, Vec::new());
    let c = EhciController::new(pci(), hw).expect("bring-up");
    assert!(c.hw.ports[0].owner);
    assert!(!c.hw.ports[0].enabled);
    assert!(c.devices.iter().all(|d| d.is_none()));
    assert_eq!(c.find_mass_storage(), None);
}

#[test]
fn k_state_short_circuits_reset() {
    let hw = EhciHw::new(vec![port(true, true, false)], 4, 0, true, Vec::new());
    let c = EhciController::new(pci(), hw).expect("bring-up");
    assert!(c.hw.ports[0].owner);
    assert!(!c.hw.ports[0].enabled);
    assert!(c.devices.iter().all(|d| d.is_none()));
    // the reset pulse was never driven on a K-state port
    assert!(!c
        .hw
        .trace
        .iter()
        .any(|op| matches!(op, HwOp::WritePort(0, 0x100))));
}

#[test]
fn empty_port_is_skipped() {
    let hw = EhciHw::new(vec![port(false, false, false)], 4, 0, true, Vec::new());
    let c = EhciController::new(pci(), hw).expect("bring-up");
    assert!(!c.hw.ports[0].owner);
    assert!(!c.hw.ports[0].enabled);
    assert!(c.devices.iter().all(|d| d.is_none()));
}

#[test]
fn full_enumeration_attaches_mass_storage() {
    // one port reports connected with J-state; after reset Port-Enable
    // reads set; the device answers the whole attach sequence
    let hw = EhciHw::new(vec![port(true, false, true)], 4, 0, true, attach_script());
    let c = EhciController::new(pci(), hw).expect("bring-up");

    assert!(c.hw.ports[0].enabled);
    assert!(!c.hw.ports[0].owner);

    let d = c.devices[0].as_ref().expect("device table slot 0");
    assert_eq!(d.address, 1);
    assert_eq!(d.port, 0);
    assert_eq!(d.ep0_max_packet, 64);
    assert_eq!(d.device_desc.vendor_id, 0x1234);
    assert_eq!(d.device_desc.product_id, 0x5678);
    assert!(d.is_mass_storage);
    assert!(!d.is_hid_keyboard);

    assert_eq!(c.find_mass_storage(), Some(1));
    assert_eq!(c.find_hid_keyboard(), None);
    let (ein, eout) = c.get_bulk_endpoints(1).expect("bulk endpoints");
    assert_eq!(ein.address, 0x81);
    assert_eq!(ein.max_packet_size, 512);
    assert_eq!(eout.address, 0x02);
    assert_eq!(eout.max_packet_size, 512);

    let info = c.get_device_info(1).expect("device info");
    assert_eq!(info.address, 1);
    assert!(info.is_mass_storage);
    assert!(!info.is_hid);
}

#[test]
fn failed_attach_abandons_port_only() {
    // the device answers nothing: the first GET_DESCRIPTOR times out and
    // the port is abandoned without aborting the pass
    let ports = vec![port(true, false, true), port(true, true, false)];
    let hw = EhciHw::new(ports, 4, 0, true, Vec::new());
    let c = EhciController::new(pci(), hw).expect("bring-up");
    assert!(c.devices.iter().all(|d| d.is_none()));
    // the K-state port was still classified
    assert!(c.hw.ports[1].owner);
}

#[test]
fn cleanup_observes_the_mandated_order() {
    let hw = EhciHw::new(vec![port(false, false, false)], 4, 3, true, Vec::new());
    let mut c = EhciController::new(pci(), hw).expect("bring-up");
    let before = c.hw.trace.len();
    c.cleanup();
    let suffix: Vec<HwOp> = c.hw.trace[before..].to_vec();
    let c1 = CMD_START & !0x20;
    let c3 = c1 & !0x01;
    assert_eq!(suffix, vec![
        HwOp::WriteOp(OpReg::UsbCmd, c1),
        HwOp::Waited(WaitCond::AsyncIdle, true),
        HwOp::WriteOp(OpReg::UsbCmd, c1),
        HwOp::Waited(WaitCond::PeriodicIdle, true),
        HwOp::WriteOp(OpReg::UsbCmd, c3),
        HwOp::Waited(WaitCond::Halted, true),
        HwOp::WriteOp(OpReg::ConfigFlag, 0),
    ]);
    assert_eq!(c.hw.configflag, 0);
    assert_eq!(c.hw.cmd & 0x01, 0);
    assert_eq!(c.hw.cmd & 0x20, 0);
}

#[test]
fn no_free_slots_when_addresses_run_out() {
    let hw = EhciHw::new(vec![port(false, false, false)], 4, 0, true, Vec::new());
    let mut c = EhciController::new(pci(), hw).expect("bring-up");
    c.next_address = 128;
    assert_eq!(c.attach_device(0), Err(crabefi::usb::UsbError::NoFreeSlots));
}

#[test]
fn classification_can_find_storage_and_keyboard_together() {
    // one configuration carrying a mass-storage and a keyboard interface
    let mut cfg = vec![9u8, 2, 55, 0, 2, 1, 0, 0x80, 50];
    cfg.extend_from_slice(&[9, 4, 0, 0, 2, 8, 6, 0x50, 0]);
    cfg.extend_from_slice(&[7, 5, 0x81, 2, 0, 2, 0]);
    cfg.extend_from_slice(&[7, 5, 0x02, 2, 0, 2, 0]);
    cfg.extend_from_slice(&[9, 4, 1, 0, 1, 3, 1, 1, 0]);
    cfg.extend_from_slice(&[7, 5, 0x83, 3, 8, 0, 10]);
    let total = cfg.len() as u8;
    cfg[2] = total;
    let script = vec![
        ok_resp(vec![18, 1, 0, 2, 0, 0, 0, 64]),
        ok_resp(Vec::new()),
        ok_resp(vec![18, 1, 0, 2, 0, 0, 0, 64, 0x34, 0x12, 0x78, 0x56, 1, 0, 0, 0, 0, 1]),
        ok_resp(vec![9, 2, total, 0, 2, 1, 0, 0x80, 50]),
        ok_resp(cfg),
        ok_resp(Vec::new()),
    ];
    let hw = EhciHw::new(vec![port(true, false, true)], 4, 0, true, script);
    let c = EhciController::new(pci(), hw).expect("bring-up");
    assert_eq!(c.find_mass_storage(), Some(1));
    assert_eq!(c.find_hid_keyboard(), Some(1));
    let iin = c.get_interrupt_endpoint(1).expect("interrupt endpoint");
    assert_eq!(iin.address, 0x83);
    assert!(c.get_bulk_endpoints(1).is_some());
}

#[test]
fn slow_settling_hardware_still_enumerates() {
    // status settles three polls after each command write
    let hw = EhciHw::new(vec![port(true, false, true)], 4, 3, true, attach_script());
    let c = EhciController::new(pci(), hw).expect("bring-up");
    assert_eq!(c.find_mass_storage(), Some(1));
    assert_eq!(c.hw.cmd, CMD_START);
}

#[test]
fn cleanup_order_holds_even_when_waits_run_out() {
    // the model settles far slower than any wait budget
    let hw = EhciHw::new(vec![port(false, false, false)], 4, 500, true, Vec::new());
    let mut c = EhciController::new(pci(), hw).expect("bring-up");
    let before = c.hw.trace.len();
    c.cleanup();
    let suffix = &c.hw.trace[before..];
    assert_eq!(suffix.len(), 7);
    let c1 = CMD_START & !0x20;
    let c3 = c1 & !0x01;
    assert_eq!(suffix[0], HwOp::WriteOp(OpReg::UsbCmd, c1));
    assert!(matches!(suffix[1], HwOp::Waited(WaitCond::AsyncIdle, _)));
    assert_eq!(suffix[2], HwOp::WriteOp(OpReg::UsbCmd, c1));
    assert!(matches!(suffix[3], HwOp::Waited(WaitCond::PeriodicIdle, _)));
    assert_eq!(suffix[4], HwOp::WriteOp(OpReg::UsbCmd, c3));
    assert!(matches!(suffix[5], HwOp::Waited(WaitCond::Halted, _)));
    assert_eq!(suffix[6], HwOp::WriteOp(OpReg::ConfigFlag, 0));
    // the configured flag still ends up clear, ports with the companions
    assert_eq!(c.hw.configflag, 0);
}
