//! Transfer-engine behaviour against the simulated register/memory model.

use crabefi::ehci::{EhciController, PERIODIC_LIST_BASE, CMD_START};
use crabefi::ehci_hw::{EhciHw, DevResponse, PortState, HwOp, OpReg, WaitCond};
use crabefi::pci::PciAddress;
use crabefi::usb::UsbError;

fn pci() -> PciAddress {
    PciAddress { bus: 0, device: 2, function: 0 }
}

fn hs_port() -> PortState {
    PortState {
        connected: true,
        k_state: false,
        high_speed: true,
        owner: false,
        enabled: false,
        in_reset: false,
    }
}

fn ok_resp(data: Vec<u8>) -> DevResponse {
    DevResponse { completes: true, error_bits: 0, residual: 0, data }
}

fn config_bytes() -> Vec<u8> {
    let mut cfg = vec![9u8, 2, 32, 0, 1, 1, 0, 0x80, 50];
    cfg.extend_from_slice(&[9, 4, 0, 0, 2, 8, 6, 0x50, 0]);
    cfg.extend_from_slice(&[7, 5, 0x81, 2, 0, 2, 0]);
    cfg.extend_from_slice(&[7, 5, 0x02, 2, 0, 2, 0]);
    cfg
}

/// The six scripted answers a full mass-storage attach consumes.
fn attach_script() -> Vec<DevResponse> {
    vec![
        ok_resp(vec![18, 1, 0, 2, 0, 0, 0, 64]),
        ok_resp(Vec::new()),
        ok_resp(vec![18, 1, 0, 2, 0, 0, 0, 64, 0x34, 0x12, 0x78, 0x56, 1, 0, 0, 0, 0, 1]),
        ok_resp(vec![9, 2, 32, 0, 1, 1, 0, 0x80, 50]),
        ok_resp(config_bytes()),
        ok_resp(Vec::new()),
    ]
}

fn enumerated_controller(extra: Vec<DevResponse>) -> EhciController {
    let mut script = attach_script();
    script.extend(extra);
    let hw = EhciHw::new(vec![hs_port()], 4, 0, true, script);
    EhciController::new(pci(), hw).expect("bring-up")
}

#[test]
fn control_transfer_round_trip() {
    let payload: Vec<u8> = (100..118).collect();
    let c = enumerated_controller(vec![ok_resp(payload.clone())]);
    let mut c = c;
    let mut buf = vec![0u8; 18];
    let r = c.control_transfer(1, 0x80, 6, 0x100, 0, &mut buf);
    assert_eq!(r, Ok(18));
    assert_eq!(buf, payload);
}

#[test]
fn control_transfer_short_read() {
    let mut c = enumerated_controller(vec![DevResponse {
        completes: true,
        error_bits: 0,
        residual: 6,
        data: vec![1, 2, 3, 4],
    }]);
    let mut buf = vec![0xffu8; 10];
    let r = c.control_transfer(1, 0x80, 6, 0x100, 0, &mut buf);
    assert_eq!(r, Ok(4));
    // delivered bytes: the device's answer padded with zeros; tail untouched
    assert_eq!(buf, vec![1, 2, 3, 4, 0xff, 0xff, 0xff, 0xff, 0xff, 0xff]);
}

#[test]
fn control_transfer_unknown_device() {
    let mut c = enumerated_controller(Vec::new());
    let mut buf = vec![0u8; 8];
    let r = c.control_transfer(55, 0x80, 6, 0x100, 0, &mut buf);
    assert_eq!(r, Err(UsbError::DeviceNotFound));
}

#[test]
fn control_transfer_timeout_resets_once() {
    // the device never answers the transfer: the STATUS stage stays active
    let mut c = enumerated_controller(vec![DevResponse {
        completes: false,
        error_bits: 0,
        residual: 0,
        data: Vec::new(),
    }]);
    let before = c
        .hw
        .trace
        .iter()
        .filter(|op| matches!(op, HwOp::ResetRequest))
        .count();
    assert_eq!(before, 0);
    let mut buf = vec![0u8; 18];
    let r = c.control_transfer(1, 0x80, 6, 0x100, 0, &mut buf);
    assert_eq!(r, Err(UsbError::Timeout));
    let resets = c
        .hw
        .trace
        .iter()
        .filter(|op| matches!(op, HwOp::ResetRequest))
        .count();
    assert_eq!(resets, 1);
}

#[test]
fn stall_maps_to_stall_not_transaction_error() {
    // halted bit set, no other error bits
    let mut c = enumerated_controller(vec![DevResponse {
        completes: true,
        error_bits: 0x40,
        residual: 0,
        data: Vec::new(),
    }]);
    let mut buf = vec![0u8; 8];
    let r = c.control_transfer(1, 0x80, 6, 0x100, 0, &mut buf);
    assert_eq!(r, Err(UsbError::Stall));
}

#[test]
fn other_error_bits_map_to_transaction_error() {
    // a transaction error without the halted bit
    let mut c = enumerated_controller(vec![DevResponse {
        completes: true,
        error_bits: 0x08,
        residual: 0,
        data: Vec::new(),
    }]);
    let mut buf = vec![0u8; 8];
    let r = c.control_transfer(1, 0x80, 6, 0x100, 0, &mut buf);
    assert_eq!(r, Err(UsbError::TransactionError));
}

#[test]
fn bulk_toggle_follows_completed_token() {
    let mut c = enumerated_controller(vec![ok_resp(vec![5, 6, 7, 8]), ok_resp(vec![9, 10])]);
    let d0 = c.devices[0].as_ref().expect("slot 0");
    assert_eq!(d0.bulk_in_toggle, false);

    let mut buf = vec![0u8; 4];
    assert_eq!(c.bulk_transfer(1, 0x81, true, &mut buf), Ok(4));
    assert_eq!(buf, vec![5, 6, 7, 8]);
    let stored1 = c.devices[0].as_ref().unwrap().bulk_in_toggle;
    let completed1 = c.hw.qtds[0].token & 0x8000_0000 != 0;
    // the stored toggle is what the completed token reported, and it
    // advanced past the transfer that used toggle 0
    assert_eq!(stored1, completed1);
    assert_eq!(stored1, true);

    let mut buf2 = vec![0u8; 2];
    assert_eq!(c.bulk_transfer(1, 0x81, true, &mut buf2), Ok(2));
    assert_eq!(buf2, vec![9, 10]);
    let stored2 = c.devices[0].as_ref().unwrap().bulk_in_toggle;
    let completed2 = c.hw.qtds[0].token & 0x8000_0000 != 0;
    assert_eq!(stored2, completed2);
    assert_eq!(stored2, false);
    assert_ne!(stored2, stored1);
}

#[test]
fn bulk_error_leaves_toggle_unchanged() {
    let mut c = enumerated_controller(vec![DevResponse {
        completes: true,
        error_bits: 0x40,
        residual: 0,
        data: Vec::new(),
    }]);
    let mut buf = vec![0u8; 4];
    assert_eq!(c.bulk_transfer(1, 0x81, true, &mut buf), Err(UsbError::Stall));
    assert_eq!(c.devices[0].as_ref().unwrap().bulk_in_toggle, false);
}

#[test]
fn bulk_without_endpoint_is_invalid_parameter() {
    let mut c = enumerated_controller(Vec::new());
    // the enumerated device stores no interrupt-style endpoint for OUT on
    // a keyboard; here: strip the endpoint record first
    if let Some(d) = c.devices[0].as_mut() {
        d.bulk_out = None;
    }
    let mut buf = vec![0u8; 4];
    assert_eq!(c.bulk_transfer(1, 0x02, false, &mut buf), Err(UsbError::InvalidParameter));
}

#[test]
fn interrupt_queue_contract_is_not_ready() {
    let mut c = enumerated_controller(Vec::new());
    assert_eq!(c.create_interrupt_queue(1, 0x81, true, 8, 10), Err(UsbError::NotReady));
    let mut buf = vec![0u8; 8];
    assert_eq!(c.poll_interrupt_queue(0, &mut buf), None);
    c.destroy_interrupt_queue(0);
}

#[test]
fn bring_up_programs_lists_and_claims_ports() {
    let c = enumerated_controller(Vec::new());
    assert_eq!(c.hw.cmd, CMD_START);
    assert_eq!(c.hw.configflag, 1);
    assert_eq!(c.hw.async_base, 0x1000);
    assert_eq!(c.hw.periodic_base, PERIODIC_LIST_BASE);
    assert_eq!(c.hw.intr, 0);
    // the inert periodic frame list: 1024 terminated entries
    assert_eq!(c.hw.periodic.len(), 1024);
    assert!(c.hw.periodic.iter().all(|e| *e == 1));
    // the permanent head: self-referential, reclamation flag, overlay
    // terminated
    assert_eq!(c.hw.qhs[0].horiz_link_ptr, 0x1002);
    assert_eq!(c.hw.qhs[0].overlay.next_qtd, 1);
    assert_eq!(c.hw.qhs[0].overlay.alt_qtd, 1);
    assert_eq!(c.hw.qhs[0].overlay.token, 0);
}

#[test]
fn dead_controller_reset_is_fatal() {
    let hw = EhciHw::new(vec![hs_port()], 4, 0, false, Vec::new());
    match EhciController::new(pci(), hw) {
        Err(UsbError::Timeout) => {},
        other => panic!("expected a fatal timeout, got {:?}", other.is_ok()),
    }
}

#[test]
fn doorbell_is_rung_for_each_transfer() {
    let mut c = enumerated_controller(vec![ok_resp(Vec::new())]);
    let waits_before = c
        .hw
        .trace
        .iter()
        .filter(|op| matches!(op, HwOp::Waited(WaitCond::DoorbellAck, _)))
        .count();
    let mut buf = Vec::new();
    let _ = c.control_transfer(1, 0x00, 9, 1, 0, &mut buf);
    let waits_after = c
        .hw
        .trace
        .iter()
        .filter(|op| matches!(op, HwOp::Waited(WaitCond::DoorbellAck, _)))
        .count();
    assert_eq!(waits_after, waits_before + 1);
    assert!(c
        .hw
        .trace
        .iter()
        .any(|op| matches!(op, HwOp::WriteOp(OpReg::UsbSts, 0x20))));
}

#[test]
fn bulk_out_short_write_reports_actual_bytes() {
    let mut c = enumerated_controller(vec![DevResponse {
        completes: true,
        error_bits: 0,
        residual: 2,
        data: Vec::new(),
    }]);
    let mut buf = vec![1u8, 2, 3, 4, 5, 6];
    let r = c.bulk_transfer(1, 0x02, false, &mut buf);
    assert_eq!(r, Ok(4));
    // an OUT transfer never touches the caller's buffer
    assert_eq!(buf, vec![1, 2, 3, 4, 5, 6]);
    // a clean completion still advances the OUT toggle
    assert_eq!(c.devices[0].as_ref().unwrap().bulk_out_toggle, true);
    assert_eq!(c.devices[0].as_ref().unwrap().bulk_in_toggle, false);
}

#[test]
fn control_out_stages_and_succeeds() {
    let mut c = enumerated_controller(vec![ok_resp(Vec::new())]);
    let mut buf = vec![0xa5u8; 7];
    let r = c.control_transfer(1, 0x00, 0x09, 2, 0, &mut buf);
    assert_eq!(r, Ok(7));
    assert_eq!(buf, vec![0xa5; 7]);
    // the payload was staged into the model's data area
    assert_eq!(&c.hw.data[64..71], &[0xa5; 7]);
}
