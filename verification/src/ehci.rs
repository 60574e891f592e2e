//! The EHCI host controller: device table, transfer engines, port
//! enumeration and lifecycle, all driven against the register/memory model
//! of `ehci_hw`.

use vstd::prelude::*;
use crate::pci::PciAddress;
use crate::usb::{UsbError, UsbSpeed, DeviceDescriptor, ConfigurationInfo, EndpointInfo,
    spec_find_bulk_in, spec_find_bulk_out, spec_find_interrupt_in, iface_is_mass_storage,
    iface_is_hid_keyboard, build_setup_packet, parse_configuration, spec_config_value,
    spec_parse_interfaces, spec_setup_packet, REQ_DIR_IN, REQ_DIR_OUT,
    REQ_TYPE_STANDARD, REQ_RCPT_DEVICE, REQUEST_GET_DESCRIPTOR, REQUEST_SET_ADDRESS,
    REQUEST_SET_CONFIGURATION, DESC_TYPE_DEVICE, DESC_TYPE_CONFIGURATION};
use crate::ehci_desc::{QueueHead, QueueTransferDescriptor, tok_toggle, tok_pid, tok_ioc,
    qh_endpoint, qh_device_address, qh_dtc, qh_max_packet, qh_eps, speed_code,
    link_terminates, TOKEN_ACTIVE, TOKEN_HALTED, TOKEN_IOC};
use crate::ehci_hw::{EhciHw, HwOp, OpReg, WaitCond, DevResponse, PortState, hw_wf, ring_wf,
    count_resets, lemma_count_resets_push, padded, eff_residual, lemma_sts_bits,
    no_port_writes_between, port_writes_only_to, trace_extends, spec_qtd_addr,
    lemma_no_port_writes_trans,
    lemma_port_writes_only_trans, lemma_no_port_writes_weaken, lemma_trace_extends_trans,
    DATA_AREA_BASE};
use crate::ehci_regs::{CMD_RS, CMD_ASE, CMD_PSE};

verus! {

/// Capacity of the device table.
pub const MAX_DEVICES: usize = 8;

/// Poll budgets, one poll standing for one unit of the operation's timeout.
pub const BUDGET_HALT: u32 = 100;
pub const BUDGET_RESET: u32 = 500;
pub const BUDGET_RUN: u32 = 100;
pub const BUDGET_SCHED: u32 = 100;
pub const BUDGET_DOORBELL: u32 = 100;
pub const BUDGET_TRANSFER: u32 = 5000;

/// Offset of the control-request packet in the staging buffer.
pub const SETUP_STAGE_OFF: usize = 0;
/// Offset of the data stage in the staging buffer.
pub const DATA_STAGE_OFF: usize = 64;
/// Largest data stage the staging buffer can hold.
pub const MAX_TRANSFER: usize = 0xf00;

/// One enumerated USB device's record.
#[derive(Clone, Debug)]
pub struct EhciDevice {
    /// Assigned address (1-127); 0 only while the device is being attached.
    pub address: u8,
    /// Root port the device sits on.
    pub port: u8,
    /// Negotiated speed.
    pub speed: UsbSpeed,
    /// The 18-byte device descriptor.
    pub device_desc: DeviceDescriptor,
    /// The parsed configuration.
    pub config_info: ConfigurationInfo,
    /// Some interface is bulk-only mass storage.
    pub is_mass_storage: bool,
    /// Some interface is a boot-protocol keyboard.
    pub is_hid_keyboard: bool,
    /// Bulk IN endpoint of the mass-storage interface.
    pub bulk_in: Option<EndpointInfo>,
    /// Bulk OUT endpoint of the mass-storage interface.
    pub bulk_out: Option<EndpointInfo>,
    /// Interrupt IN endpoint of the keyboard interface.
    pub interrupt_in: Option<EndpointInfo>,
    /// Max packet size of endpoint 0.
    pub ep0_max_packet: u16,
    /// Persisted data toggle of the bulk IN endpoint.
    pub bulk_in_toggle: bool,
    /// Persisted data toggle of the bulk OUT endpoint.
    pub bulk_out_toggle: bool,
}

impl EhciDevice {
    /// A fresh record for a device on `port`: no descriptors yet, toggles
    /// clear, endpoint 0 at the speed's conservative default packet size.
    pub fn new(address: u8, port: u8, speed: UsbSpeed) -> (r: Self)
        ensures
            r.address == address,
            r.port == port,
            r.speed == speed,
            r.is_mass_storage == false,
            r.is_hid_keyboard == false,
            r.bulk_in is None,
            r.bulk_out is None,
            r.interrupt_in is None,
            r.ep0_max_packet == speed.spec_default_max_packet(),
            r.bulk_in_toggle == false,
            r.bulk_out_toggle == false,
            r.config_info.configuration_value == 0,
            r.config_info.interfaces@.len() == 0,
            r.device_desc == crate::usb::spec_zero_device_descriptor(),
    {
        EhciDevice {
            address,
            port,
            speed,
            device_desc: DeviceDescriptor::default(),
            config_info: ConfigurationInfo::default(),
            is_mass_storage: false,
            is_hid_keyboard: false,
            bulk_in: None,
            bulk_out: None,
            interrupt_in: None,
            ep0_max_packet: speed.default_max_packet_size(),
            bulk_in_toggle: false,
            bulk_out_toggle: false,
        }
    }
}

/// Summary of one device, as handed to the boot-device search.
#[derive(Clone, Copy, Debug, PartialEq, Eq, Structural)]
pub struct DeviceInfo {
    pub address: u8,
    pub speed: UsbSpeed,
    pub vendor_id: u16,
    pub product_id: u16,
    pub device_class: u8,
    pub is_mass_storage: bool,
    pub is_hid: bool,
    pub is_keyboard: bool,
}

/// Slot `j` of the table holds a device with this address.
pub open spec fn slot_has_addr(s: Seq<Option<EhciDevice>>, j: int, address: u8) -> bool {
    s[j] is Some && s[j]->Some_0.address == address
}

/// Slot `j` is the first holding a device with this address.
pub open spec fn first_slot_with_addr(s: Seq<Option<EhciDevice>>, j: int, address: u8)
    -> bool {
    slot_has_addr(s, j, address) && (forall|k: int| 0 <= k < j ==> !slot_has_addr(s, k,
        address))
}

/// The outcome a transfer submitted against the given script will have:
/// no (completing) response means the active bit never clears; a halted
/// completion is a STALL; any other error bit is a transaction error.
pub ghost enum XferOutcome {
    TimedOut,
    Stalled,
    Failed,
    Done,
}

pub open spec fn xfer_outcome(script: Seq<DevResponse>) -> XferOutcome {
    if script.len() == 0 || !script[0].completes {
        XferOutcome::TimedOut
    } else if script[0].error_bits & 0x40 != 0 {
        XferOutcome::Stalled
    } else if script[0].error_bits & 0x78 != 0 {
        XferOutcome::Failed
    } else {
        XferOutcome::Done
    }
}

/// The script once one submission has consumed its front.
pub open spec fn script_after(script: Seq<DevResponse>) -> Seq<DevResponse> {
    if script.len() == 0 {
        script
    } else {
        script.remove(0)
    }
}

/// The script once `n` submissions have consumed its front.
pub open spec fn script_after_n(script: Seq<DevResponse>, n: int) -> Seq<DevResponse>
    decreases n when n >= 0
{
    if n <= 0 {
        script
    } else {
        script_after(script_after_n(script, n - 1))
    }
}

/// The error a transfer outcome surfaces as.
pub open spec fn spec_err_of(o: XferOutcome) -> UsbError {
    match o {
        XferOutcome::TimedOut => UsbError::Timeout,
        XferOutcome::Stalled => UsbError::Stall,
        XferOutcome::Failed => UsbError::TransactionError,
        XferOutcome::Done => UsbError::Timeout,
    }
}

/// If the first `c` submissions were answered cleanly and submission `c`
/// was not, then `c` is the first failing submission, and its outcome's
/// error is the one the attach sequence surfaces.
pub proof fn lemma_attach_err_attr(s: Seq<DevResponse>, c: int, e: UsbError)
    requires
        0 <= c,
        forall|m: int| 0 <= m < c ==> xfer_outcome(script_after_n(s, m)) is Done,
        !(xfer_outcome(script_after_n(s, c)) is Done),
        e == spec_err_of(xfer_outcome(script_after_n(s, c))),
    ensures
        forall|k: int| (0 <= k < 5
            && (forall|m: int| 0 <= m < k ==> xfer_outcome(script_after_n(s, m)) is Done)
            && !(#[trigger] xfer_outcome(script_after_n(s, k)) is Done))
            ==> Err::<(), UsbError>(e) == Err::<(), UsbError>(spec_err_of(xfer_outcome(
                script_after_n(s, k)))),
{
    assert forall|k: int| (0 <= k < 5
        && (forall|m: int| 0 <= m < k ==> xfer_outcome(script_after_n(s, m)) is Done)
        && !(xfer_outcome(script_after_n(s, k)) is Done))
        implies Err::<(), UsbError>(e) == Err::<(), UsbError>(spec_err_of(xfer_outcome(
            script_after_n(s, k)))) by {
        if k < c {
            assert(xfer_outcome(script_after_n(s, k)) is Done);
        } else if k > c {
            assert(xfer_outcome(script_after_n(s, c)) is Done);
        }
    }
}

/// The max-packet byte the first attach request yields: byte 7 of what the
/// device delivered for the 8-byte descriptor read, zero where the answer
/// fell short.
pub open spec fn attach_ep0_byte(s: Seq<DevResponse>) -> u8 {
    let d = xfer_in_bytes(s, 8);
    if 7 < d && 7 < s[0].data@.len() {
        s[0].data@[7]
    } else {
        0u8
    }
}

/// The endpoint-0 max packet size attach stores: the delivered byte,
/// floored at the eight-byte minimum.
pub open spec fn spec_attach_ep0(s: Seq<DevResponse>) -> u16 {
    if attach_ep0_byte(s) >= 8 {
        attach_ep0_byte(s) as u16
    } else {
        8u16
    }
}

/// The request packets a cleanly-answered attach submits, in order: the
/// 8-byte device-descriptor read at address 0, SET_ADDRESS with the
/// assigned address, the full device-descriptor read, the
/// configuration-descriptor header, the bounded full configuration read,
/// and SET_CONFIGURATION exactly when the parsed configuration value is
/// non-zero.
pub open spec fn attach_requests(s: Seq<DevResponse>, address: u8) -> Seq<Seq<u8>> {
    let cfg_len = attach_cfg_len(padded(s[3].data@, 9));
    let cfg_value = spec_config_value(padded(s[4].data@, cfg_len), 0);
    let base = seq![
        spec_setup_packet(0x80, 6, 0x100, 0, 8),
        spec_setup_packet(0x00, 5, address as u16, 0, 0),
        spec_setup_packet(0x80, 6, 0x100, 0, 18),
        spec_setup_packet(0x80, 6, 0x200, 0, 9),
        spec_setup_packet(0x80, 6, 0x200, 0, cfg_len as u16),
    ];
    if cfg_value > 0 {
        base.push(spec_setup_packet(0x00, 9, cfg_value as u16, 0, 0))
    } else {
        base
    }
}

/// Bytes an IN stage of the given length delivers under the script's first
/// response: the length minus the (capped) residual.
pub open spec fn xfer_in_bytes(script: Seq<DevResponse>, len: int) -> int {
    len - eff_residual(script[0].residual, len)
}

/// What a transfer changes outside the transfer machinery itself: nothing.
/// Registers, ports, configuration and arena shape stay as they were.
pub open spec fn xfer_frame(pre: EhciController, post: EhciController) -> bool {
    &&& post.pci_address == pre.pci_address
    &&& post.num_ports == pre.num_ports
    &&& post.next_address == pre.next_address
    &&& post.hw.ports@ == pre.hw.ports@
    &&& post.hw.cmd == pre.hw.cmd
    &&& post.hw.configflag == pre.hw.configflag
    &&& post.hw.intr == pre.hw.intr
    &&& post.hw.periodic_base == pre.hw.periodic_base
    &&& post.hw.periodic@ == pre.hw.periodic@
    &&& post.hw.async_base == pre.hw.async_base
    &&& post.hw.latency == pre.hw.latency
    &&& post.hw.reset_works == pre.hw.reset_works
    &&& post.hw.qtds@.len() == pre.hw.qtds@.len()
    &&& post.hw.qhs@.len() == pre.hw.qhs@.len()
    &&& post.hw.data@.len() == pre.hw.data@.len()
}

/// What the descriptor arena shows after a control transfer, pinning the
/// chain that was submitted: qTD slot 0 carried the SETUP stage (eight
/// bytes, toggle 0, no Interrupt-on-Complete), slot 1 the DATA stage when
/// there was one (PID from the direction, toggle 1, no
/// Interrupt-on-Complete), and behind them the STATUS stage (opposite
/// direction, or IN without a data stage; toggle 1;
/// Interrupt-on-Complete), linked in that order with the tail terminated;
/// the transfer QH addressed endpoint 0 of the device with data-toggle
/// control.  The simulated device flips each completed stage's toggle past
/// its single packet, so a completed stage reads back with the submitted
/// toggle inverted, an unanswered one with the submitted values.
pub open spec fn control_chain_post(hw: EhciHw, dev_addr: u8, ep0_max: u16, speed: UsbSpeed,
    is_in: bool, len: int, completed: bool) -> bool {
    let si = if len > 0 { 2int } else { 1int };
    &&& tok_pid(hw.qtds@[0].token) == 2
    &&& !tok_ioc(hw.qtds@[0].token)
    &&& tok_toggle(hw.qtds@[0].token) == completed
    &&& hw.qtds@[0].next_qtd == spec_qtd_addr(1) as u32
    &&& (len > 0 ==> tok_pid(hw.qtds@[1].token) == (if is_in { 1u32 } else { 0u32 })
        && !tok_ioc(hw.qtds@[1].token) && tok_toggle(hw.qtds@[1].token) == !completed
        && hw.qtds@[1].next_qtd == spec_qtd_addr(2) as u32)
    &&& tok_pid(hw.qtds@[si].token) == (if !is_in || len == 0 { 1u32 } else { 0u32 })
    &&& tok_ioc(hw.qtds@[si].token)
    &&& tok_toggle(hw.qtds@[si].token) == !completed
    &&& link_terminates(hw.qtds@[si].next_qtd)
    &&& hw.qhs@[1].overlay.next_qtd == spec_qtd_addr(0) as u32
    &&& qh_endpoint(hw.qhs@[1].ep_chars) == 0
    &&& qh_device_address(hw.qhs@[1].ep_chars) == dev_addr & 0x7f
    &&& qh_dtc(hw.qhs@[1].ep_chars)
    &&& qh_max_packet(hw.qhs@[1].ep_chars) == ep0_max & 0x7ff
    &&& qh_eps(hw.qhs@[1].ep_chars) == speed_code(speed)
}

/// The exact event-log suffix one transfer submission leaves: the bounded
/// poll of the completing qTD; then, after the unsplice, the
/// Interrupt-on-Async-Advance doorbell, the wait for its acknowledge and
/// the write-one-to-clear acknowledge when it was observed — only then is
/// the descriptor memory reused; a transfer that never completed ends with
/// the one scoped reset request.
pub open spec fn xfer_trace(cmd: u32, qtd_i: usize, w1: bool, w2: bool, timed_out: bool)
    -> Seq<HwOp> {
    let base = seq![
        HwOp::Waited(WaitCond::QtdDone(qtd_i), w1),
        HwOp::WriteOp(OpReg::UsbCmd, cmd | 0x40),
        HwOp::Waited(WaitCond::DoorbellAck, w2),
    ];
    let acked = if w2 {
        base.push(HwOp::WriteOp(OpReg::UsbSts, 0x20))
    } else {
        base
    };
    if timed_out {
        acked.push(HwOp::ResetRequest)
    } else {
        acked
    }
}

/// The event log a transfer's polling and doorbell steps leave, assembled
/// from the individual operations' pushes.
pub proof fn lemma_xfer_trace_shape(t0: Seq<HwOp>, t1: Seq<HwOp>, t2: Seq<HwOp>,
    t3: Seq<HwOp>, t4: Seq<HwOp>, cmd: u32, qi: usize, w1: bool, w2: bool)
    requires
        t1 == t0.push(HwOp::Waited(WaitCond::QtdDone(qi), w1)),
        t2 == t1.push(HwOp::WriteOp(OpReg::UsbCmd, cmd | 0x40)),
        t3 == t2.push(HwOp::Waited(WaitCond::DoorbellAck, w2)),
        t4 == (if w2 {
            t3.push(HwOp::WriteOp(OpReg::UsbSts, 0x20))
        } else {
            t3
        }),
    ensures
        t4 == t0 + xfer_trace(cmd, qi, w1, w2, false),
        t4.push(HwOp::ResetRequest) == t0 + xfer_trace(cmd, qi, w1, w2, true),
        count_resets(t4) == count_resets(t0),
        count_resets(t4.push(HwOp::ResetRequest)) == count_resets(t0) + 1,
{
    lemma_count_resets_push(t0, HwOp::Waited(WaitCond::QtdDone(qi), w1));
    lemma_count_resets_push(t1, HwOp::WriteOp(OpReg::UsbCmd, cmd | 0x40));
    lemma_count_resets_push(t2, HwOp::Waited(WaitCond::DoorbellAck, w2));
    if w2 {
        lemma_count_resets_push(t3, HwOp::WriteOp(OpReg::UsbSts, 0x20));
    }
    lemma_count_resets_push(t4, HwOp::ResetRequest);
    assert(t4 =~= t0 + xfer_trace(cmd, qi, w1, w2, false));
    assert(t4.push(HwOp::ResetRequest) =~= t0 + xfer_trace(cmd, qi, w1, w2, true));
}

/// The error/result mapping every transfer obeys: the script's first
/// response decides, timeouts and each error map to exactly one error kind,
/// and a clean completion returns the bytes moved.
pub open spec fn xfer_result_ok(script: Seq<DevResponse>, is_in: bool, len: int,
    r: Result<usize, UsbError>) -> bool {
    &&& (r == Err::<usize, UsbError>(UsbError::Timeout)) == (xfer_outcome(script) is TimedOut)
    &&& (r == Err::<usize, UsbError>(UsbError::Stall)) == (xfer_outcome(script) is Stalled)
    &&& (r == Err::<usize, UsbError>(UsbError::TransactionError))
        == (xfer_outcome(script) is Failed)
    &&& (xfer_outcome(script) is Done ==> r == Ok::<usize, UsbError>(
        (if is_in && len > 0 { xfer_in_bytes(script, len) } else { len }) as usize))
}

/// What a transfer leaves in the caller's buffer: on a clean IN completion
/// the delivered bytes followed by the untouched tail, otherwise the buffer
/// as it was.
pub open spec fn xfer_data_post(script: Seq<DevResponse>, is_in: bool, pre: Seq<u8>,
    post: Seq<u8>) -> bool {
    &&& post.len() == pre.len()
    &&& (xfer_outcome(script) is Done && is_in && pre.len() > 0 ==> post == padded(
        script[0].data@, xfer_in_bytes(script, pre.len() as int)).add(
        pre.skip(xfer_in_bytes(script, pre.len() as int))))
    &&& (!(xfer_outcome(script) is Done && is_in && pre.len() > 0) ==> post == pre)
}

/// What a bulk transfer on table slot `i` promises: the endpoint record
/// decides `InvalidParameter`, the script decides the outcome and payload,
/// and only a clean completion advances the stored toggle, to the completed
/// token's value.
pub open spec fn bulk_post(pre: EhciController, post: EhciController, i: int, is_in: bool,
    data_pre: Seq<u8>, data_post: Seq<u8>, r: Result<usize, UsbError>) -> bool {
    let d = pre.devices@[i]->Some_0;
    let ep = if is_in { d.bulk_in } else { d.bulk_out };
    let stored = if is_in { d.bulk_in_toggle } else { d.bulk_out_toggle };
    &&& (ep is None ==> r == Err::<usize, UsbError>(UsbError::InvalidParameter) && post == pre
        && data_post == data_pre)
    &&& (ep is Some ==> {
        &&& (r == Err::<usize, UsbError>(UsbError::Timeout))
            == (xfer_outcome(pre.hw.script@) is TimedOut)
        &&& (r == Err::<usize, UsbError>(UsbError::Stall))
            == (xfer_outcome(pre.hw.script@) is Stalled)
        &&& (r == Err::<usize, UsbError>(UsbError::TransactionError))
            == (xfer_outcome(pre.hw.script@) is Failed)
        &&& (xfer_outcome(pre.hw.script@) is Done ==> r == Ok::<usize, UsbError>(
            xfer_in_bytes(pre.hw.script@, data_pre.len() as int) as usize))
        &&& xfer_data_post(pre.hw.script@, is_in, data_pre, data_post)
        &&& post.hw.script@ == script_after(pre.hw.script@)
        &&& count_resets(post.hw.trace@) == count_resets(pre.hw.trace@)
            + (if xfer_outcome(pre.hw.script@) is TimedOut { 1int } else { 0int })
        &&& exists|w1: bool, w2: bool| post.hw.trace@ == pre.hw.trace@
            + #[trigger] xfer_trace(pre.hw.cmd, 0usize, w1, w2,
                xfer_outcome(pre.hw.script@) is TimedOut)
        &&& post.hw.req_log@ == pre.hw.req_log@
        &&& (r is Ok ==> post.devices@ == pre.devices@.update(i, Some(if is_in {
            EhciDevice { bulk_in_toggle: !stored, ..d }
        } else {
            EhciDevice { bulk_out_toggle: !stored, ..d }
        })))
        &&& (r is Ok ==> tok_toggle(post.hw.qtds@[0].token) == !stored)
        &&& (r is Ok ==> crate::ehci_desc::tok_ioc(post.hw.qtds@[0].token))
        &&& (!(r is Ok) ==> post.devices@ == pre.devices@)
    })
}

/// Model address the inert periodic frame list is installed at.
pub const PERIODIC_LIST_BASE: u32 = 0x8000;

/// The command value that starts the controller: run, async schedule
/// enabled, 1024-entry frame list, interrupt threshold eight micro-frames.
pub const CMD_START: u32 = 0x0008_0021;

/// The exact event-log suffix a successful bring-up leaves: stop and
/// observe the halt, pulse the reset and observe it clear, then programme
/// interrupt enable, the two list bases, the segment selector and the
/// configured flag, and finally start the controller and observe it
/// running — in that order however long each wait takes.
pub open spec fn init_trace(cmd: u32, b1: bool, b2: bool, b3: bool) -> Seq<HwOp> {
    seq![
        HwOp::WriteOp(OpReg::UsbCmd, cmd & 0xffff_fffe),
        HwOp::Waited(WaitCond::Halted, b1),
        HwOp::WriteOp(OpReg::UsbCmd, 2u32),
        HwOp::Waited(WaitCond::ResetClear, b2),
        HwOp::WriteOp(OpReg::UsbIntr, 0u32),
        HwOp::WriteOp(OpReg::PeriodicListBase, PERIODIC_LIST_BASE),
        HwOp::WriteOp(OpReg::AsyncListAddr, 0x1000u32),
        HwOp::WriteOp(OpReg::CtrlDsSegment, 0u32),
        HwOp::WriteOp(OpReg::ConfigFlag, 1u32),
        HwOp::WriteOp(OpReg::UsbCmd, CMD_START),
        HwOp::Waited(WaitCond::Running, b3),
        HwOp::Delayed(100u32),
    ]
}

/// The exact event-log suffix a cleanup leaves: async schedule disabled and
/// its idling observed, then the periodic schedule, then run/stop, then the
/// configured flag cleared — in that order however long each wait takes.
pub open spec fn cleanup_trace(cmd: u32, a1: bool, a2: bool, a3: bool) -> Seq<HwOp> {
    seq![
        HwOp::WriteOp(OpReg::UsbCmd, cmd & 0xffff_ffdf),
        HwOp::Waited(WaitCond::AsyncIdle, a1),
        HwOp::WriteOp(OpReg::UsbCmd, (cmd & 0xffff_ffdf) & 0xffff_ffef),
        HwOp::Waited(WaitCond::PeriodicIdle, a2),
        HwOp::WriteOp(OpReg::UsbCmd, ((cmd & 0xffff_ffdf) & 0xffff_ffef) & 0xffff_fffe),
        HwOp::Waited(WaitCond::Halted, a3),
        HwOp::WriteOp(OpReg::ConfigFlag, 0u32),
    ]
}

/// Classification state accumulated while walking a configuration's
/// interfaces: mass-storage and keyboard hits and their endpoint bindings.
pub ghost struct ClassState {
    pub is_ms: bool,
    pub is_kb: bool,
    pub bulk_in: Option<EndpointInfo>,
    pub bulk_out: Option<EndpointInfo>,
    pub int_in: Option<EndpointInfo>,
}

pub open spec fn empty_class() -> ClassState {
    ClassState { is_ms: false, is_kb: false, bulk_in: None, bulk_out: None, int_in: None }
}

/// One interface's contribution: a mass-storage interface sets the flag and
/// (re)binds the bulk endpoints, a keyboard interface the interrupt
/// endpoint; anything else changes nothing.
pub open spec fn class_step(st: ClassState, i: crate::usb::IfaceView) -> ClassState {
    if iface_is_mass_storage(i) {
        ClassState {
            is_ms: true,
            bulk_in: spec_find_bulk_in(i.endpoints),
            bulk_out: spec_find_bulk_out(i.endpoints),
            ..st
        }
    } else if iface_is_hid_keyboard(i) {
        ClassState { is_kb: true, int_in: spec_find_interrupt_in(i.endpoints), ..st }
    } else {
        st
    }
}

pub open spec fn classify_from(s: Seq<crate::usb::IfaceView>, k: int, st: ClassState)
    -> ClassState
    decreases s.len() - k when k >= 0
{
    if k < 0 || k >= s.len() {
        st
    } else {
        classify_from(s, k + 1, class_step(st, s[k]))
    }
}

/// The classification of a whole interface table.
pub open spec fn spec_classify(s: Seq<crate::usb::IfaceView>) -> ClassState {
    classify_from(s, 0, empty_class())
}

/// A device record is internally consistent: its role flags and endpoint
/// bindings are exactly what its own configuration table classifies to.
pub open spec fn dev_classified(d: EhciDevice) -> bool {
    let st = spec_classify(d.config_info@.interfaces);
    &&& d.is_mass_storage == st.is_ms
    &&& d.is_hid_keyboard == st.is_kb
    &&& d.bulk_in == st.bulk_in
    &&& d.bulk_out == st.bulk_out
    &&& d.interrupt_in == st.int_in
}

/// A port that enumeration will attach a device through: connected, not
/// low-speed signalling, negotiates high speed, not yet released.
pub open spec fn port_attachable(ps: PortState) -> bool {
    ps.connected && !ps.k_state && ps.high_speed && !ps.owner
}

/// Port `p` is the only one enumeration will attach through.
pub open spec fn only_attachable(ports: Seq<PortState>, p: int) -> bool {
    &&& 0 <= p < ports.len()
    &&& port_attachable(ports[p])
    &&& forall|q: int| 0 <= q < ports.len() && q != p
        ==> !port_attachable(#[trigger] ports[q])
}

/// How many of the first `p` ports are attachable.
pub open spec fn count_attachable_prefix(ports: Seq<PortState>, p: int) -> int
    decreases p when p >= 0
{
    if p <= 0 {
        0
    } else {
        count_attachable_prefix(ports, p - 1) + (if port_attachable(ports[p - 1]) {
            1int
        } else {
            0int
        })
    }
}

/// How many ports enumeration can attach through at all.
pub open spec fn count_attachable(ports: Seq<PortState>) -> int {
    count_attachable_prefix(ports, ports.len() as int)
}

/// A prefix without attachable ports counts zero.
pub proof fn lemma_count_attachable_zero(ports: Seq<PortState>, p: int)
    requires
        0 <= p <= ports.len(),
        forall|q: int| 0 <= q < ports.len() ==> !port_attachable(#[trigger] ports[q]),
    ensures
        count_attachable_prefix(ports, p) == 0,
    decreases p,
{
    if p > 0 {
        lemma_count_attachable_zero(ports, p - 1);
    }
}

/// Walk a configuration's interfaces and classify the device.
pub fn classify_config(cfg: &ConfigurationInfo) -> (r: (bool, bool, Option<EndpointInfo>,
    Option<EndpointInfo>, Option<EndpointInfo>))
    ensures
        ({
            let st = spec_classify(cfg@.interfaces);
            r.0 == st.is_ms && r.1 == st.is_kb && r.2 == st.bulk_in && r.3 == st.bulk_out
                && r.4 == st.int_in
        }),
{
    let ghost ifv = cfg@.interfaces;
    let mut is_ms = false;
    let mut is_kb = false;
    let mut bulk_in: Option<EndpointInfo> = None;
    let mut bulk_out: Option<EndpointInfo> = None;
    let mut int_in: Option<EndpointInfo> = None;
    let mut k: usize = 0;
    while k < cfg.interfaces.len()
        invariant
            k <= ifv.len(),
            ifv == cfg@.interfaces,
            ifv.len() == cfg.interfaces@.len(),
            spec_classify(ifv) == classify_from(ifv, k as int, (ClassState {
                is_ms,
                is_kb,
                bulk_in,
                bulk_out,
                int_in,
            })),
        decreases ifv.len() - k,
    {
        let iface = &cfg.interfaces[k];
        proof {
            assert(iface@ == ifv[k as int]);
        }
        if iface.is_mass_storage() {
            is_ms = true;
            bulk_in = iface.find_bulk_in();
            bulk_out = iface.find_bulk_out();
        } else if iface.is_hid_keyboard() {
            is_kb = true;
            int_in = iface.find_interrupt_in();
        }
        k = k + 1;
    }
    (is_ms, is_kb, bulk_in, bulk_out, int_in)
}

/// The data-toggle law for one bulk endpoint: across two consecutive
/// clean bulk transfers, the stored toggle after each transfer equals the
/// toggle its completed token carries (the next expected value), and the
/// toggle a transfer uses is always the negation of the toggle the previous
/// one used.
pub proof fn lemma_bulk_toggle_alternation(s0: EhciController, s1: EhciController,
    s2: EhciController, i: int, is_in: bool, d0: Seq<u8>, d0p: Seq<u8>, d1: Seq<u8>,
    d1p: Seq<u8>, r1: Result<usize, UsbError>, r2: Result<usize, UsbError>)
    requires
        0 <= i < s0.devices@.len(),
        s0.devices@[i] is Some,
        (if is_in {
            s0.devices@[i]->Some_0.bulk_in
        } else {
            s0.devices@[i]->Some_0.bulk_out
        }) is Some,
        bulk_post(s0, s1, i, is_in, d0, d0p, r1),
        r1 is Ok,
        i < s1.devices@.len(),
        bulk_post(s1, s2, i, is_in, d1, d1p, r2),
        r2 is Ok,
    ensures
        ({
            let used0 = if is_in {
                s0.devices@[i]->Some_0.bulk_in_toggle
            } else {
                s0.devices@[i]->Some_0.bulk_out_toggle
            };
            let stored1 = if is_in {
                s1.devices@[i]->Some_0.bulk_in_toggle
            } else {
                s1.devices@[i]->Some_0.bulk_out_toggle
            };
            let stored2 = if is_in {
                s2.devices@[i]->Some_0.bulk_in_toggle
            } else {
                s2.devices@[i]->Some_0.bulk_out_toggle
            };
            // the stored toggle is what the completed token reported,
            &&& stored1 == tok_toggle(s1.hw.qtds@[0].token)
            &&& stored2 == tok_toggle(s2.hw.qtds@[0].token)
            // and consecutive transfers use opposite toggles.
            &&& stored1 == !used0
            &&& stored2 == !stored1
        }),
{
    assert(s1.devices@ == s0.devices@.update(i, s1.devices@[i]));
}

/// A scripted answer that completes a request cleanly and in full.
pub open spec fn resp_clean(r: DevResponse) -> bool {
    r.completes && r.error_bits & 0x78 == 0 && r.residual == 0
}

/// A script whose first six answers complete cleanly: enough for a whole
/// attach sequence, whether or not a configuration gets selected.
pub open spec fn attach_script_clean(s: Seq<DevResponse>) -> bool {
    &&& s.len() >= 6
    &&& resp_clean(s[0])
    &&& resp_clean(s[1])
    &&& resp_clean(s[2])
    &&& resp_clean(s[3])
    &&& resp_clean(s[4])
    &&& resp_clean(s[5])
}

/// The configuration-descriptor length the attach sequence fetches, given
/// the nine header bytes: the declared total length, capped at the bound
/// the staging layout allows.
pub open spec fn attach_cfg_len(hdr: Seq<u8>) -> int {
    let tl = hdr[2] + 256 * hdr[3];
    if tl > 256 {
        256
    } else {
        tl
    }
}

/// What the stored record of a cleanly-answered attach holds: every field
/// decoded from exactly the bytes the device answered with.
pub open spec fn attach_record_exact(s: Seq<DevResponse>, port: u8, address: u8,
    d: EhciDevice) -> bool {
    let ep0 = padded(s[0].data@, 8)[7];
    let cfg_bytes = padded(s[4].data@, attach_cfg_len(padded(s[3].data@, 9)));
    &&& d.port == port
    &&& d.address == address
    &&& d.speed == UsbSpeed::High
    &&& d.ep0_max_packet == (if ep0 >= 8 { ep0 as u16 } else { 8u16 })
    &&& d.device_desc == crate::usb::spec_device_descriptor(padded(s[2].data@, 18))
    &&& d.config_info@.configuration_value == spec_config_value(cfg_bytes, 0)
    &&& d.config_info@.interfaces == spec_parse_interfaces(cfg_bytes, 0)
    &&& d.bulk_in_toggle == false
    &&& d.bulk_out_toggle == false
}

/// A zero-filled buffer of the given length.
fn zero_vec(n: usize) -> (r: Vec<u8>)
    ensures
        r@.len() == n,
        forall|i: int| 0 <= i < n ==> r@[i] == 0u8,
{
    let mut v: Vec<u8> = Vec::new();
    let mut i: usize = 0;
    while i < n
        invariant
            i <= n,
            v@.len() == i,
            forall|j: int| 0 <= j < i ==> v@[j] == 0u8,
        decreases n - i,
    {
        v.push(0);
        i = i + 1;
    }
    v
}

/// The EHCI host controller.
pub struct EhciController {
    /// Where the controller sits on PCI.
    pub pci_address: PciAddress,
    /// Number of root ports driven.
    pub num_ports: u8,
    /// Device table: address-assigned devices, one slot each.
    pub devices: Vec<Option<EhciDevice>>,
    /// Next device address to hand out.
    pub next_address: u8,
    /// The controller's registers and descriptor memory.
    pub hw: EhciHw,
}

/// The controller's steady-state invariant: model well-formed, the async
/// ring intact and holding only the permanent head, the device table at
/// capacity layout, addresses in range.
pub open spec fn ctl_wf(c: EhciController) -> bool {
    &&& hw_wf(c.hw)
    &&& ring_wf(c.hw.qhs@, c.hw.ring@)
    &&& c.hw.ring@ == seq![0int]
    &&& c.devices@.len() == MAX_DEVICES
    &&& c.num_ports as int == c.hw.ports@.len()
    &&& 1 <= c.next_address
    &&& forall|j: int| 0 <= j < c.devices@.len() && c.devices@[j] is Some
        ==> 1 <= (#[trigger] c.devices@[j])->Some_0.address
            && c.devices@[j]->Some_0.address < c.next_address
}

impl EhciController {
    /// Where the controller sits on PCI.
    pub fn pci_address(&self) -> (r: PciAddress)
        ensures
            r == self.pci_address,
    {
        self.pci_address
    }

    /// The number of root ports this controller drives.
    pub fn num_ports(&self) -> (r: u8)
        ensures
            r == self.num_ports,
    {
        self.num_ports
    }

    /// Read the device table slot holding `address`, if any: the slot index
    /// of the first matching record.
    pub fn get_device(&self, address: u8) -> (r: Option<usize>)
        ensures
            match r {
                Some(i) => i < self.devices@.len() && slot_has_addr(self.devices@, i as int,
                    address) && (forall|j: int| 0 <= j < i
                        ==> !slot_has_addr(self.devices@, j, address)),
                None => forall|j: int| 0 <= j < self.devices@.len()
                    ==> !slot_has_addr(self.devices@, j, address),
            },
    {
        let mut i: usize = 0;
        while i < self.devices.len()
            invariant
                i <= self.devices@.len(),
                forall|j: int| 0 <= j < i ==> !slot_has_addr(self.devices@, j, address),
            decreases self.devices@.len() - i,
        {
            let hit = match &self.devices[i] {
                Some(d) => d.address == address,
                None => false,
            };
            if hit {
                return Some(i);
            }
            i = i + 1;
        }
        None
    }

    /// The address of the mass-storage device in the lowest occupied table
    /// slot, if any.
    pub fn find_mass_storage(&self) -> (r: Option<u8>)
        ensures
            match r {
                Some(a) => exists|i: int| 0 <= i < self.devices@.len()
                    && (#[trigger] self.devices@[i]) is Some
                    && self.devices@[i]->Some_0.is_mass_storage
                    && self.devices@[i]->Some_0.address == a
                    && (forall|j: int| 0 <= j < i && (#[trigger] self.devices@[j]) is Some
                        ==> !self.devices@[j]->Some_0.is_mass_storage),
                None => forall|i: int| 0 <= i < self.devices@.len()
                    && (#[trigger] self.devices@[i]) is Some
                    ==> !self.devices@[i]->Some_0.is_mass_storage,
            },
    {
        let mut i: usize = 0;
        while i < self.devices.len()
            invariant
                i <= self.devices@.len(),
                forall|j: int| 0 <= j < i && (#[trigger] self.devices@[j]) is Some
                    ==> !self.devices@[j]->Some_0.is_mass_storage,
            decreases self.devices@.len() - i,
        {
            let hit: Option<u8> = match &self.devices[i] {
                Some(d) => if d.is_mass_storage {
                    Some(d.address)
                } else {
                    None
                },
                None => None,
            };
            if let Some(a) = hit {
                return Some(a);
            }
            i = i + 1;
        }
        None
    }

    /// The address of the HID-keyboard device in the lowest occupied table
    /// slot, if any.
    pub fn find_hid_keyboard(&self) -> (r: Option<u8>)
        ensures
            match r {
                Some(a) => exists|i: int| 0 <= i < self.devices@.len()
                    && (#[trigger] self.devices@[i]) is Some
                    && self.devices@[i]->Some_0.is_hid_keyboard
                    && self.devices@[i]->Some_0.address == a
                    && (forall|j: int| 0 <= j < i && (#[trigger] self.devices@[j]) is Some
                        ==> !self.devices@[j]->Some_0.is_hid_keyboard),
                None => forall|i: int| 0 <= i < self.devices@.len()
                    && (#[trigger] self.devices@[i]) is Some
                    ==> !self.devices@[i]->Some_0.is_hid_keyboard,
            },
    {
        let mut i: usize = 0;
        while i < self.devices.len()
            invariant
                i <= self.devices@.len(),
                forall|j: int| 0 <= j < i && (#[trigger] self.devices@[j]) is Some
                    ==> !self.devices@[j]->Some_0.is_hid_keyboard,
            decreases self.devices@.len() - i,
        {
            let hit: Option<u8> = match &self.devices[i] {
                Some(d) => if d.is_hid_keyboard {
                    Some(d.address)
                } else {
                    None
                },
                None => None,
            };
            if let Some(a) = hit {
                return Some(a);
            }
            i = i + 1;
        }
        None
    }

    /// Summarise a device for the boot-device search.
    pub fn get_device_info(&self, device: u8) -> (r: Option<DeviceInfo>)
        ensures
            match r {
                Some(info) => exists|i: int| 0 <= i < self.devices@.len()
                    && #[trigger] first_slot_with_addr(self.devices@, i, device)
                    && info == (DeviceInfo {
                        address: (#[trigger] self.devices@[i])->Some_0.address,
                        speed: self.devices@[i]->Some_0.speed,
                        vendor_id: self.devices@[i]->Some_0.device_desc.vendor_id,
                        product_id: self.devices@[i]->Some_0.device_desc.product_id,
                        device_class: self.devices@[i]->Some_0.device_desc.device_class,
                        is_mass_storage: self.devices@[i]->Some_0.is_mass_storage,
                        is_hid: self.devices@[i]->Some_0.is_hid_keyboard,
                        is_keyboard: self.devices@[i]->Some_0.is_hid_keyboard,
                    }),
                None => forall|j: int| 0 <= j < self.devices@.len()
                    ==> !slot_has_addr(self.devices@, j, device),
            },
    {
        let slot = self.get_device(device);
        match slot {
            Some(i) => match &self.devices[i] {
                Some(d) => {
                    proof {
                        assert(first_slot_with_addr(self.devices@, i as int, device));
                    }
                    Some(DeviceInfo {
                    address: d.address,
                    speed: d.speed,
                    vendor_id: d.device_desc.vendor_id,
                    product_id: d.device_desc.product_id,
                    device_class: d.device_desc.device_class,
                        is_mass_storage: d.is_mass_storage,
                        is_hid: d.is_hid_keyboard,
                        is_keyboard: d.is_hid_keyboard,
                    })
                },
                None => None,
            },
            None => None,
        }
    }

    /// The bulk endpoint pair of a device, if both are known.
    pub fn get_bulk_endpoints(&self, device: u8) -> (r: Option<(EndpointInfo, EndpointInfo)>)
        ensures
            match r {
                Some(pair) => exists|i: int| 0 <= i < self.devices@.len()
                    && #[trigger] first_slot_with_addr(self.devices@, i, device)
                    && self.devices@[i]->Some_0.bulk_in == Some(pair.0)
                    && self.devices@[i]->Some_0.bulk_out == Some(pair.1),
                None => forall|j: int| 0 <= j < self.devices@.len()
                    && #[trigger] first_slot_with_addr(self.devices@, j, device)
                    ==> (self.devices@[j]->Some_0.bulk_in is None
                        || self.devices@[j]->Some_0.bulk_out is None),
            },
    {
        let slot = self.get_device(device);
        match slot {
            Some(i) => match &self.devices[i] {
                Some(d) => match (&d.bulk_in, &d.bulk_out) {
                    (Some(ein), Some(eout)) => {
                        proof {
                            assert(first_slot_with_addr(self.devices@, i as int, device));
                        }
                        Some((*ein, *eout))
                    },
                    _ => {
                        proof {
                            assert forall|j: int| 0 <= j < self.devices@.len()
                                && #[trigger] first_slot_with_addr(self.devices@, j, device)
                                implies (self.devices@[j]->Some_0.bulk_in is None
                                    || self.devices@[j]->Some_0.bulk_out is None) by {
                                if j < i as int {
                                    assert(!slot_has_addr(self.devices@, j, device));
                                } else if j > i as int {
                                    assert(!slot_has_addr(self.devices@, i as int, device));
                                }
                            }
                        }
                        None
                    },
                },
                None => None,
            },
            None => None,
        }
    }

    /// The interrupt IN endpoint of a device, if known.
    pub fn get_interrupt_endpoint(&self, device: u8) -> (r: Option<EndpointInfo>)
        ensures
            match r {
                Some(e) => exists|i: int| 0 <= i < self.devices@.len()
                    && #[trigger] first_slot_with_addr(self.devices@, i, device)
                    && self.devices@[i]->Some_0.interrupt_in == Some(e),
                None => forall|j: int| 0 <= j < self.devices@.len()
                    && #[trigger] first_slot_with_addr(self.devices@, j, device)
                    ==> self.devices@[j]->Some_0.interrupt_in is None,
            },
    {
        let slot = self.get_device(device);
        match slot {
            Some(i) => {
                proof {
                    assert forall|j: int| 0 <= j < self.devices@.len()
                        && #[trigger] first_slot_with_addr(self.devices@, j, device)
                        implies j == i as int by {
                        if j < i as int {
                            assert(!slot_has_addr(self.devices@, j, device));
                        } else if j > i as int {
                            assert(!slot_has_addr(self.devices@, i as int, device));
                        }
                    }
                }
                proof {
                    assert(first_slot_with_addr(self.devices@, i as int, device));
                }
                match &self.devices[i] {
                    Some(d) => d.interrupt_in,
                    None => None,
                }
            },
            None => None,
        }
    }

    /// The kind of controller this is.
    pub fn controller_type(&self) -> (r: &'static str)
        ensures
            r@ == "EHCI"@,
    {
        "EHCI"
    }

    /// Run one control transfer against endpoint 0 of `device`: build the
    /// SETUP / optional DATA / STATUS chain in the arena, splice its QH into
    /// the async ring, let the device answer, poll the STATUS stage, then
    /// unsplice and confirm through the doorbell.
    ///
    /// The outcome mirrors the device's scripted answer exactly: no answer
    /// is a timeout (and forces one scoped reset request), a halted
    /// completion is `Stall`, any other error bit is `TransactionError`,
    /// and a clean completion returns the bytes moved, with an IN payload
    /// copied out of the staging buffer into `data`.
    pub fn control_transfer_internal(&mut self, device: &EhciDevice, request_type: u8,
        request: u8, value: u16, index: u16, data: &mut Vec<u8>)
        -> (r: Result<usize, UsbError>)
        requires
            hw_wf(old(self).hw),
            ring_wf(old(self).hw.qhs@, old(self).hw.ring@),
            old(self).hw.ring@ == seq![0int],
            old(data)@.len() <= MAX_TRANSFER,
        ensures
            hw_wf(final(self).hw),
            ring_wf(final(self).hw.qhs@, final(self).hw.ring@),
            final(self).hw.ring@ == seq![0int],
            final(self).hw.script@ == script_after(old(self).hw.script@),
            final(self).devices@ == old(self).devices@,
            xfer_frame(*old(self), *final(self)),
            final(data)@.len() == old(data)@.len(),
            (r == Err::<usize, UsbError>(UsbError::Timeout))
                == (xfer_outcome(old(self).hw.script@) is TimedOut),
            (r == Err::<usize, UsbError>(UsbError::Stall))
                == (xfer_outcome(old(self).hw.script@) is Stalled),
            (r == Err::<usize, UsbError>(UsbError::TransactionError))
                == (xfer_outcome(old(self).hw.script@) is Failed),
            xfer_outcome(old(self).hw.script@) is Done ==> r == Ok::<usize, UsbError>(
                (if request_type & 0x80 != 0 && old(data)@.len() > 0 {
                    xfer_in_bytes(old(self).hw.script@, old(data)@.len() as int)
                } else {
                    old(data)@.len() as int
                }) as usize,
            ),
            (xfer_outcome(old(self).hw.script@) is Done && request_type & 0x80 != 0
                && old(data)@.len() > 0) ==> final(data)@ == padded(
                old(self).hw.script@[0].data@,
                xfer_in_bytes(old(self).hw.script@, old(data)@.len() as int),
            ).add(old(data)@.skip(xfer_in_bytes(old(self).hw.script@,
                old(data)@.len() as int))),
            !(xfer_outcome(old(self).hw.script@) is Done && request_type & 0x80 != 0
                && old(data)@.len() > 0) ==> final(data)@ == old(data)@,
            count_resets(final(self).hw.trace@) == count_resets(old(self).hw.trace@)
                + (if xfer_outcome(old(self).hw.script@) is TimedOut { 1int } else { 0int }),
            no_port_writes_between(old(self).hw.trace@, final(self).hw.trace@),
            forall|k: int| 0 <= k < 8 ==> final(self).hw.data@[k] == spec_setup_packet(
                request_type, request, value, index, old(data)@.len() as u16)[k],
            request_type & 0x80 == 0 ==> (forall|k: int| 0 <= k < old(data)@.len()
                ==> final(self).hw.data@[64 + k] == old(data)@[k]),
            control_chain_post(final(self).hw, device.address, device.ep0_max_packet,
                device.speed, request_type & 0x80 != 0, old(data)@.len() as int,
                !(xfer_outcome(old(self).hw.script@) is TimedOut)),
            old(data)@.len() > 0 ==> exists|w1: bool, w2: bool| final(self).hw.trace@
                == old(self).hw.trace@ + #[trigger] xfer_trace(old(self).hw.cmd, 2usize, w1,
                    w2, xfer_outcome(old(self).hw.script@) is TimedOut),
            old(data)@.len() == 0 ==> exists|w1: bool, w2: bool| final(self).hw.trace@
                == old(self).hw.trace@ + #[trigger] xfer_trace(old(self).hw.cmd, 1usize, w1,
                    w2, xfer_outcome(old(self).hw.script@) is TimedOut),
            final(self).hw.req_log@ == old(self).hw.req_log@.push(spec_setup_packet(
                request_type, request, value, index, old(data)@.len() as u16)),
    {
        let ghost pre = *old(self);
        let is_in = request_type & 0x80 != 0;
        let data_len = data.len();
        let has_data = data_len > 0;

        // Stage the request packet, and the payload for an OUT data stage.
        let packet = build_setup_packet(request_type, request, value, index, data_len as u16);
        self.hw.stage_bytes(SETUP_STAGE_OFF, &packet);
        if !is_in && has_data {
            self.hw.stage_bytes(DATA_STAGE_OFF, data);
        }

        proof {
            assert(1u32 & 1 != 0 && 0u8 & 0xf == 0) by (bit_vector);
        }
        // Build the qTD chain: SETUP, optional DATA, STATUS.
        let status_i: usize = if has_data {
            2
        } else {
            1
        };
        let mut setup_qtd = QueueTransferDescriptor::setup(DATA_AREA_BASE, false);
        if has_data {
            proof {
                assert(0x4040u32 & 0xfff == 0x40) by (bit_vector);
            }
            let mut data_qtd = QueueTransferDescriptor::data(DATA_AREA_BASE + 64, data_len,
                is_in, true);
            data_qtd.next_qtd = self.hw.qtd_addr(2);
            self.hw.write_qtd(1, data_qtd);
            setup_qtd.next_qtd = self.hw.qtd_addr(1);
        } else {
            setup_qtd.next_qtd = self.hw.qtd_addr(1);
        }
        let status_qtd = QueueTransferDescriptor::status(!is_in || !has_data);
        self.hw.write_qtd(0, setup_qtd);
        self.hw.write_qtd(status_i, status_qtd);

        // Build the transfer QH on endpoint 0 and splice it in after the head.
        let mut qh = QueueHead::new(device.address, 0, device.ep0_max_packet, device.speed,
            true);
        qh.overlay.next_qtd = self.hw.qtd_addr(0);
        self.hw.write_qh(1, qh);
        proof {
            assert(!pre.hw.ring@.contains(1int));
        }
        self.hw.ring_insert_after_head(1);
        proof {
            assert(self.hw.data@.subrange(0, 8) =~= spec_setup_packet(request_type, request,
                value, index, data_len as u16));
        }

        // The device answers the submitted chain, if the script says so.
        self.hw.device_act_control(0, has_data, 1, status_i, DATA_STAGE_OFF, data_len, is_in);

        // Poll the STATUS stage.
        let _saw_done = self.hw.wait_until(WaitCond::QtdDone(status_i), BUDGET_TRANSFER);
        let ghost t1 = self.hw.trace@;

        // Unsplice, then ring the doorbell and wait for the acknowledge so
        // the hardware is known to have let go of the QH.
        self.hw.ring_remove_after_head(1);
        self.hw.ring_doorbell();
        let ghost t2 = self.hw.trace@;
        let acked = self.hw.wait_until(WaitCond::DoorbellAck, BUDGET_DOORBELL);
        let ghost t3 = self.hw.trace@;
        if acked {
            self.hw.ack_doorbell();
        }
        let ghost t4 = self.hw.trace@;
        proof {
            lemma_xfer_trace_shape(pre.hw.trace@, t1, t2, t3, t4, pre.hw.cmd, status_i,
                _saw_done, acked);
            assert(pre.hw.ring@.insert(1, 1int).remove(1) =~= seq![0int]);
        }

        // Interpret the chain: still active means the device never answered.
        let st = self.hw.read_qtd(status_i);
        if st.token & TOKEN_ACTIVE != 0 {
            self.hw.request_transfer_reset();
            return Err(UsbError::Timeout);
        }
        let su = self.hw.read_qtd(0);
        if st.has_error() || su.has_error() {
            if st.token & TOKEN_HALTED != 0 {
                return Err(UsbError::Stall);
            }
            return Err(UsbError::TransactionError);
        }

        proof {
            if pre.hw.script@.len() > 0 {
                let e = pre.hw.script@[0].error_bits;
                assert(e & 0x78 == 0 ==> e & 0x40 == 0) by (bit_vector);
            }
        }
        // Clean completion: for IN, copy what the device delivered.
        if is_in && has_data {
            let dq = self.hw.read_qtd(1);
            let transferred = dq.bytes_transferred(data_len);
            proof {
                assert(transferred <= data_len);
            }
            let bytes = self.hw.fetch_bytes(DATA_STAGE_OFF, transferred);
            let mut b: usize = 0;
            while b < transferred
                invariant
                    b <= transferred,
                    transferred <= data@.len(),
                    bytes@.len() == transferred,
                    data@.len() == old(data)@.len(),
                    forall|j: int| 0 <= j < b ==> data@[j] == bytes@[j],
                    forall|j: int| b <= j < data@.len() ==> data@[j] == old(data)@[j],
                decreases transferred - b,
            {
                let v = bytes[b];
                data.set(b, v);
                b = b + 1;
            }
            proof {
                assert(bytes@ =~= padded(pre.hw.script@[0].data@, transferred as int));
                assert(data@ =~= padded(pre.hw.script@[0].data@, transferred as int).add(
                    old(data)@.skip(transferred as int)));
            }
            return Ok(transferred);
        }
        Ok(data_len)
    }

    /// The public control-transfer entry: look the device up by address,
    /// then run the transfer against its endpoint 0.
    pub fn control_transfer(&mut self, device: u8, request_type: u8, request: u8, value: u16,
        index: u16, data: &mut Vec<u8>) -> (r: Result<usize, UsbError>)
        requires
            ctl_wf(*old(self)),
            old(data)@.len() <= MAX_TRANSFER,
        ensures
            ctl_wf(*final(self)),
            final(self).devices@ == old(self).devices@,
            xfer_frame(*old(self), *final(self)),
            (forall|j: int| 0 <= j < old(self).devices@.len()
                ==> !slot_has_addr(old(self).devices@, j, device))
                ==> r == Err::<usize, UsbError>(UsbError::DeviceNotFound)
                    && *final(self) == *old(self) && final(data)@ == old(data)@,
            (exists|j: int| 0 <= j < old(self).devices@.len()
                && slot_has_addr(old(self).devices@, j, device)) ==> {
                &&& xfer_result_ok(old(self).hw.script@, request_type & 0x80 != 0,
                    old(data)@.len() as int, r)
                &&& xfer_data_post(old(self).hw.script@, request_type & 0x80 != 0,
                    old(data)@, final(data)@)
                &&& final(self).hw.script@ == script_after(old(self).hw.script@)
                &&& count_resets(final(self).hw.trace@) == count_resets(old(self).hw.trace@)
                    + (if xfer_outcome(old(self).hw.script@) is TimedOut { 1int } else { 0int })
            },
    {
        let slot = self.get_device(device);
        match slot {
            None => Err(UsbError::DeviceNotFound),
            Some(i) => {
                let (daddr, dport, dspeed, ep0) = match &self.devices[i] {
                    Some(d) => (d.address, d.port, d.speed, d.ep0_max_packet),
                    None => (0u8, 0u8, UsbSpeed::High, 64u16),
                };
                let mut dev = EhciDevice::new(daddr, dport, dspeed);
                dev.ep0_max_packet = ep0;
                self.control_transfer_internal(&dev, request_type, request, value, index, data)
            },
        }
    }

    /// The public bulk-transfer entry: look the device up by address, then
    /// run the transfer on its stored bulk endpoint.
    pub fn bulk_transfer(&mut self, device: u8, endpoint: u8, is_in: bool, data: &mut Vec<u8>)
        -> (r: Result<usize, UsbError>)
        requires
            ctl_wf(*old(self)),
            old(data)@.len() <= MAX_TRANSFER,
        ensures
            ctl_wf(*final(self)),
            xfer_frame(*old(self), *final(self)),
            (forall|j: int| 0 <= j < old(self).devices@.len()
                ==> !slot_has_addr(old(self).devices@, j, device))
                ==> r == Err::<usize, UsbError>(UsbError::DeviceNotFound)
                    && *final(self) == *old(self) && final(data)@ == old(data)@,
            forall|i: int| (0 <= i < old(self).devices@.len()
                && slot_has_addr(old(self).devices@, i, device)
                && (forall|k: int| 0 <= k < i
                    ==> !slot_has_addr(old(self).devices@, k, device)))
                ==> bulk_post(*old(self), *final(self), i, is_in, old(data)@, final(data)@, r),
    {
        let ghost pre = *old(self);
        let slot = match self.get_device(device) {
            Some(s) => s,
            None => {
                return Err(UsbError::DeviceNotFound);
            },
        };
        let r = self.bulk_transfer_on(slot, endpoint, is_in, data);
        proof {
            assert forall|i: int| (0 <= i < pre.devices@.len()
                && slot_has_addr(pre.devices@, i, device)
                && (forall|k: int| 0 <= k < i ==> !slot_has_addr(pre.devices@, k, device)))
                implies bulk_post(pre, *self, i, is_in, old(data)@, data@, r) by {
                if i < slot as int {
                    assert(!slot_has_addr(pre.devices@, i, device));
                } else if i > slot as int {
                    assert(!slot_has_addr(pre.devices@, slot as int, device));
                }
            }
        }
        r
    }

    /// Run one bulk transfer on the device in table slot `slot`: a single
    /// qTD with Interrupt-on-Complete, using the endpoint's persisted data
    /// toggle.  On a clean completion the stored toggle takes the value the
    /// completed token carries (the next expected toggle); on any error it
    /// is left unchanged so the caller can retry or resynchronise.
    #[verifier::rlimit(100)]
    fn bulk_transfer_on(&mut self, slot: usize, endpoint: u8, is_in: bool, data: &mut Vec<u8>)
        -> (r: Result<usize, UsbError>)
        requires
            ctl_wf(*old(self)),
            old(data)@.len() <= MAX_TRANSFER,
            slot < old(self).devices@.len(),
            old(self).devices@[slot as int] is Some,
        ensures
            ctl_wf(*final(self)),
            xfer_frame(*old(self), *final(self)),
            bulk_post(*old(self), *final(self), slot as int, is_in, old(data)@, final(data)@,
                r),
    {
        let ghost pre = *old(self);
        let (daddr, dspeed, max_packet, toggle, ep_found) = match &self.devices[slot] {
            Some(d) => {
                let ep = if is_in {
                    &d.bulk_in
                } else {
                    &d.bulk_out
                };
                match ep {
                    Some(e) => (d.address, d.speed, e.max_packet_size,
                        if is_in {
                            d.bulk_in_toggle
                        } else {
                            d.bulk_out_toggle
                        }, true),
                    None => (0u8, UsbSpeed::High, 0u16, false, false),
                }
            },
            None => (0u8, UsbSpeed::High, 0u16, false, false),
        };
        if !ep_found {
            return Err(UsbError::InvalidParameter);
        }
        let data_len = data.len();

        // Stage the payload for an OUT transfer.
        if !is_in && data_len > 0 {
            self.hw.stage_bytes(DATA_STAGE_OFF, data);
        }

        // One data qTD with Interrupt-on-Complete, using the stored toggle.
        proof {
            assert(0x4040u32 & 0xfff == 0x40) by (bit_vector);
        }
        let mut qtd = QueueTransferDescriptor::data(DATA_AREA_BASE + 64, data_len, is_in,
            toggle);
        let t0 = qtd.token;
        qtd.token = qtd.token | TOKEN_IOC;
        proof {
            assert((t0 | 0x8000) & 0x80 == t0 & 0x80 && ((t0 | 0x8000) >> 8) & 3
                == (t0 >> 8) & 3 && (t0 | 0x8000) & 0x78 == t0 & 0x78
                && ((t0 | 0x8000) >> 16) & 0x7fff == (t0 >> 16) & 0x7fff
                && (t0 | 0x8000) & 0x8000_0000 == t0 & 0x8000_0000
                && (t0 | 0x8000) & 0x8000 != 0) by (bit_vector);
        }
        self.hw.write_qtd(0, qtd);

        // The endpoint's QH, spliced in after the head.
        let mut qh = QueueHead::new(daddr, endpoint, max_packet, dspeed, false);
        qh.overlay.next_qtd = self.hw.qtd_addr(0);
        self.hw.write_qh(1, qh);
        proof {
            assert(!pre.hw.ring@.contains(1int));
        }
        self.hw.ring_insert_after_head(1);

        // The device answers, if the script says so; then poll.
        self.hw.device_act_bulk(0, DATA_STAGE_OFF, data_len, is_in);
        let _saw_done = self.hw.wait_until(WaitCond::QtdDone(0), BUDGET_TRANSFER);
        let ghost t1 = self.hw.trace@;

        // Unsplice and confirm through the doorbell.
        self.hw.ring_remove_after_head(1);
        self.hw.ring_doorbell();
        let ghost t2 = self.hw.trace@;
        let acked = self.hw.wait_until(WaitCond::DoorbellAck, BUDGET_DOORBELL);
        let ghost t3 = self.hw.trace@;
        if acked {
            self.hw.ack_doorbell();
        }
        let ghost t4 = self.hw.trace@;
        proof {
            lemma_xfer_trace_shape(pre.hw.trace@, t1, t2, t3, t4, pre.hw.cmd, 0usize,
                _saw_done, acked);
            assert(pre.hw.ring@.insert(1, 1int).remove(1) =~= seq![0int]);
        }

        // Interpret the completed (or abandoned) qTD.
        let q = self.hw.read_qtd(0);
        if q.token & TOKEN_ACTIVE != 0 {
            self.hw.request_transfer_reset();
            return Err(UsbError::Timeout);
        }
        if q.has_error() {
            proof {
                let e = pre.hw.script@[0].error_bits;
                assert(e & 0x40 != 0 ==> e & 0x78 != 0) by (bit_vector);
            }
            if q.token & TOKEN_HALTED != 0 {
                return Err(UsbError::Stall);
            }
            return Err(UsbError::TransactionError);
        }
        proof {
            if pre.hw.script@.len() > 0 {
                let e = pre.hw.script@[0].error_bits;
                assert(e & 0x78 == 0 ==> e & 0x40 == 0) by (bit_vector);
            }
        }
        let transferred = q.bytes_transferred(data_len);

        // A clean completion advances the endpoint's stored toggle to the
        // value the completed token reports: the next expected toggle.
        let new_toggle = q.token & 0x8000_0000 != 0;
        match &mut self.devices[slot] {
            Some(d) => {
                if is_in {
                    d.bulk_in_toggle = new_toggle;
                } else {
                    d.bulk_out_toggle = new_toggle;
                }
            },
            None => {},
        }

        // For IN, copy what the device delivered.
        if is_in && data_len > 0 {
            let bytes = self.hw.fetch_bytes(DATA_STAGE_OFF, transferred);
            let mut b: usize = 0;
            while b < transferred
                invariant
                    b <= transferred,
                    transferred <= data@.len(),
                    bytes@.len() == transferred,
                    data@.len() == old(data)@.len(),
                    forall|j: int| 0 <= j < b ==> data@[j] == bytes@[j],
                    forall|j: int| b <= j < data@.len() ==> data@[j] == old(data)@[j],
                decreases transferred - b,
            {
                let v = bytes[b];
                data.set(b, v);
                b = b + 1;
            }
            proof {
                assert(bytes@ =~= padded(pre.hw.script@[0].data@, transferred as int));
                assert(data@ =~= padded(pre.hw.script@[0].data@, transferred as int).add(
                    old(data)@.skip(transferred as int)));
            }
            return Ok(transferred);
        }
        Ok(transferred)
    }

    /// Bring the controller up: stop and reset it, install the permanent
    /// async head and the (inert) periodic list, claim the ports, and
    /// start the schedules.  A reset that never self-clears is fatal.
    pub fn init(&mut self) -> (r: Result<(), UsbError>)
        requires
            hw_wf(old(self).hw),
        ensures
            (r is Err) == !old(self).hw.reset_works,
            r is Err ==> r == Err::<(), UsbError>(UsbError::Timeout),
            r is Ok ==> hw_wf(final(self).hw)
                && ring_wf(final(self).hw.qhs@, final(self).hw.ring@)
                && final(self).hw.ring@ == seq![0int]
                && final(self).hw.cmd == CMD_START
                && final(self).hw.configflag == 1
                && final(self).hw.async_base == 0x1000
                && final(self).hw.periodic_base == PERIODIC_LIST_BASE
                && final(self).hw.intr == 0
                && final(self).hw.ctrldsseg == 0
                && final(self).hw.qhs@[0].ep_chars == 0x8000
                && crate::ehci_desc::qh_reclamation_head(final(self).hw.qhs@[0].ep_chars)
                && final(self).hw.qhs@[0].horiz_link_ptr == crate::ehci_hw::qh_link_value(0)
                && final(self).hw.qhs@[0].overlay.next_qtd == 1
                && final(self).hw.qhs@[0].overlay.alt_qtd == 1
                && final(self).hw.qhs@[0].overlay.token == 0
                && final(self).hw.qhs@[0].cur_qtd == 0
                && (forall|k: int| 0 <= k < 1024 ==> final(self).hw.periodic@[k] == 1u32),
            r is Ok ==> exists|b1: bool, b3: bool| final(self).hw.trace@
                == old(self).hw.trace@ + init_trace(old(self).hw.cmd, b1, true, b3),
            r is Err ==> exists|b1: bool| final(self).hw.trace@ == old(self).hw.trace@
                + init_trace(old(self).hw.cmd, b1, false, false).take(4),
            final(self).hw.ports@ == old(self).hw.ports@,
            final(self).hw.script@ == old(self).hw.script@,
            final(self).hw.qhs@.len() == old(self).hw.qhs@.len(),
            final(self).hw.qtds@ == old(self).hw.qtds@,
            final(self).hw.data@ == old(self).hw.data@,
            final(self).hw.latency == old(self).hw.latency,
            final(self).hw.reset_works == old(self).hw.reset_works,
            final(self).devices@ == old(self).devices@,
            final(self).next_address == old(self).next_address,
            final(self).pci_address == old(self).pci_address,
            final(self).num_ports == old(self).num_ports,
    {
        proof {
            let c = old(self).hw.cmd;
            assert(c & 0x42 == 0 ==> (c & 0xffff_fffe) & 0x42 == 0) by (bit_vector);
            assert(0u32 & 0x42 == 0 && 0x0008_0021u32 & 0x42 == 0 && 0u32 & 2 == 0
                && 2u32 & 2 != 0) by (bit_vector);
        }
        let ghost pre = *old(self);
        // Stop the controller and wait for it to halt.
        let c = self.hw.read_cmd();
        self.hw.write_cmd(c & 0xffff_fffe);
        let halted = self.hw.wait_until(WaitCond::Halted, BUDGET_HALT);

        // Reset, and wait for the reset bit to self-clear.
        self.hw.reset_controller();
        let cleared = self.hw.wait_until(WaitCond::ResetClear, BUDGET_RESET);
        let c = self.hw.read_cmd();
        if c & crate::ehci_regs::CMD_HCRESET != 0 {
            proof {
                assert(self.hw.trace@ =~= pre.hw.trace@
                    + init_trace(pre.hw.cmd, halted, false, false).take(4));
            }
            return Err(UsbError::Timeout);
        }

        // Install the permanent, self-referential async head, and the
        // inert periodic frame list: 1024 terminated entries.
        self.hw.install_async_head();
        self.hw.install_periodic_list();

        // Program the list bases; leave interrupts off and use 32-bit
        // addressing.  The periodic list never runs but must be installed.
        self.hw.write_intr(0);
        self.hw.write_periodic_base(PERIODIC_LIST_BASE);
        let head_addr = self.hw.qh_addr(0);
        self.hw.write_async_base(head_addr);
        self.hw.write_ctrldsseg(0);

        // Claim the ports from the companion controllers and start.
        self.hw.write_configflag(1);
        self.hw.write_cmd(CMD_START);
        let running = self.hw.wait_until(WaitCond::Running, BUDGET_RUN);

        // Let the ports stabilise.
        self.hw.delay(100);
        proof {
            assert(self.hw.trace@ =~= pre.hw.trace@
                + init_trace(pre.hw.cmd, halted, cleared, running));
        }
        Ok(())
    }

    /// Shut the controller down before an OS takes over: disable the async
    /// schedule and observe it idle, then the periodic schedule, then stop
    /// the controller and observe the halt, and only then release every
    /// port back to the companion controllers.
    ///
    /// The event log records exactly this order, however long each wait
    /// takes; when the model settles within the budgets every wait is
    /// confirmed.
    pub fn cleanup(&mut self)
        requires
            hw_wf(old(self).hw),
        ensures
            hw_wf(final(self).hw),
            final(self).hw.configflag == 0,
            final(self).hw.cmd == ((old(self).hw.cmd & 0xffff_ffdf) & 0xffff_ffef)
                & 0xffff_fffe,
            final(self).hw.cmd & CMD_RS == 0,
            final(self).hw.cmd & CMD_ASE == 0,
            final(self).hw.cmd & CMD_PSE == 0,
            exists|a1: bool, a2: bool, a3: bool| final(self).hw.trace@ == old(self).hw.trace@
                + cleanup_trace(old(self).hw.cmd, a1, a2, a3),
            old(self).hw.latency + 1 <= BUDGET_SCHED ==> final(self).hw.trace@
                == old(self).hw.trace@ + cleanup_trace(old(self).hw.cmd, true, true, true),
            final(self).hw.ports@ == old(self).hw.ports@,
            final(self).hw.script@ == old(self).hw.script@,
            final(self).hw.qhs@ == old(self).hw.qhs@,
            final(self).hw.qtds@ == old(self).hw.qtds@,
            final(self).hw.data@ == old(self).hw.data@,
            final(self).hw.ring@ == old(self).hw.ring@,
            final(self).hw.latency == old(self).hw.latency,
            final(self).hw.reset_works == old(self).hw.reset_works,
            final(self).devices@ == old(self).devices@,
            final(self).next_address == old(self).next_address,
            final(self).pci_address == old(self).pci_address,
            final(self).num_ports == old(self).num_ports,
    {
        let ghost pre = *old(self);
        proof {
            let c = pre.hw.cmd;
            assert(c & 0x42 == 0 ==> {
                let c1 = c & 0xffff_ffdf;
                let c2 = c1 & 0xffff_ffef;
                let c3 = c2 & 0xffff_fffe;
                (c1 & 0x42 == 0 && c2 & 0x42 == 0 && c3 & 0x42 == 0 && c1 & 0x20 == 0
                    && c2 & 0x10 == 0 && c3 & 0x01 == 0 && c3 & 0x20 == 0 && c3 & 0x10 == 0)
            }) by (bit_vector);
        }

        // 1. Disable the async schedule and wait for its status bit.
        let c = self.hw.read_cmd();
        let c1 = c & 0xffff_ffdf;
        self.hw.write_cmd(c1);
        proof {
            lemma_sts_bits(c1, self.hw.iaa);
        }
        let a1 = self.hw.wait_until(WaitCond::AsyncIdle, BUDGET_SCHED);

        // 2. Disable the periodic schedule and wait for its status bit.
        let c = self.hw.read_cmd();
        let c2 = c & 0xffff_ffef;
        self.hw.write_cmd(c2);
        proof {
            lemma_sts_bits(c2, self.hw.iaa);
        }
        let a2 = self.hw.wait_until(WaitCond::PeriodicIdle, BUDGET_SCHED);

        // 3. Stop the controller and wait for the halt.
        let c = self.hw.read_cmd();
        let c3 = c & 0xffff_fffe;
        self.hw.write_cmd(c3);
        proof {
            lemma_sts_bits(c3, self.hw.iaa);
        }
        let a3 = self.hw.wait_until(WaitCond::Halted, BUDGET_HALT);

        // 4. Hand every port back to the companion controllers.
        self.hw.write_configflag(0);

        proof {
            assert(self.hw.trace@ =~= pre.hw.trace@ + cleanup_trace(pre.hw.cmd, a1, a2, a3));
        }
    }

    /// Attach the device freshly connected on `port`: learn endpoint 0's
    /// packet size, assign the next free address, read the device and
    /// configuration descriptors, classify the device and select its
    /// configuration, then store the record in a free table slot.
    ///
    /// Failure of any request abandons the port: the table is left
    /// unchanged (though an address may have been consumed).
    #[verifier::rlimit(100)]
    #[verifier::spinoff_prover]
    pub fn attach_device(&mut self, port: u8) -> (r: Result<(), UsbError>)
        requires
            ctl_wf(*old(self)),
        ensures
            ctl_wf(*final(self)),
            final(self).pci_address == old(self).pci_address,
            final(self).num_ports == old(self).num_ports,
            final(self).hw.ports@ == old(self).hw.ports@,
            final(self).hw.periodic@ == old(self).hw.periodic@,
            final(self).hw.periodic_base == old(self).hw.periodic_base,
            final(self).hw.latency == old(self).hw.latency,
            final(self).hw.reset_works == old(self).hw.reset_works,
            final(self).devices@.len() == old(self).devices@.len(),
            forall|j: int| 0 <= j < old(self).devices@.len()
                && (#[trigger] old(self).devices@[j]) is Some
                ==> final(self).devices@[j] == old(self).devices@[j],
            forall|j: int| 0 <= j < old(self).devices@.len()
                && #[trigger] final(self).devices@[j] != old(self).devices@[j]
                ==> old(self).devices@[j] is None && final(self).devices@[j] is Some
                    && final(self).devices@[j]->Some_0.port == port,
            r is Err ==> final(self).devices@ == old(self).devices@,
            r is Err ==> r == Err::<(), UsbError>(UsbError::NoFreeSlots)
                || r == Err::<(), UsbError>(UsbError::Timeout)
                || r == Err::<(), UsbError>(UsbError::Stall)
                || r == Err::<(), UsbError>(UsbError::TransactionError),
            old(self).next_address <= final(self).next_address,
            final(self).next_address <= old(self).next_address + 1,
            r is Ok ==> exists|j: int| 0 <= j < old(self).devices@.len()
                && (#[trigger] old(self).devices@[j]) is None
                && final(self).devices@ == old(self).devices@.update(j,
                    final(self).devices@[j])
                && final(self).devices@[j] is Some
                && final(self).devices@[j]->Some_0.port == port
                && final(self).devices@[j]->Some_0.address == old(self).next_address
                && final(self).devices@[j]->Some_0.ep0_max_packet
                    == spec_attach_ep0(old(self).hw.script@)
                && dev_classified(final(self).devices@[j]->Some_0)
                && final(self).next_address == old(self).next_address + 1,
            forall|k: int| (0 <= k < 5
                && (forall|m: int| 0 <= m < k
                    ==> xfer_outcome(script_after_n(old(self).hw.script@, m)) is Done)
                && !(#[trigger] xfer_outcome(script_after_n(old(self).hw.script@, k))
                    is Done)
                && old(self).next_address < 128
                && (exists|j: int| 0 <= j < old(self).devices@.len()
                    && (#[trigger] old(self).devices@[j]) is None))
                ==> r == Err::<(), UsbError>(spec_err_of(xfer_outcome(script_after_n(
                    old(self).hw.script@, k)))),
            old(self).next_address >= 128 ==> r == Err::<(), UsbError>(UsbError::NoFreeSlots)
                && *final(self) == *old(self),
            no_port_writes_between(old(self).hw.trace@, final(self).hw.trace@),
            final(self).hw.script@.len() <= old(self).hw.script@.len(),
            old(self).hw.script@.len() <= final(self).hw.script@.len() + 6,
            (attach_script_clean(old(self).hw.script@) && old(self).next_address < 128
                && (exists|j: int| 0 <= j < old(self).devices@.len()
                    && (#[trigger] old(self).devices@[j]) is None))
                ==> r is Ok && final(self).next_address == old(self).next_address + 1
                    && (exists|j: int| 0 <= j < old(self).devices@.len()
                    && (#[trigger] old(self).devices@[j]) is None
                    && (forall|k: int| 0 <= k < j ==> old(self).devices@[k] is Some)
                    && final(self).devices@ == old(self).devices@.update(j,
                        final(self).devices@[j])
                    && final(self).devices@[j] is Some
                    && attach_record_exact(old(self).hw.script@, port,
                        old(self).next_address, final(self).devices@[j]->Some_0)
                    && dev_classified(final(self).devices@[j]->Some_0))
                    && final(self).hw.req_log@ == old(self).hw.req_log@
                        + attach_requests(old(self).hw.script@, old(self).next_address),
    {
        let ghost pre = *old(self);
        // Allocate an address and a table slot.
        let address = self.next_address;
        if address >= 128 {
            return Err(UsbError::NoFreeSlots);
        }
        let mut slot: usize = 0;
        let mut found = false;
        while slot < self.devices.len() && !found
            invariant
                slot <= self.devices@.len(),
                found ==> slot < self.devices@.len() && self.devices@[slot as int] is None,
                forall|j: int| 0 <= j < slot ==> (#[trigger] self.devices@[j]) is Some,
                *self == pre,
            decreases self.devices@.len() - slot, (if found { 0int } else { 1int }),
        {
            let free = match &self.devices[slot] {
                None => true,
                Some(_) => false,
            };
            if free {
                found = true;
            } else {
                slot = slot + 1;
            }
        }
        if !found {
            return Err(UsbError::NoFreeSlots);
        }

        // Talk to the device at address 0 first: the first 8 descriptor
        // bytes give endpoint 0's real max packet size.
        let ghost s = pre.hw.script@;
        proof {
            assert(((0x80u8 | 0x00 | 0x00) & 0x80 != 0)
                && ((0x00u8 | 0x00 | 0x00) & 0x80 == 0)
                && (0x80u8 | 0x00 | 0x00) == 0x80 && (0x00u8 | 0x00 | 0x00) == 0x00
                && (1u16 << 8) == 0x100 && (2u16 << 8) == 0x200) by (bit_vector);
            if attach_script_clean(s) {
                let e0 = s[0].error_bits;
                let e1 = s[1].error_bits;
                let e2 = s[2].error_bits;
                let e3 = s[3].error_bits;
                let e4 = s[4].error_bits;
                let e5 = s[5].error_bits;
                assert(e0 & 0x78 == 0 ==> e0 & 0x40 == 0) by (bit_vector);
                assert(e1 & 0x78 == 0 ==> e1 & 0x40 == 0) by (bit_vector);
                assert(e2 & 0x78 == 0 ==> e2 & 0x40 == 0) by (bit_vector);
                assert(e3 & 0x78 == 0 ==> e3 & 0x40 == 0) by (bit_vector);
                assert(e4 & 0x78 == 0 ==> e4 & 0x40 == 0) by (bit_vector);
                assert(e5 & 0x78 == 0 ==> e5 & 0x40 == 0) by (bit_vector);
            }
        }
        let mut dev = EhciDevice::new(0, port, UsbSpeed::High);
        let mut buf8: Vec<u8> = zero_vec(8);
        let r1 = self.control_transfer_internal(&dev,
            REQ_DIR_IN | REQ_TYPE_STANDARD | REQ_RCPT_DEVICE, REQUEST_GET_DESCRIPTOR,
            (DESC_TYPE_DEVICE as u16) << 8, 0, &mut buf8);
        let ghost s1 = self.hw.script@;
        let ghost tr1 = self.hw.trace@;
        proof {
            assert(s1 == script_after_n(s, 1));
            if attach_script_clean(s) {
                s.remove_ensures(0);
                assert(buf8@ =~= padded(s[0].data@, 8));
            }
        }
        match r1 {
            Ok(_) => {},
            Err(e) => {
                proof {
                    assert(!(xfer_outcome(script_after_n(s, 0)) is Done));
                    assert(e == spec_err_of(xfer_outcome(script_after_n(s, 0))));
                    lemma_attach_err_attr(s, 0, e);
                }
                return Err(e);
            },
        }
        proof {
            assert(xfer_outcome(script_after_n(s, 0)) is Done);
            assert(buf8@[7] == attach_ep0_byte(s));
        }
        let mp = buf8[7];
        dev.ep0_max_packet = if mp >= 8 {
            mp as u16
        } else {
            8
        };
        proof {
            assert(dev.ep0_max_packet == spec_attach_ep0(s));
        }

        // Assign the address, then give the device its recovery time.
        let mut nodata: Vec<u8> = Vec::new();
        let r2 = self.control_transfer_internal(&dev,
            REQ_DIR_OUT | REQ_TYPE_STANDARD | REQ_RCPT_DEVICE, REQUEST_SET_ADDRESS,
            address as u16, 0, &mut nodata);
        let ghost s2 = self.hw.script@;
        let ghost tr2 = self.hw.trace@;
        proof {
            assert(s2 == script_after_n(s, 2));
            lemma_no_port_writes_trans(pre.hw.trace@, tr1, tr2);
            if attach_script_clean(s) {
                s1.remove_ensures(0);
            }
        }
        match r2 {
            Ok(_) => {},
            Err(e) => {
                proof {
                    assert(!(xfer_outcome(script_after_n(s, 1)) is Done));
                    assert(e == spec_err_of(xfer_outcome(script_after_n(s, 1))));
                    lemma_attach_err_attr(s, 1, e);
                }
                return Err(e);
            },
        }
        proof {
            assert(xfer_outcome(script_after_n(s, 1)) is Done);
        }
        self.hw.delay(2);
        let ghost tr2d = self.hw.trace@;
        proof {
            assert(no_port_writes_between(tr2, tr2d));
            lemma_no_port_writes_trans(pre.hw.trace@, tr2, tr2d);
        }
        dev.address = address;
        self.next_address = address + 1;

        // The full device descriptor, now at the new address.
        let mut buf18: Vec<u8> = zero_vec(18);
        let r3 = self.control_transfer_internal(&dev,
            REQ_DIR_IN | REQ_TYPE_STANDARD | REQ_RCPT_DEVICE, REQUEST_GET_DESCRIPTOR,
            (DESC_TYPE_DEVICE as u16) << 8, 0, &mut buf18);
        let ghost s3 = self.hw.script@;
        let ghost tr3 = self.hw.trace@;
        proof {
            assert(s3 == script_after_n(s, 3));
            lemma_no_port_writes_trans(pre.hw.trace@, tr2d, tr3);
            if attach_script_clean(s) {
                s2.remove_ensures(0);
                assert(s2[0] == s[2]);
                assert(buf18@ =~= padded(s[2].data@, 18));
            }
        }
        match r3 {
            Ok(_) => {},
            Err(e) => {
                proof {
                    assert(!(xfer_outcome(script_after_n(s, 2)) is Done));
                    assert(e == spec_err_of(xfer_outcome(script_after_n(s, 2))));
                    lemma_attach_err_attr(s, 2, e);
                }
                return Err(e);
            },
        }
        proof {
            assert(xfer_outcome(script_after_n(s, 2)) is Done);
        }
        dev.device_desc = DeviceDescriptor::parse(&buf18);

        // The configuration descriptor: header first for the total length,
        // then the whole table, bounded by the staging buffer.
        let mut buf9: Vec<u8> = zero_vec(9);
        let r4 = self.control_transfer_internal(&dev,
            REQ_DIR_IN | REQ_TYPE_STANDARD | REQ_RCPT_DEVICE, REQUEST_GET_DESCRIPTOR,
            (DESC_TYPE_CONFIGURATION as u16) << 8, 0, &mut buf9);
        let ghost s4 = self.hw.script@;
        let ghost tr4 = self.hw.trace@;
        proof {
            assert(s4 == script_after_n(s, 4));
            lemma_no_port_writes_trans(pre.hw.trace@, tr3, tr4);
            if attach_script_clean(s) {
                s3.remove_ensures(0);
                assert(s3[0] == s[3]);
                assert(buf9@ =~= padded(s[3].data@, 9));
            }
        }
        match r4 {
            Ok(_) => {},
            Err(e) => {
                proof {
                    assert(!(xfer_outcome(script_after_n(s, 3)) is Done));
                    assert(e == spec_err_of(xfer_outcome(script_after_n(s, 3))));
                    lemma_attach_err_attr(s, 3, e);
                }
                return Err(e);
            },
        }
        proof {
            assert(xfer_outcome(script_after_n(s, 3)) is Done);
        }
        let tl: usize = buf9[2] as usize + 256 * (buf9[3] as usize);
        let total_len: usize = if tl > 256 {
            256
        } else {
            tl
        };
        let mut cfg_buf: Vec<u8> = zero_vec(total_len);
        let r5 = self.control_transfer_internal(&dev,
            REQ_DIR_IN | REQ_TYPE_STANDARD | REQ_RCPT_DEVICE, REQUEST_GET_DESCRIPTOR,
            (DESC_TYPE_CONFIGURATION as u16) << 8, 0, &mut cfg_buf);
        let ghost tr5 = self.hw.trace@;
        proof {
            assert(self.hw.script@ == script_after_n(s, 5));
            lemma_no_port_writes_trans(pre.hw.trace@, tr4, tr5);
            if attach_script_clean(s) {
                s4.remove_ensures(0);
                assert(s4[0] == s[4]);
                assert(total_len as int == attach_cfg_len(padded(s[3].data@, 9)));
                assert(cfg_buf@ =~= padded(s[4].data@, attach_cfg_len(padded(s[3].data@, 9))));
            }
        }
        match r5 {
            Ok(_) => {},
            Err(e) => {
                proof {
                    assert(!(xfer_outcome(script_after_n(s, 4)) is Done));
                    assert(e == spec_err_of(xfer_outcome(script_after_n(s, 4))));
                    lemma_attach_err_attr(s, 4, e);
                }
                return Err(e);
            },
        }
        proof {
            assert(xfer_outcome(script_after_n(s, 4)) is Done);
        }
        dev.config_info = parse_configuration(&cfg_buf);

        // Classify: mass storage and keyboard may both apply.
        let (is_ms, is_kb, bulk_in, bulk_out, int_in) = classify_config(&dev.config_info);
        dev.is_mass_storage = is_ms;
        dev.is_hid_keyboard = is_kb;
        dev.bulk_in = bulk_in;
        dev.bulk_out = bulk_out;
        dev.interrupt_in = int_in;

        // Select the configuration the descriptor names, if any.
        let cfg_value = dev.config_info.configuration_value;
        if cfg_value > 0 {
            let mut nodata2: Vec<u8> = Vec::new();
            let r6 = self.control_transfer_internal(&dev,
                REQ_DIR_OUT | REQ_TYPE_STANDARD | REQ_RCPT_DEVICE,
                REQUEST_SET_CONFIGURATION, cfg_value as u16, 0, &mut nodata2);
            proof {
                lemma_no_port_writes_trans(pre.hw.trace@, tr5, self.hw.trace@);
            }
            match r6 {
                Ok(_) => {},
                Err(e) => {
                    proof {
                        assert forall|k: int| (0 <= k < 5
                            && (forall|m: int| 0 <= m < k
                                ==> xfer_outcome(script_after_n(s, m)) is Done)
                            && !(xfer_outcome(script_after_n(s, k)) is Done))
                            implies Err::<(), UsbError>(e) == Err::<(), UsbError>(
                                spec_err_of(xfer_outcome(script_after_n(s, k)))) by {
                            assert(xfer_outcome(script_after_n(s, k)) is Done);
                        }
                    }
                    return Err(e);
                },
            }
        }

        proof {
            if attach_script_clean(s) {
                assert(self.hw.req_log@ =~= pre.hw.req_log@ + attach_requests(s, address));
            }

        }
        self.devices.set(slot, Some(dev));
        Ok(())
    }

    /// Drive one root port through the enumeration state machine: skip an
    /// empty port, release a K-state (low-speed) port to the companion
    /// controller untouched, otherwise reset it; a port that fails to
    /// enable after reset carries a full-speed device and is released too,
    /// an enabled one carries a high-speed device and gets attached.
    fn handle_port(&mut self, p: usize)
        requires
            ctl_wf(*old(self)),
            p < old(self).hw.ports@.len(),
        ensures
            ctl_wf(*final(self)),
            final(self).pci_address == old(self).pci_address,
            final(self).num_ports == old(self).num_ports,
            final(self).hw.latency == old(self).hw.latency,
            final(self).hw.reset_works == old(self).hw.reset_works,
            final(self).hw.periodic@ == old(self).hw.periodic@,
            final(self).hw.periodic_base == old(self).hw.periodic_base,
            final(self).hw.ports@.len() == old(self).hw.ports@.len(),
            forall|q: int| 0 <= q < old(self).hw.ports@.len() && q != p
                ==> final(self).hw.ports@[q] == old(self).hw.ports@[q],
            final(self).devices@.len() == old(self).devices@.len(),
            forall|j: int| 0 <= j < old(self).devices@.len()
                && (#[trigger] old(self).devices@[j]) is Some
                ==> final(self).devices@[j] == old(self).devices@[j],
            forall|j: int| 0 <= j < old(self).devices@.len()
                && #[trigger] final(self).devices@[j] != old(self).devices@[j]
                ==> old(self).devices@[j] is None && final(self).devices@[j] is Some
                    && final(self).devices@[j]->Some_0.port == p as u8
                    && port_attachable(old(self).hw.ports@[p as int]),
            port_writes_only_to(old(self).hw.trace@, final(self).hw.trace@, p),
            !old(self).hw.ports@[p as int].connected
                ==> final(self).hw.ports@ == old(self).hw.ports@
                    && final(self).devices@ == old(self).devices@
                    && final(self).next_address == old(self).next_address
                    && final(self).hw.script@ == old(self).hw.script@
                    && final(self).hw.trace@ == old(self).hw.trace@,
            old(self).hw.ports@[p as int].connected && old(self).hw.ports@[p as int].k_state
                ==> final(self).hw.ports@[p as int].owner
                    && !final(self).hw.ports@[p as int].enabled
                    && final(self).devices@ == old(self).devices@
                    && final(self).next_address == old(self).next_address
                    && final(self).hw.script@ == old(self).hw.script@
                    && final(self).hw.trace@ == old(self).hw.trace@.push(
                        HwOp::WritePort(p, 0x2000)),
            (old(self).hw.ports@[p as int].connected && !old(self).hw.ports@[p as int].k_state
                && !(old(self).hw.ports@[p as int].high_speed
                    && !old(self).hw.ports@[p as int].owner))
                ==> final(self).hw.ports@[p as int].owner
                    && !final(self).hw.ports@[p as int].enabled
                    && final(self).devices@ == old(self).devices@
                    && final(self).next_address == old(self).next_address
                    && final(self).hw.script@ == old(self).hw.script@,
            old(self).next_address <= final(self).next_address,
            final(self).next_address <= old(self).next_address + 1,
            !port_attachable(old(self).hw.ports@[p as int])
                ==> final(self).next_address == old(self).next_address,
            port_attachable(old(self).hw.ports@[p as int])
                ==> final(self).hw.ports@[p as int].enabled
                    && !final(self).hw.ports@[p as int].owner,
            (port_attachable(old(self).hw.ports@[p as int])
                && attach_script_clean(old(self).hw.script@)
                && old(self).next_address < 128
                && (exists|j: int| 0 <= j < old(self).devices@.len()
                    && (#[trigger] old(self).devices@[j]) is None))
                ==> final(self).next_address == old(self).next_address + 1
                    && (exists|j: int| 0 <= j < old(self).devices@.len()
                    && (#[trigger] old(self).devices@[j]) is None
                    && (forall|k: int| 0 <= k < j ==> old(self).devices@[k] is Some)
                    && final(self).devices@ == old(self).devices@.update(j,
                        final(self).devices@[j])
                    && final(self).devices@[j] is Some
                    && attach_record_exact(old(self).hw.script@, p as u8,
                        old(self).next_address, final(self).devices@[j]->Some_0)
                    && dev_classified(final(self).devices@[j]->Some_0)),
    {
        let ps = self.hw.read_port(p);
        if !ps.connected {
            return;
        }

        // K-state line signalling: a classic low-speed device; the
        // companion controller drives it, reset is skipped entirely.
        if ps.k_state {
            self.hw.set_port_owner(p);
            return;
        }

        // Drive the mandated reset pulse, then let the port settle.
        let ghost pre = *old(self);
        self.hw.begin_port_reset(p);
        let ghost ta = self.hw.trace@;
        self.hw.delay(50);
        self.hw.end_port_reset(p);
        let ghost tb = self.hw.trace@;
        self.hw.delay(10);
        proof {
            assert(port_writes_only_to(pre.hw.trace@, ta, p));
            assert(port_writes_only_to(ta, tb, p));
            lemma_port_writes_only_trans(pre.hw.trace@, ta, tb, p);
        }

        // Port-Enable after reset separates high speed from full speed.
        let ps2 = self.hw.read_port(p);
        if !ps2.enabled {
            self.hw.set_port_owner(p);
            proof {
                assert(port_writes_only_to(tb, self.hw.trace@, p));
                lemma_port_writes_only_trans(pre.hw.trace@, tb, self.hw.trace@, p);
            }
            return;
        }

        self.hw.clear_port_changes(p);
        let ghost tc = self.hw.trace@;
        proof {
            assert(port_writes_only_to(tb, tc, p));
            lemma_port_writes_only_trans(pre.hw.trace@, tb, tc, p);
        }
        let _attached = self.attach_device(p as u8);
        proof {
            lemma_no_port_writes_weaken(tc, self.hw.trace@, p);
            lemma_port_writes_only_trans(pre.hw.trace@, tc, self.hw.trace@, p);
        }
    }

    /// Walk every root port once, classifying and attaching as `handle_port`
    /// does for each.  Per-port failures never abort the pass.
    pub fn enumerate_ports(&mut self) -> (r: Result<(), UsbError>)
        requires
            ctl_wf(*old(self)),
        ensures
            r is Ok,
            ctl_wf(*final(self)),
            final(self).pci_address == old(self).pci_address,
            final(self).num_ports == old(self).num_ports,
            final(self).hw.latency == old(self).hw.latency,
            final(self).hw.reset_works == old(self).hw.reset_works,
            final(self).hw.periodic@ == old(self).hw.periodic@,
            final(self).hw.periodic_base == old(self).hw.periodic_base,
            final(self).hw.ports@.len() == old(self).hw.ports@.len(),
            final(self).devices@.len() == old(self).devices@.len(),
            forall|j: int| 0 <= j < old(self).devices@.len()
                && (#[trigger] old(self).devices@[j]) is Some
                ==> final(self).devices@[j] == old(self).devices@[j],
            forall|j: int| 0 <= j < old(self).devices@.len()
                && #[trigger] final(self).devices@[j] != old(self).devices@[j]
                ==> old(self).devices@[j] is None && final(self).devices@[j] is Some
                    && (final(self).devices@[j]->Some_0.port as int)
                        < old(self).hw.ports@.len()
                    && port_attachable(old(self).hw.ports@[
                        final(self).devices@[j]->Some_0.port as int]),
            forall|p: int| 0 <= p < old(self).hw.ports@.len()
                && !(#[trigger] old(self).hw.ports@[p]).connected
                ==> final(self).hw.ports@[p] == old(self).hw.ports@[p],
            forall|p: int| 0 <= p < old(self).hw.ports@.len()
                && (#[trigger] old(self).hw.ports@[p]).connected
                && old(self).hw.ports@[p].k_state
                ==> final(self).hw.ports@[p].owner && !final(self).hw.ports@[p].enabled,
            forall|p: int| 0 <= p < old(self).hw.ports@.len()
                && (#[trigger] old(self).hw.ports@[p]).connected
                && !old(self).hw.ports@[p].k_state
                && !(old(self).hw.ports@[p].high_speed && !old(self).hw.ports@[p].owner)
                ==> final(self).hw.ports@[p].owner && !final(self).hw.ports@[p].enabled,
            forall|p: int| 0 <= p < old(self).hw.ports@.len()
                && port_attachable(#[trigger] old(self).hw.ports@[p])
                ==> final(self).hw.ports@[p].enabled && !final(self).hw.ports@[p].owner,
            old(self).next_address <= final(self).next_address,
            final(self).next_address <= old(self).next_address
                + count_attachable(old(self).hw.ports@),
            (forall|q: int| 0 <= q < old(self).hw.ports@.len()
                ==> !port_attachable(#[trigger] old(self).hw.ports@[q]))
                ==> final(self).next_address == old(self).next_address,
            trace_extends(old(self).hw.trace@, final(self).hw.trace@),
            forall|q: int, j: int| (0 <= q < old(self).hw.ports@.len()
                && (#[trigger] old(self).hw.ports@[q]).connected
                && old(self).hw.ports@[q].k_state
                && old(self).hw.trace@.len() <= j < final(self).hw.trace@.len())
                ==> #[trigger] final(self).hw.trace@[j]
                    != HwOp::WritePort(q as usize, 0x100),
            forall|p0: int| (#[trigger] only_attachable(old(self).hw.ports@, p0)
                && attach_script_clean(old(self).hw.script@)
                && old(self).next_address < 128
                && (exists|j: int| 0 <= j < old(self).devices@.len()
                    && (#[trigger] old(self).devices@[j]) is None))
                ==> final(self).next_address == old(self).next_address + 1
                    && (exists|j: int| 0 <= j < old(self).devices@.len()
                    && (#[trigger] old(self).devices@[j]) is None
                    && (forall|k: int| 0 <= k < j ==> old(self).devices@[k] is Some)
                    && final(self).devices@ == old(self).devices@.update(j,
                        final(self).devices@[j])
                    && final(self).devices@[j] is Some
                    && attach_record_exact(old(self).hw.script@, p0 as u8,
                        old(self).next_address, final(self).devices@[j]->Some_0)
                    && dev_classified(final(self).devices@[j]->Some_0)),
    {
        let ghost pre = *old(self);
        let n = self.num_ports as usize;
        let mut p: usize = 0;
        while p < n
            invariant
                ctl_wf(*self),
                n == pre.hw.ports@.len(),
                p <= n,
                self.pci_address == pre.pci_address,
                self.num_ports == pre.num_ports,
                self.hw.latency == pre.hw.latency,
                self.hw.reset_works == pre.hw.reset_works,
                self.hw.periodic@ == pre.hw.periodic@,
                self.hw.periodic_base == pre.hw.periodic_base,
                self.hw.ports@.len() == pre.hw.ports@.len(),
                self.devices@.len() == pre.devices@.len(),
                forall|j: int| 0 <= j < pre.devices@.len()
                    && (#[trigger] pre.devices@[j]) is Some
                    ==> self.devices@[j] == pre.devices@[j],
                forall|j: int| 0 <= j < pre.devices@.len()
                    && #[trigger] self.devices@[j] != pre.devices@[j]
                    ==> pre.devices@[j] is None && self.devices@[j] is Some
                        && (self.devices@[j]->Some_0.port as int) < pre.hw.ports@.len()
                        && port_attachable(pre.hw.ports@[
                            self.devices@[j]->Some_0.port as int]),
                forall|q: int| p <= q < pre.hw.ports@.len()
                    ==> #[trigger] self.hw.ports@[q] == pre.hw.ports@[q],
                forall|q: int| 0 <= q < p && !(#[trigger] pre.hw.ports@[q]).connected
                    ==> self.hw.ports@[q] == pre.hw.ports@[q],
                forall|q: int| 0 <= q < p && (#[trigger] pre.hw.ports@[q]).connected
                    && pre.hw.ports@[q].k_state
                    ==> self.hw.ports@[q].owner && !self.hw.ports@[q].enabled,
                forall|q: int| 0 <= q < p && (#[trigger] pre.hw.ports@[q]).connected
                    && !pre.hw.ports@[q].k_state
                    && !(pre.hw.ports@[q].high_speed && !pre.hw.ports@[q].owner)
                    ==> self.hw.ports@[q].owner && !self.hw.ports@[q].enabled,
                forall|q: int| 0 <= q < p && port_attachable(#[trigger] pre.hw.ports@[q])
                    ==> self.hw.ports@[q].enabled && !self.hw.ports@[q].owner,
                pre.next_address <= self.next_address,
                self.next_address <= pre.next_address
                    + count_attachable_prefix(pre.hw.ports@, p as int),
                trace_extends(pre.hw.trace@, self.hw.trace@),
                forall|q: int, j: int| (0 <= q < pre.hw.ports@.len()
                    && (#[trigger] pre.hw.ports@[q]).connected && pre.hw.ports@[q].k_state
                    && pre.hw.trace@.len() <= j < self.hw.trace@.len())
                    ==> #[trigger] self.hw.trace@[j]
                        != HwOp::WritePort(q as usize, 0x100),
                forall|p0: int| (#[trigger] only_attachable(pre.hw.ports@, p0)
                    && attach_script_clean(pre.hw.script@) && pre.next_address < 128
                    && (exists|j: int| 0 <= j < pre.devices@.len()
                        && (#[trigger] pre.devices@[j]) is None))
                    ==> (p <= p0 ==> self.hw.script@ == pre.hw.script@
                            && self.devices@ == pre.devices@
                            && self.next_address == pre.next_address)
                        && (p > p0 ==> self.next_address == pre.next_address + 1
                            && (exists|j: int| 0 <= j < pre.devices@.len()
                            && (#[trigger] pre.devices@[j]) is None
                            && (forall|k: int| 0 <= k < j ==> pre.devices@[k] is Some)
                            && self.devices@ == pre.devices@.update(j, self.devices@[j])
                            && self.devices@[j] is Some
                            && attach_record_exact(pre.hw.script@, p0 as u8,
                                pre.next_address, self.devices@[j]->Some_0)
                            && dev_classified(self.devices@[j]->Some_0))),
            decreases n - p,
        {
            let ghost before = *self;
            self.handle_port(p);
            proof {
                lemma_trace_extends_trans(pre.hw.trace@, before.hw.trace@, self.hw.trace@);
                assert forall|q: int, j: int| (0 <= q < pre.hw.ports@.len()
                    && (#[trigger] pre.hw.ports@[q]).connected && pre.hw.ports@[q].k_state
                    && pre.hw.trace@.len() <= j < self.hw.trace@.len())
                    implies #[trigger] self.hw.trace@[j]
                        != HwOp::WritePort(q as usize, 0x100) by {
                    if j < before.hw.trace@.len() {
                        assert(self.hw.trace@[j] == before.hw.trace@[j]);
                    } else if q == p as int {
                        // the port being driven is K-state: its whole
                        // extension is the single companion hand-off write
                        assert(before.hw.ports@[p as int] == pre.hw.ports@[p as int]);
                        assert(self.hw.trace@ == before.hw.trace@.push(
                            HwOp::WritePort(p, 0x2000)));
                        assert(j == before.hw.trace@.len());
                    } else {
                        // another port's turn: its writes go to that port
                        assert(self.hw.trace@[j] is WritePort
                            ==> self.hw.trace@[j]->WritePort_0 == p);
                    }
                }
                assert forall|p0: int| (#[trigger] only_attachable(pre.hw.ports@, p0)
                    && attach_script_clean(pre.hw.script@) && pre.next_address < 128
                    && (exists|j: int| 0 <= j < pre.devices@.len()
                        && (#[trigger] pre.devices@[j]) is None))
                    implies (p + 1 <= p0 ==> self.hw.script@ == pre.hw.script@
                            && self.devices@ == pre.devices@
                            && self.next_address == pre.next_address)
                        && (p + 1 > p0 ==> self.next_address == pre.next_address + 1
                            && (exists|j: int| 0 <= j < pre.devices@.len()
                            && (#[trigger] pre.devices@[j]) is None
                            && (forall|k: int| 0 <= k < j ==> pre.devices@[k] is Some)
                            && self.devices@ == pre.devices@.update(j, self.devices@[j])
                            && self.devices@[j] is Some
                            && attach_record_exact(pre.hw.script@, p0 as u8,
                                pre.next_address, self.devices@[j]->Some_0)
                            && dev_classified(self.devices@[j]->Some_0))) by {
                    if (p as int) < p0 {
                        // a port before the attachable one: not attachable,
                        // so nothing was consumed or stored
                        assert(!port_attachable(pre.hw.ports@[p as int]));
                        assert(before.hw.ports@[p as int] == pre.hw.ports@[p as int]);
                    } else if (p as int) == p0 {
                        // the attachable port: the attach sequence ran on
                        // the untouched script
                        assert(port_attachable(before.hw.ports@[p as int]));
                    } else {
                        // past the attachable port: the stored record stays
                        assert(!port_attachable(pre.hw.ports@[p as int]));
                        assert(before.hw.ports@[p as int] == pre.hw.ports@[p as int]);
                    }
                }
            }
            p = p + 1;
        }
        proof {
            if forall|q: int| 0 <= q < pre.hw.ports@.len()
                ==> !port_attachable(#[trigger] pre.hw.ports@[q]) {
                lemma_count_attachable_zero(pre.hw.ports@, pre.hw.ports@.len() as int);
            }
        }
        Ok(())
    }

    /// Build and start a controller on the given hardware: bring it up,
    /// then enumerate every root port once.  A controller whose reset never
    /// clears is discarded.
    pub fn new(pci_address: PciAddress, hw: EhciHw) -> (r: Result<EhciController, UsbError>)
        requires
            hw_wf(hw),
        ensures
            (r is Err) == !hw.reset_works,
            r is Err ==> r == Err::<EhciController, UsbError>(UsbError::Timeout),
            r is Ok ==> ctl_wf(r->Ok_0) && r->Ok_0.pci_address == pci_address
                && r->Ok_0.num_ports as int == hw.ports@.len()
                && r->Ok_0.hw.latency == hw.latency
                && r->Ok_0.hw.periodic_base == PERIODIC_LIST_BASE
                && (forall|k: int| 0 <= k < 1024 ==> r->Ok_0.hw.periodic@[k] == 1u32)
                && (forall|j: int| 0 <= j < r->Ok_0.devices@.len()
                    && (#[trigger] r->Ok_0.devices@[j]) is Some
                    ==> (r->Ok_0.devices@[j]->Some_0.port as int) < hw.ports@.len()
                        && port_attachable(hw.ports@[
                            r->Ok_0.devices@[j]->Some_0.port as int]))
                && (forall|p: int| 0 <= p < hw.ports@.len()
                    && (#[trigger] hw.ports@[p]).connected && hw.ports@[p].k_state
                    ==> r->Ok_0.hw.ports@[p].owner && !r->Ok_0.hw.ports@[p].enabled)
                && (forall|p: int| 0 <= p < hw.ports@.len()
                    && (#[trigger] hw.ports@[p]).connected && !hw.ports@[p].k_state
                    && !(hw.ports@[p].high_speed && !hw.ports@[p].owner)
                    ==> r->Ok_0.hw.ports@[p].owner && !r->Ok_0.hw.ports@[p].enabled)
                && (forall|p: int| 0 <= p < hw.ports@.len()
                    && port_attachable(#[trigger] hw.ports@[p])
                    ==> r->Ok_0.hw.ports@[p].enabled && !r->Ok_0.hw.ports@[p].owner)
                && (forall|p0: int| #[trigger] only_attachable(hw.ports@, p0)
                    && attach_script_clean(hw.script@)
                    ==> r->Ok_0.devices@[0] is Some
                        && attach_record_exact(hw.script@, p0 as u8, 1,
                            r->Ok_0.devices@[0]->Some_0)
                        && dev_classified(r->Ok_0.devices@[0]->Some_0)
                        && r->Ok_0.next_address == 2),
    {
        let num_ports = hw.ports.len();
        let mut devices: Vec<Option<EhciDevice>> = Vec::new();
        let mut j: usize = 0;
        while j < MAX_DEVICES
            invariant
                j <= MAX_DEVICES,
                devices@.len() == j,
                forall|k: int| 0 <= k < j ==> (#[trigger] devices@[k]) is None,
            decreases MAX_DEVICES - j,
        {
            devices.push(None);
            j = j + 1;
        }
        let mut c = EhciController {
            pci_address,
            num_ports: num_ports as u8,
            devices,
            next_address: 1,
            hw,
        };
        match c.init() {
            Ok(()) => {},
            Err(e) => {
                return Err(e);
            },
        }
        let ghost c0 = c;
        let _ = c.enumerate_ports();
        proof {
            assert forall|p0: int| #[trigger] only_attachable(hw.ports@, p0)
                && attach_script_clean(hw.script@)
                implies c.devices@[0] is Some
                    && attach_record_exact(hw.script@, p0 as u8, 1, c.devices@[0]->Some_0)
                    && dev_classified(c.devices@[0]->Some_0)
                    && c.next_address == 2 by {
                assert(c0.hw.ports@ == hw.ports@);
                assert(c0.hw.script@ == hw.script@);
                assert(only_attachable(c0.hw.ports@, p0));
                assert(attach_script_clean(c0.hw.script@));
                assert(c0.devices@[0] is None);
                let j = choose|j: int| 0 <= j < c0.devices@.len()
                    && (#[trigger] c0.devices@[j]) is None
                    && (forall|k: int| 0 <= k < j ==> c0.devices@[k] is Some)
                    && c.devices@ == c0.devices@.update(j, c.devices@[j])
                    && c.devices@[j] is Some
                    && attach_record_exact(c0.hw.script@, p0 as u8, c0.next_address,
                        c.devices@[j]->Some_0)
                    && dev_classified(c.devices@[j]->Some_0);
                // the table starts empty, so the first free slot is slot 0
                assert(j == 0);
                assert(c.devices@[0] is Some);
            }
        }
        Ok(c)
    }

    /// Periodic interrupt queues are out of scope: the contract exists but
    /// reports not-ready.
    pub fn create_interrupt_queue(&mut self, device: u8, endpoint: u8, is_in: bool,
        max_packet: u16, interval: u8) -> (r: Result<u32, UsbError>)
        ensures
            r == Err::<u32, UsbError>(UsbError::NotReady),
            *final(self) == *old(self),
    {
        let _ = (device, endpoint, is_in, max_packet, interval);
        Err(UsbError::NotReady)
    }

    /// Periodic interrupt queues are out of scope: never yields data.
    pub fn poll_interrupt_queue(&mut self, queue: u32, data: &mut Vec<u8>) -> (r: Option<usize>)
        ensures
            r is None,
            *final(self) == *old(self),
            final(data)@ == old(data)@,
    {
        let _ = queue;
        None
    }

    /// Periodic interrupt queues are out of scope: nothing to destroy.
    pub fn destroy_interrupt_queue(&mut self, queue: u32)
        ensures
            *final(self) == *old(self),
    {
        let _ = queue;
    }
}

} // verus!
