//! Register/memory model of one EHCI controller.
//!
//! The driver's decisions are verified against this model: a register file
//! with the documented command/status semantics, per-port connect/reset
//! behaviour, the descriptor arena the schedule lives in, a scripted device
//! that answers submitted transfers, and an event log (`trace`) recording
//! every register write and every bounded wait.
//!
//! Status bits follow the command register after `latency` polls, so
//! contracts that promise an ordering of operations hold however long each
//! individual wait takes.

use vstd::prelude::*;
use crate::ehci_desc::{QueueHead, QueueTransferDescriptor, tok_active};
use crate::ehci_regs::{CMD_RS, CMD_ASE, CMD_PSE, CMD_IAAD, CMD_HCRESET, STS_HCHALTED, STS_ASS,
    STS_PSS, STS_IAA};

verus! {

/// Operational registers, by name.
#[derive(Clone, Copy, Debug, PartialEq, Eq, Structural)]
pub enum OpReg {
    UsbCmd,
    UsbSts,
    UsbIntr,
    FrIndex,
    CtrlDsSegment,
    PeriodicListBase,
    AsyncListAddr,
    ConfigFlag,
}

/// Conditions a bounded wait can poll for.
#[derive(Clone, Copy, Debug, PartialEq, Eq, Structural)]
pub enum WaitCond {
    /// Status reports the controller halted.
    Halted,
    /// The host-controller-reset bit has self-cleared.
    ResetClear,
    /// Status reports the controller running.
    Running,
    /// Status reports the async schedule idle.
    AsyncIdle,
    /// Status reports the periodic schedule idle.
    PeriodicIdle,
    /// The Interrupt-on-Async-Advance acknowledge bit is set.
    DoorbellAck,
    /// The named qTD's active bit has cleared.
    QtdDone(usize),
}

/// One entry of the model's event log.
#[derive(Clone, Copy, Debug, PartialEq, Eq, Structural)]
pub enum HwOp {
    /// A write to an operational register with the given value.
    WriteOp(OpReg, u32),
    /// A write to a port status/control register with the given value.
    WritePort(usize, u32),
    /// A bounded wait finished; the flag says whether the condition was
    /// observed within the budget.
    Waited(WaitCond, bool),
    /// A mandated settle time was busy-waited, for the given poll count.
    Delayed(u32),
    /// A scoped reset was requested after a timed-out transfer.
    ResetRequest,
}

/// Simulated state of one root port.
#[derive(Clone, Copy, Debug, PartialEq, Eq, Structural)]
pub struct PortState {
    /// A device is attached to the port.
    pub connected: bool,
    /// The attached device signals K-state (classic low-speed idle).
    pub k_state: bool,
    /// The attached device negotiates high speed, so the port enables
    /// after a reset.
    pub high_speed: bool,
    /// Port Owner bit: the port has been released to a companion controller.
    pub owner: bool,
    /// Port Enabled bit.
    pub enabled: bool,
    /// A port reset is being driven.
    pub in_reset: bool,
}

/// One scripted answer of the simulated device to a submitted transfer.
#[derive(Debug)]
pub struct DevResponse {
    /// The device completes the transfer; if false the qTDs stay active and
    /// the transfer times out.
    pub completes: bool,
    /// Error bits to set in the completed tokens (halted, babble, ...).
    pub error_bits: u32,
    /// Bytes of the data stage left untransferred (a short packet).
    pub residual: u32,
    /// Bytes the device supplies for an IN data stage.
    pub data: Vec<u8>,
}

// Arena layout: model addresses of the descriptor memory.
/// Model address of Queue Head slot 0.
pub const QH_AREA_BASE: u32 = 0x1000;
/// Model address of qTD slot 0.
pub const QTD_AREA_BASE: u32 = 0x2000;
/// Model address of byte 0 of the staging buffer.
pub const DATA_AREA_BASE: u32 = 0x4000;
/// Size of each descriptor slot.
pub const SLOT_SIZE: u32 = 0x40;
/// Size of the staging buffer.
pub const DATA_SIZE: usize = 0x1000;

/// Model address of Queue Head slot `i`.
pub open spec fn spec_qh_addr(i: int) -> int {
    0x1000 + 0x40 * i
}

/// The link-pointer value that points at Queue Head slot `i`: its address
/// with the QH type tag.
pub open spec fn qh_link_value(i: int) -> u32 {
    (0x1000 + 0x40 * i + 2) as u32
}

/// Model address of qTD slot `i`.
pub open spec fn spec_qtd_addr(i: int) -> int {
    0x2000 + 0x40 * i
}

/// The status value the hardware settles on for a given command register
/// and doorbell state: halted mirrors !run, the schedule-status bits mirror
/// their enables while running.
pub open spec fn derived_sts(cmd: u32, iaa: bool) -> u32 {
    ((if cmd & 0x01 == 0 { 0x1000int } else { 0int })
        + (if cmd & 0x20 != 0 && cmd & 0x01 != 0 { 0x8000int } else { 0int })
        + (if cmd & 0x10 != 0 && cmd & 0x01 != 0 { 0x4000int } else { 0int })
        + (if iaa { 0x20int } else { 0int })) as u32
}

/// How `derived_sts` reads back through the status masks.
pub proof fn lemma_sts_bits(cmd: u32, iaa: bool)
    ensures
        (derived_sts(cmd, iaa) & 0x1000 != 0) == (cmd & 0x01 == 0),
        (derived_sts(cmd, iaa) & 0x8000 != 0) == (cmd & 0x20 != 0 && cmd & 0x01 != 0),
        (derived_sts(cmd, iaa) & 0x4000 != 0) == (cmd & 0x10 != 0 && cmd & 0x01 != 0),
        (derived_sts(cmd, iaa) & 0x20 != 0) == iaa,
{
    let a: u32 = if cmd & 0x01 == 0 { 0x1000u32 } else { 0u32 };
    let b: u32 = if cmd & 0x20 != 0 && cmd & 0x01 != 0 { 0x8000u32 } else { 0u32 };
    let c: u32 = if cmd & 0x10 != 0 && cmd & 0x01 != 0 { 0x4000u32 } else { 0u32 };
    let d: u32 = if iaa { 0x20u32 } else { 0u32 };
    assert((a == 0 || a == 0x1000) && (b == 0 || b == 0x8000) && (c == 0 || c == 0x4000)
        && (d == 0 || d == 0x20) ==> {
        let v = (a + b + c + d) as u32;
        ((v & 0x1000 != 0) == (a != 0)) && ((v & 0x8000 != 0) == (b != 0))
            && ((v & 0x4000 != 0) == (c != 0)) && ((v & 0x20 != 0) == (d != 0))
    }) by (bit_vector);
    assert(derived_sts(cmd, iaa) == (a + b + c + d) as u32);
}

/// The register/memory model of one controller.
pub struct EhciHw {
    /// USB Command register (Run/Stop, schedule enables, ...).
    pub cmd: u32,
    /// USB Status register; follows `cmd` after `latency` polls.
    pub sts: u32,
    /// USB Interrupt Enable register.
    pub intr: u32,
    /// Frame Index register.
    pub frindex: u32,
    /// 4G Segment Selector register.
    pub ctrldsseg: u32,
    /// Periodic Frame List Base Address register.
    pub periodic_base: u32,
    /// Async List Address register.
    pub async_base: u32,
    /// Configured Flag register.
    pub configflag: u32,
    /// Doorbell acknowledge pending (surfaces as `STS_IAA` once synced).
    pub iaa: bool,
    /// Polls left until `sts` reflects `cmd`.
    pub sync_delay: u32,
    /// Polls the model takes to settle status after a command write.
    pub latency: u32,
    /// Host-controller reset self-clears; a model with `false` here stands
    /// for a dead controller.
    pub reset_works: bool,
    /// Root ports.
    pub ports: Vec<PortState>,
    /// Queue Head arena, slot 0 reserved for the permanent head.
    pub qhs: Vec<QueueHead>,
    /// qTD arena.
    pub qtds: Vec<QueueTransferDescriptor>,
    /// DMA staging buffer.
    pub data: Vec<u8>,
    /// Periodic frame list: 1024 entries, installed inert (every entry
    /// terminated).
    pub periodic: Vec<u32>,
    /// Scripted device answers, consumed front to back.
    pub script: Vec<DevResponse>,
    /// Event log of register writes, waits and reset requests.
    pub trace: Vec<HwOp>,
    /// The eight staged request-packet bytes of every control chain that
    /// was submitted, in submission order.
    pub req_log: Ghost<Seq<Seq<u8>>>,
    /// The async ring as the sequence of QH slots the hardware would walk,
    /// starting at the permanent head.
    pub ring: Ghost<Seq<int>>,
}

/// Structural well-formedness of the model: slot counts in range and no
/// trigger bits parked in the command register.
pub open spec fn hw_wf(hw: EhciHw) -> bool {
    &&& hw.cmd & 0x42 == 0
    &&& hw.ports@.len() <= 15
    &&& 2 <= hw.qhs@.len() <= 64
    &&& 3 <= hw.qtds@.len() <= 64
    &&& hw.data@.len() == 0x1000
    &&& hw.periodic@.len() == 1024
}

/// The async ring is intact: it starts at the permanent head (slot 0),
/// visits distinct valid slots, and each member's horizontal link points at
/// the next member, the last one closing the circle back to the head.
pub open spec fn ring_wf(qhs: Seq<QueueHead>, ring: Seq<int>) -> bool {
    &&& 1 <= ring.len()
    &&& ring[0] == 0
    &&& forall|k: int| 0 <= k < ring.len() ==> 0 <= #[trigger] ring[k] < qhs.len()
    &&& forall|k: int, l: int| 0 <= k < l < ring.len() ==> ring[k] != ring[l]
    &&& forall|k: int| 0 <= k < ring.len() ==> #[trigger] qhs[ring[k]].horiz_link_ptr
        == qh_link_value(ring[if k + 1 == ring.len() { 0int } else { k + 1 }])
}

/// How a completed token relates to the token that was submitted: the
/// active bit has cleared, the requested error bits are in, the byte count
/// holds the residual, the toggle advanced past the single simulated
/// packet, and the PID, error-counter and IOC fields are untouched.
pub open spec fn token_completed_rel(old_t: u32, err: u32, res: u32, new_t: u32) -> bool {
    &&& !crate::ehci_desc::tok_active(new_t)
    &&& crate::ehci_desc::tok_halted(new_t) == (err & 0x40 != 0)
    &&& crate::ehci_desc::tok_any_error(new_t) == (err & 0x78 != 0)
    &&& crate::ehci_desc::tok_total_bytes(new_t) == res
    &&& crate::ehci_desc::tok_toggle(new_t) == !crate::ehci_desc::tok_toggle(old_t)
    &&& crate::ehci_desc::tok_pid(new_t) == crate::ehci_desc::tok_pid(old_t)
    &&& crate::ehci_desc::tok_cerr(new_t) == crate::ehci_desc::tok_cerr(old_t)
    &&& crate::ehci_desc::tok_ioc(new_t) == crate::ehci_desc::tok_ioc(old_t)
}

/// The bytes an IN stage delivers: the device's answer, zero-padded and cut
/// to the delivered length.
pub open spec fn padded(s: Seq<u8>, n: int) -> Seq<u8> {
    Seq::new(n as nat, |i: int| if i < s.len() { s[i] } else { 0u8 })
}

/// The residual a response actually leaves on a data stage of the given
/// length: the scripted residual, capped at the stage length.
pub open spec fn eff_residual(residual: u32, data_len: int) -> int {
    if residual > data_len {
        data_len
    } else {
        residual as int
    }
}

/// The event log grew only by appending: the old entries are all still
/// there, unchanged, at their old positions.
pub open spec fn trace_extends(pre: Seq<HwOp>, post: Seq<HwOp>) -> bool {
    &&& pre.len() <= post.len()
    &&& forall|j: int| 0 <= j < pre.len() ==> post[j] == #[trigger] pre[j]
}

/// The event log grew only by appending, and none of the new entries is a
/// port-register write.
pub open spec fn no_port_writes_between(pre: Seq<HwOp>, post: Seq<HwOp>) -> bool {
    &&& trace_extends(pre, post)
    &&& forall|j: int| pre.len() <= j < post.len() ==> !((#[trigger] post[j]) is WritePort)
}

/// The event log grew only by appending, and every new port-register write
/// goes to port `p`.
pub open spec fn port_writes_only_to(pre: Seq<HwOp>, post: Seq<HwOp>, p: usize) -> bool {
    &&& trace_extends(pre, post)
    &&& forall|j: int| pre.len() <= j < post.len()
        ==> ((#[trigger] post[j]) is WritePort ==> post[j]->WritePort_0 == p)
}

/// Appending twice is appending.
pub proof fn lemma_trace_extends_trans(a: Seq<HwOp>, b: Seq<HwOp>, c: Seq<HwOp>)
    requires
        trace_extends(a, b),
        trace_extends(b, c),
    ensures
        trace_extends(a, c),
{
    assert forall|j: int| 0 <= j < a.len() implies c[j] == #[trigger] a[j] by {
        assert(b[j] == a[j]);
        assert(c[j] == b[j]);
    }
}

/// Appending twice is appending: extension facts compose.
pub proof fn lemma_no_port_writes_trans(a: Seq<HwOp>, b: Seq<HwOp>, c: Seq<HwOp>)
    requires
        no_port_writes_between(a, b),
        no_port_writes_between(b, c),
    ensures
        no_port_writes_between(a, c),
{
    assert forall|j: int| 0 <= j < a.len() implies c[j] == #[trigger] a[j] by {
        assert(b[j] == a[j]);
        assert(c[j] == b[j]);
    }
    assert forall|j: int| a.len() <= j < c.len() implies !((#[trigger] c[j]) is WritePort) by {
        if j < b.len() {
            assert(c[j] == b[j]);
            assert(!(b[j] is WritePort));
        }
    }
}

/// Extension facts compose for port-directed writes too.
pub proof fn lemma_port_writes_only_trans(a: Seq<HwOp>, b: Seq<HwOp>, c: Seq<HwOp>, p: usize)
    requires
        port_writes_only_to(a, b, p),
        port_writes_only_to(b, c, p),
    ensures
        port_writes_only_to(a, c, p),
{
    assert forall|j: int| 0 <= j < a.len() implies c[j] == #[trigger] a[j] by {
        assert(b[j] == a[j]);
        assert(c[j] == b[j]);
    }
    assert forall|j: int| a.len() <= j < c.len() && (#[trigger] c[j]) is WritePort
        implies c[j]->WritePort_0 == p by {
        if j < b.len() {
            assert(c[j] == b[j]);
        }
    }
}

/// An extension without port writes in particular writes no port but `p`.
pub proof fn lemma_no_port_writes_weaken(a: Seq<HwOp>, b: Seq<HwOp>, p: usize)
    requires
        no_port_writes_between(a, b),
    ensures
        port_writes_only_to(a, b, p),
{
}

/// How many scoped reset requests the event log holds.
pub open spec fn count_resets(t: Seq<HwOp>) -> int
    decreases t.len(),
{
    if t.len() == 0 {
        0
    } else {
        count_resets(t.drop_last()) + (if t.last() == HwOp::ResetRequest { 1int } else { 0int })
    }
}

/// Counting distributes over appending one event.
pub proof fn lemma_count_resets_push(t: Seq<HwOp>, op: HwOp)
    ensures
        count_resets(t.push(op)) == count_resets(t) + (if op == HwOp::ResetRequest {
            1int
        } else {
            0int
        }),
{
    assert(t.push(op).drop_last() =~= t);
    assert(t.push(op).last() == op);
}

/// An async-schedule operation, seen at the level of the ring's member
/// sequence: splice a QH in right after the head, or unsplice the QH right
/// after the head.
pub ghost enum RingOp {
    Insert(int),
    Remove,
}

/// How one operation transforms the ring's member sequence (an unsplice of
/// an empty tail changes nothing).
pub open spec fn ring_apply(r: Seq<int>, op: RingOp) -> Seq<int> {
    match op {
        RingOp::Insert(i) => r.insert(1, i),
        RingOp::Remove => if r.len() >= 2 {
            r.remove(1)
        } else {
            r
        },
    }
}

/// A whole sequence of operations, applied front to back.
pub open spec fn ring_apply_all(r: Seq<int>, ops: Seq<RingOp>) -> Seq<int>
    decreases ops.len(),
{
    if ops.len() == 0 {
        r
    } else {
        ring_apply_all(ring_apply(r, ops[0]), ops.skip(1))
    }
}

/// However many QHs any sequence of splice/unsplice operations adds or
/// removes, the ring never empties and the permanent head (slot 0) is never
/// the one removed: every reachable ring still starts at the head.  The
/// link-level counterpart — that each operation leaves the links circular —
/// is the `ring_wf` postcondition of `ring_insert_after_head` and
/// `ring_remove_after_head`.
pub proof fn lemma_ring_head_preserved(r: Seq<int>, ops: Seq<RingOp>)
    requires
        r.len() >= 1,
        r[0] == 0,
    ensures
        ring_apply_all(r, ops).len() >= 1,
        ring_apply_all(r, ops)[0] == 0,
    decreases ops.len(),
{
    if ops.len() > 0 {
        let r1 = ring_apply(r, ops[0]);
        match ops[0] {
            RingOp::Insert(i) => {
                r.insert_ensures(1, i);
                assert(r1[0] == r[0]);
            },
            RingOp::Remove => {
                if r.len() >= 2 {
                    r.remove_ensures(1);
                    assert(r1[0] == r[0]);
                }
            },
        }
        lemma_ring_head_preserved(r1, ops.skip(1));
    }
}

/// The condition a bounded wait tests, evaluated on the current state.
pub open spec fn cond_now(hw: EhciHw, cond: WaitCond) -> bool {
    match cond {
        WaitCond::Halted => hw.sts & 0x1000 != 0,
        WaitCond::ResetClear => hw.cmd & 0x02 == 0,
        WaitCond::Running => hw.sts & 0x1000 == 0,
        WaitCond::AsyncIdle => hw.sts & 0x8000 == 0,
        WaitCond::PeriodicIdle => hw.sts & 0x4000 == 0,
        WaitCond::DoorbellAck => hw.sts & 0x20 != 0,
        WaitCond::QtdDone(i) => i < hw.qtds@.len() && !tok_active(hw.qtds@[i as int].token),
    }
}

/// The state `hw` settles into once status has caught up with the command
/// register.
pub open spec fn synced(hw: EhciHw) -> EhciHw {
    EhciHw { sts: derived_sts(hw.cmd, hw.iaa), sync_delay: 0, ..hw }
}

/// Everything except the status-settling machinery and the trace is equal.
pub open spec fn same_but_sts(a: EhciHw, b: EhciHw) -> bool {
    &&& a.cmd == b.cmd
    &&& a.intr == b.intr
    &&& a.frindex == b.frindex
    &&& a.ctrldsseg == b.ctrldsseg
    &&& a.periodic_base == b.periodic_base
    &&& a.async_base == b.async_base
    &&& a.configflag == b.configflag
    &&& a.iaa == b.iaa
    &&& a.latency == b.latency
    &&& a.reset_works == b.reset_works
    &&& a.ports@ == b.ports@
    &&& a.qhs@ == b.qhs@
    &&& a.qtds@ == b.qtds@
    &&& a.data@ == b.data@
    &&& a.periodic@ == b.periodic@
    &&& a.script@ == b.script@
    &&& a.ring@ == b.ring@
    &&& a.req_log@ == b.req_log@
}

impl EhciHw {
    /// A fresh model: controller idle and halted, arena zeroed, the given
    /// ports attached and the given device script loaded.
    pub fn new(ports: Vec<PortState>, qh_slots: usize, latency: u32, reset_works: bool,
        script: Vec<DevResponse>) -> (r: Self)
        requires
            ports@.len() <= 15,
            2 <= qh_slots <= 64,
        ensures
            hw_wf(r),
            r.cmd == 0,
            r.sts == 0x1000,
            r.iaa == false,
            r.sync_delay == 0,
            r.latency == latency,
            r.reset_works == reset_works,
            r.ports@ == ports@,
            r.script@ == script@,
            r.trace@.len() == 0,
            r.req_log@ == Seq::<Seq<u8>>::empty(),
            r.qhs@.len() == qh_slots,
            r.qtds@.len() == 4,
            r.data@.len() == 0x1000,
            r.periodic@.len() == 1024,
    {
        let mut qhs: Vec<QueueHead> = Vec::new();
        let mut i: usize = 0;
        while i < qh_slots
            invariant
                i <= qh_slots,
                qhs@.len() == i,
            decreases qh_slots - i,
        {
            qhs.push(QueueHead::default());
            i = i + 1;
        }
        let mut qtds: Vec<QueueTransferDescriptor> = Vec::new();
        let mut j: usize = 0;
        while j < 4
            invariant
                j <= 4,
                qtds@.len() == j,
            decreases 4 - j,
        {
            qtds.push(QueueTransferDescriptor::default());
            j = j + 1;
        }
        let mut data: Vec<u8> = Vec::new();
        let mut k: usize = 0;
        while k < DATA_SIZE
            invariant
                k <= 0x1000,
                data@.len() == k,
            decreases 0x1000 - k,
        {
            data.push(0);
            k = k + 1;
        }
        let mut periodic: Vec<u32> = Vec::new();
        let mut m: usize = 0;
        while m < 1024
            invariant
                m <= 1024,
                periodic@.len() == m,
            decreases 1024 - m,
        {
            periodic.push(0);
            m = m + 1;
        }
        proof {
            assert(0u32 & 0x42 == 0) by (bit_vector);
        }
        EhciHw {
            cmd: 0,
            sts: STS_HCHALTED,
            intr: 0,
            frindex: 0,
            ctrldsseg: 0,
            periodic_base: 0,
            async_base: 0,
            configflag: 0,
            iaa: false,
            sync_delay: 0,
            latency,
            reset_works,
            ports,
            qhs,
            qtds,
            data,
            periodic,
            script,
            trace: Vec::new(),
            req_log: Ghost(Seq::empty()),
            ring: Ghost(Seq::empty()),
        }
    }

    /// Recompute the status register from the command register and the
    /// pending doorbell acknowledge.
    fn sync_sts(&mut self)
        ensures
            *final(self) == (EhciHw { sts: derived_sts(old(self).cmd, old(self).iaa), ..*old(self) }),
    {
        let mut v: u32 = 0;
        if self.cmd & CMD_RS == 0 {
            v = v + STS_HCHALTED;
        }
        if self.cmd & CMD_ASE != 0 && self.cmd & CMD_RS != 0 {
            v = v + STS_ASS;
        }
        if self.cmd & CMD_PSE != 0 && self.cmd & CMD_RS != 0 {
            v = v + STS_PSS;
        }
        if self.iaa {
            v = v + STS_IAA;
        }
        self.sts = v;
    }

    /// One poll's worth of simulated time: status creeps toward the value
    /// implied by the command register.
    fn tick(&mut self)
        ensures
            final(self).sync_delay == (if old(self).sync_delay > 0 {
                (old(self).sync_delay - 1) as u32
            } else {
                0u32
            }),
            final(self).sts == (if old(self).sync_delay == 1 {
                derived_sts(old(self).cmd, old(self).iaa)
            } else {
                old(self).sts
            }),
            final(self).trace@ == old(self).trace@,
            same_but_sts(*final(self), *old(self)),
    {
        if self.sync_delay > 0 {
            self.sync_delay = self.sync_delay - 1;
            if self.sync_delay == 0 {
                self.sync_sts();
            }
        }
    }

    /// Busy-wait for a given number of polls: the model settles, and the
    /// event log records the mandated settle time.
    pub fn delay(&mut self, polls: u32)
        ensures
            same_but_sts(*final(self), *old(self)),
            final(self).trace@ == old(self).trace@.push(HwOp::Delayed(polls)),
            final(self).sync_delay == (if old(self).sync_delay >= polls {
                (old(self).sync_delay - polls) as u32
            } else {
                0u32
            }),
            final(self).sts == (if 1 <= old(self).sync_delay && old(self).sync_delay <= polls {
                derived_sts(old(self).cmd, old(self).iaa)
            } else {
                old(self).sts
            }),
    {
        let ghost pre = *old(self);
        self.trace.push(HwOp::Delayed(polls));
        let mut k: u32 = 0;
        while k < polls
            invariant
                k <= polls,
                same_but_sts(*self, pre),
                self.trace@ == pre.trace@.push(HwOp::Delayed(polls)),
                self.sync_delay == (if pre.sync_delay >= k {
                    (pre.sync_delay - k) as u32
                } else {
                    0u32
                }),
                self.sts == (if 1 <= pre.sync_delay && pre.sync_delay <= k {
                    derived_sts(pre.cmd, pre.iaa)
                } else {
                    pre.sts
                }),
            decreases polls - k,
        {
            self.tick();
            k = k + 1;
        }
    }

    /// Evaluate a wait condition on the current state.
    fn check_cond(&self, cond: WaitCond) -> (r: bool)
        ensures
            r == cond_now(*self, cond),
    {
        match cond {
            WaitCond::Halted => self.sts & STS_HCHALTED != 0,
            WaitCond::ResetClear => self.cmd & CMD_HCRESET == 0,
            WaitCond::Running => self.sts & STS_HCHALTED == 0,
            WaitCond::AsyncIdle => self.sts & STS_ASS == 0,
            WaitCond::PeriodicIdle => self.sts & STS_PSS == 0,
            WaitCond::DoorbellAck => self.sts & STS_IAA != 0,
            WaitCond::QtdDone(i) => {
                if i < self.qtds.len() {
                    let q = self.qtds[i];
                    q.token & 0x80 == 0
                } else {
                    false
                }
            },
        }
    }

    /// The reusable bounded wait: poll the condition up to `budget` times,
    /// letting the model settle between polls, and log the outcome.
    pub fn wait_until(&mut self, cond: WaitCond, budget: u32) -> (ok: bool)
        requires
            budget >= 1,
        ensures
            final(self).trace@ == old(self).trace@.push(HwOp::Waited(cond, ok)),
            same_but_sts(*final(self), *old(self)),
            ok == (cond_now(*old(self), cond) || (1 <= old(self).sync_delay
                && old(self).sync_delay + 1 <= budget && cond_now(synced(*old(self)), cond))),
            cond_now(*old(self), cond) ==> final(self).sts == old(self).sts
                && final(self).sync_delay == old(self).sync_delay,
            ok && !cond_now(*old(self), cond) ==> final(self).sts
                == derived_sts(old(self).cmd, old(self).iaa) && final(self).sync_delay == 0,
            ok ==> cond_now(*final(self), cond),
    {
        let ghost pre = *old(self);
        let mut k: u32 = 0;
        let mut ok = false;
        while !ok && k < budget
            invariant
                same_but_sts(*self, pre),
                self.trace@ == pre.trace@,
                k <= budget,
                !ok ==> self.sync_delay == (if pre.sync_delay >= k {
                    (pre.sync_delay - k) as u32
                } else {
                    0u32
                }),
                !ok ==> self.sts == (if 1 <= pre.sync_delay && pre.sync_delay <= k {
                    derived_sts(pre.cmd, pre.iaa)
                } else {
                    pre.sts
                }),
                !ok && k >= 1 ==> !cond_now(pre, cond),
                !ok && 1 <= pre.sync_delay && pre.sync_delay + 1 <= k
                    ==> !cond_now(synced(pre), cond),
                ok ==> (if cond_now(pre, cond) {
                    self.sts == pre.sts && self.sync_delay == pre.sync_delay
                } else {
                    1 <= pre.sync_delay && pre.sync_delay + 1 <= budget
                        && self.sts == derived_sts(pre.cmd, pre.iaa) && self.sync_delay == 0
                        && cond_now(synced(pre), cond)
                }),
                ok ==> cond_now(*self, cond),
            decreases budget - k, (if ok { 0int } else { 1int }),
        {
            let hit = self.check_cond(cond);
            proof {
                if k == 0 {
                    assert(cond_now(*self, cond) == cond_now(pre, cond));
                }
                if 1 <= pre.sync_delay && pre.sync_delay <= k {
                    assert(self.sts == synced(pre).sts && self.cmd == synced(pre).cmd
                        && self.qtds@ == synced(pre).qtds@);
                    assert(cond_now(*self, cond) == cond_now(synced(pre), cond));
                }
            }
            if hit {
                ok = true;
            } else {
                self.tick();
                k = k + 1;
            }
        }
        self.trace.push(HwOp::Waited(cond, ok));
        ok
    }

    // -----------------------------------------------------------------------
    // Operational register writes
    // -----------------------------------------------------------------------

    /// Write the command register.  Trigger bits (doorbell, reset) have
    /// their own operations.
    pub fn write_cmd(&mut self, v: u32)
        requires
            v & 0x42 == 0,
        ensures
            final(self).trace@ == old(self).trace@.push(HwOp::WriteOp(OpReg::UsbCmd, v)),
            *final(self) == (EhciHw {
                cmd: v,
                sts: final(self).sts,
                sync_delay: final(self).sync_delay,
                trace: final(self).trace,
                ..*old(self)
            }),
            final(self).sync_delay == old(self).latency,
            final(self).sts == (if old(self).latency == 0 {
                derived_sts(v, old(self).iaa)
            } else {
                old(self).sts
            }),
    {
        self.cmd = v;
        self.sync_delay = self.latency;
        if self.sync_delay == 0 {
            self.sync_sts();
        }
        self.trace.push(HwOp::WriteOp(OpReg::UsbCmd, v));
    }

    /// Pulse Host Controller Reset.  On a live controller every operational
    /// register returns to its default and the controller halts; on a dead
    /// one the bit sticks.
    pub fn reset_controller(&mut self)
        ensures
            final(self).trace@ == old(self).trace@.push(
                HwOp::WriteOp(OpReg::UsbCmd, CMD_HCRESET),
            ),
            old(self).reset_works ==> *final(self) == (EhciHw {
                cmd: 0u32,
                sts: 0x1000u32,
                intr: 0u32,
                frindex: 0u32,
                ctrldsseg: 0u32,
                periodic_base: 0u32,
                async_base: 0u32,
                configflag: 0u32,
                iaa: false,
                sync_delay: 0u32,
                trace: final(self).trace,
                ..*old(self)
            }),
            !old(self).reset_works ==> *final(self) == (EhciHw {
                cmd: CMD_HCRESET,
                trace: final(self).trace,
                ..*old(self)
            }),
    {
        self.trace.push(HwOp::WriteOp(OpReg::UsbCmd, CMD_HCRESET));
        if self.reset_works {
            self.cmd = 0;
            self.sts = STS_HCHALTED;
            self.intr = 0;
            self.frindex = 0;
            self.ctrldsseg = 0;
            self.periodic_base = 0;
            self.async_base = 0;
            self.configflag = 0;
            self.iaa = false;
            self.sync_delay = 0;
        } else {
            self.cmd = CMD_HCRESET;
        }
    }

    /// Ring the Interrupt-on-Async-Advance doorbell: the acknowledge bit
    /// will appear in status once the controller advances.
    pub fn ring_doorbell(&mut self)
        ensures
            final(self).trace@ == old(self).trace@.push(
                HwOp::WriteOp(OpReg::UsbCmd, (old(self).cmd | CMD_IAAD)),
            ),
            *final(self) == (EhciHw {
                iaa: true,
                sts: final(self).sts,
                sync_delay: final(self).sync_delay,
                trace: final(self).trace,
                ..*old(self)
            }),
            final(self).sync_delay == old(self).latency,
            final(self).sts == (if old(self).latency == 0 {
                derived_sts(old(self).cmd, true)
            } else {
                old(self).sts
            }),
    {
        let v = self.cmd | CMD_IAAD;
        self.trace.push(HwOp::WriteOp(OpReg::UsbCmd, v));
        self.iaa = true;
        self.sync_delay = self.latency;
        if self.sync_delay == 0 {
            self.sync_sts();
        }
    }

    /// Acknowledge the doorbell: a write-one-to-clear of the IAA status bit.
    pub fn ack_doorbell(&mut self)
        ensures
            final(self).trace@ == old(self).trace@.push(HwOp::WriteOp(OpReg::UsbSts, STS_IAA)),
            *final(self) == (EhciHw {
                iaa: false,
                sts: (old(self).sts & 0xffff_ffdf),
                trace: final(self).trace,
                ..*old(self)
            }),
    {
        self.trace.push(HwOp::WriteOp(OpReg::UsbSts, STS_IAA));
        self.iaa = false;
        self.sts = self.sts & 0xffff_ffdf;
    }

    /// Write the interrupt-enable register.
    pub fn write_intr(&mut self, v: u32)
        ensures
            final(self).trace@ == old(self).trace@.push(HwOp::WriteOp(OpReg::UsbIntr, v)),
            *final(self) == (EhciHw { intr: v, trace: final(self).trace, ..*old(self) }),
    {
        self.trace.push(HwOp::WriteOp(OpReg::UsbIntr, v));
        self.intr = v;
    }

    /// Write the 4G segment selector.
    pub fn write_ctrldsseg(&mut self, v: u32)
        ensures
            final(self).trace@ == old(self).trace@.push(
                HwOp::WriteOp(OpReg::CtrlDsSegment, v),
            ),
            *final(self) == (EhciHw { ctrldsseg: v, trace: final(self).trace, ..*old(self) }),
    {
        self.trace.push(HwOp::WriteOp(OpReg::CtrlDsSegment, v));
        self.ctrldsseg = v;
    }

    /// Write the periodic frame list base address.
    pub fn write_periodic_base(&mut self, v: u32)
        ensures
            final(self).trace@ == old(self).trace@.push(
                HwOp::WriteOp(OpReg::PeriodicListBase, v),
            ),
            *final(self) == (EhciHw { periodic_base: v, trace: final(self).trace, ..*old(self) }),
    {
        self.trace.push(HwOp::WriteOp(OpReg::PeriodicListBase, v));
        self.periodic_base = v;
    }

    /// Write the async list address.
    pub fn write_async_base(&mut self, v: u32)
        ensures
            final(self).trace@ == old(self).trace@.push(HwOp::WriteOp(OpReg::AsyncListAddr, v)),
            *final(self) == (EhciHw { async_base: v, trace: final(self).trace, ..*old(self) }),
    {
        self.trace.push(HwOp::WriteOp(OpReg::AsyncListAddr, v));
        self.async_base = v;
    }

    /// Write the configured flag: claims (1) or releases (0) port ownership
    /// from the companion controllers.
    pub fn write_configflag(&mut self, v: u32)
        ensures
            final(self).trace@ == old(self).trace@.push(HwOp::WriteOp(OpReg::ConfigFlag, v)),
            *final(self) == (EhciHw { configflag: v, trace: final(self).trace, ..*old(self) }),
    {
        self.trace.push(HwOp::WriteOp(OpReg::ConfigFlag, v));
        self.configflag = v;
    }

    /// Record the scoped reset a timed-out transfer forces before the error
    /// is surfaced.  The abandoned descriptors are already unlinked; the
    /// model has no further in-flight state to clear.
    pub fn request_transfer_reset(&mut self)
        ensures
            final(self).trace@ == old(self).trace@.push(HwOp::ResetRequest),
            *final(self) == (EhciHw { trace: final(self).trace, ..*old(self) }),
    {
        self.trace.push(HwOp::ResetRequest);
    }

    /// Read the command register back.
    pub fn read_cmd(&self) -> (r: u32)
        ensures
            r == self.cmd,
    {
        self.cmd
    }

    /// Read the status register.
    pub fn read_sts(&self) -> (r: u32)
        ensures
            r == self.sts,
    {
        self.sts
    }

    // -----------------------------------------------------------------------
    // Port register operations
    // -----------------------------------------------------------------------

    /// Read one port's state.
    pub fn read_port(&self, p: usize) -> (r: PortState)
        requires
            p < self.ports@.len(),
        ensures
            r == self.ports@[p as int],
    {
        self.ports[p]
    }

    /// Set the Port Owner bit: release the port to a companion controller.
    /// The port disables as ownership leaves this controller.
    pub fn set_port_owner(&mut self, p: usize)
        requires
            p < old(self).ports@.len(),
        ensures
            final(self).trace@ == old(self).trace@.push(HwOp::WritePort(p, 0x2000)),
            final(self).ports@ == old(self).ports@.update(p as int, (PortState {
                owner: true,
                enabled: false,
                ..old(self).ports@[p as int]
            })),
            *final(self) == (EhciHw {
                ports: final(self).ports,
                trace: final(self).trace,
                ..*old(self)
            }),
    {
        self.trace.push(HwOp::WritePort(p, 0x2000));
        let mut ps = self.ports[p];
        ps.owner = true;
        ps.enabled = false;
        self.ports.set(p, ps);
    }

    /// Assert the port-reset bit; the port disables while reset is driven.
    pub fn begin_port_reset(&mut self, p: usize)
        requires
            p < old(self).ports@.len(),
        ensures
            final(self).trace@ == old(self).trace@.push(HwOp::WritePort(p, 0x100)),
            final(self).ports@ == old(self).ports@.update(p as int, (PortState {
                in_reset: true,
                enabled: false,
                ..old(self).ports@[p as int]
            })),
            *final(self) == (EhciHw {
                ports: final(self).ports,
                trace: final(self).trace,
                ..*old(self)
            }),
    {
        self.trace.push(HwOp::WritePort(p, 0x100));
        let mut ps = self.ports[p];
        ps.in_reset = true;
        ps.enabled = false;
        self.ports.set(p, ps);
    }

    /// Clear the port-reset bit.  A connected high-speed device leaves the
    /// port enabled; anything else leaves it disabled.
    pub fn end_port_reset(&mut self, p: usize)
        requires
            p < old(self).ports@.len(),
        ensures
            final(self).trace@ == old(self).trace@.push(HwOp::WritePort(p, 0)),
            final(self).ports@ == old(self).ports@.update(p as int, (PortState {
                in_reset: false,
                enabled: (old(self).ports@[p as int].connected
                    && old(self).ports@[p as int].high_speed
                    && !old(self).ports@[p as int].owner),
                ..old(self).ports@[p as int]
            })),
            *final(self) == (EhciHw {
                ports: final(self).ports,
                trace: final(self).trace,
                ..*old(self)
            }),
    {
        self.trace.push(HwOp::WritePort(p, 0));
        let mut ps = self.ports[p];
        ps.in_reset = false;
        ps.enabled = ps.connected && ps.high_speed && !ps.owner;
        self.ports.set(p, ps);
    }

    /// Write-one-to-clear the port's change bits.  The model keeps no
    /// change bits, so only the write is recorded.
    pub fn clear_port_changes(&mut self, p: usize)
        requires
            p < old(self).ports@.len(),
        ensures
            final(self).trace@ == old(self).trace@.push(HwOp::WritePort(p, 0x2a)),
            *final(self) == (EhciHw { trace: final(self).trace, ..*old(self) }),
    {
        self.trace.push(HwOp::WritePort(p, 0x2a));
    }

    // -----------------------------------------------------------------------
    // Descriptor arena: the volatile hardware view of QH/qTD/staging memory
    // -----------------------------------------------------------------------

    /// Model address of Queue Head slot `i`.
    pub fn qh_addr(&self, i: usize) -> (r: u32)
        requires
            i < 64,
        ensures
            r == spec_qh_addr(i as int),
    {
        QH_AREA_BASE + SLOT_SIZE * (i as u32)
    }

    /// Link-pointer value naming Queue Head slot `i` (address plus QH tag).
    pub fn qh_link(&self, i: usize) -> (r: u32)
        requires
            i < 64,
        ensures
            r == qh_link_value(i as int),
    {
        let a = QH_AREA_BASE + SLOT_SIZE * (i as u32);
        proof {
            let j = i as u32;
            assert(a == 0x1000 + 0x40 * j && j < 64 ==> a | 2 == 0x1000 + 0x40 * j + 2)
                by (bit_vector);
        }
        a | crate::ehci_desc::LINK_TYPE_QH
    }

    /// Model address of qTD slot `i`.
    pub fn qtd_addr(&self, i: usize) -> (r: u32)
        requires
            i < 64,
        ensures
            r == spec_qtd_addr(i as int),
    {
        QTD_AREA_BASE + SLOT_SIZE * (i as u32)
    }

    /// Read Queue Head slot `i`.
    pub fn read_qh(&self, i: usize) -> (r: QueueHead)
        requires
            i < self.qhs@.len(),
        ensures
            r == self.qhs@[i as int],
    {
        self.qhs[i]
    }

    /// Write Queue Head slot `i`.  This is a raw descriptor-memory write;
    /// the ring operations below are the only way to change links of QHs
    /// that are members of the ring.
    pub fn write_qh(&mut self, i: usize, qh: QueueHead)
        requires
            i < old(self).qhs@.len(),
        ensures
            final(self).qhs@ == old(self).qhs@.update(i as int, qh),
            *final(self) == (EhciHw { qhs: final(self).qhs, ..*old(self) }),
    {
        self.qhs.set(i, qh);
    }

    /// Read qTD slot `i`.
    pub fn read_qtd(&self, i: usize) -> (r: QueueTransferDescriptor)
        requires
            i < self.qtds@.len(),
        ensures
            r == self.qtds@[i as int],
    {
        self.qtds[i]
    }

    /// Write qTD slot `i`.
    pub fn write_qtd(&mut self, i: usize, qtd: QueueTransferDescriptor)
        requires
            i < old(self).qtds@.len(),
        ensures
            final(self).qtds@ == old(self).qtds@.update(i as int, qtd),
            *final(self) == (EhciHw { qtds: final(self).qtds, ..*old(self) }),
    {
        self.qtds.set(i, qtd);
    }

    /// Copy bytes into the staging buffer at `off`.
    pub fn stage_bytes(&mut self, off: usize, src: &Vec<u8>)
        requires
            off + src@.len() <= old(self).data@.len(),
        ensures
            final(self).data@.len() == old(self).data@.len(),
            forall|j: int| 0 <= j < off ==> final(self).data@[j] == old(self).data@[j],
            forall|j: int| off <= j < off + src@.len()
                ==> final(self).data@[j] == src@[j - off],
            forall|j: int| off + src@.len() <= j < old(self).data@.len()
                ==> final(self).data@[j] == old(self).data@[j],
            *final(self) == (EhciHw { data: final(self).data, ..*old(self) }),
    {
        let ghost pre = self.data@;
        let mut b: usize = 0;
        while b < src.len()
            invariant
                b <= src@.len(),
                off + src@.len() <= self.data@.len(),
                self.data@.len() == pre.len(),
                forall|j: int| 0 <= j < off ==> self.data@[j] == pre[j],
                forall|j: int| off <= j < off + b ==> self.data@[j] == src@[j - off],
                forall|j: int| off + b <= j < pre.len() ==> self.data@[j] == pre[j],
                *self == (EhciHw { data: self.data, ..*old(self) }),
            decreases src@.len() - b,
        {
            // bind the buffer length so the index stays within usize
            let n = self.data.len();
            let v = src[b];
            self.data.set(off + b, v);
            b = b + 1;
        }
    }

    /// Copy `len` bytes out of the staging buffer at `off`.
    pub fn fetch_bytes(&self, off: usize, len: usize) -> (r: Vec<u8>)
        requires
            off + len <= self.data@.len(),
        ensures
            r@ == self.data@.subrange(off as int, off + len),
    {
        let mut out: Vec<u8> = Vec::new();
        let mut b: usize = 0;
        while b < len
            invariant
                b <= len,
                off + len <= self.data@.len(),
                out@.len() == b,
                forall|j: int| 0 <= j < b ==> out@[j] == self.data@[off + j],
            decreases len - b,
        {
            // bind the buffer length so the index stays within usize
            let n = self.data.len();
            let v = self.data[off + b];
            out.push(v);
            b = b + 1;
        }
        proof {
            assert(out@ =~= self.data@.subrange(off as int, off + len));
        }
        out
    }

    // -----------------------------------------------------------------------
    // Async ring
    // -----------------------------------------------------------------------

    /// Install the inert periodic frame list: every one of the 1024
    /// entries carries the terminate bit, so the periodic schedule, though
    /// it must be programmed, never walks anything.
    pub fn install_periodic_list(&mut self)
        requires
            hw_wf(*old(self)),
        ensures
            final(self).periodic@.len() == 1024,
            forall|k: int| 0 <= k < 1024 ==> final(self).periodic@[k] == 1u32,
            *final(self) == (EhciHw { periodic: final(self).periodic, ..*old(self) }),
    {
        let mut k: usize = 0;
        while k < 1024
            invariant
                k <= 1024,
                self.periodic@.len() == 1024,
                forall|j: int| 0 <= j < k ==> self.periodic@[j] == 1u32,
                *self == (EhciHw { periodic: self.periodic, ..*old(self) }),
            decreases 1024 - k,
        {
            self.periodic.set(k, 1);
            k = k + 1;
        }
    }

    /// Install the permanent head QH in slot 0: a one-element circular ring
    /// (the head links to itself), Head-of-Reclamation-List set, overlay
    /// terminated.
    pub fn install_async_head(&mut self)
        requires
            hw_wf(*old(self)),
        ensures
            ring_wf(final(self).qhs@, final(self).ring@),
            final(self).ring@ == seq![0int],
            final(self).qhs@.len() == old(self).qhs@.len(),
            final(self).qhs@[0].horiz_link_ptr == qh_link_value(0),
            final(self).qhs@[0].ep_chars == 0x8000,
            crate::ehci_desc::qh_reclamation_head(final(self).qhs@[0].ep_chars),
            final(self).qhs@[0].overlay.next_qtd == 1,
            final(self).qhs@[0].overlay.alt_qtd == 1,
            final(self).qhs@[0].overlay.token == 0,
            final(self).qhs@[0].cur_qtd == 0,
            forall|j: int| 1 <= j < old(self).qhs@.len()
                ==> final(self).qhs@[j] == old(self).qhs@[j],
            *final(self) == (EhciHw {
                qhs: final(self).qhs,
                ring: final(self).ring,
                ..*old(self)
            }),
    {
        let mut head = QueueHead::default();
        head.horiz_link_ptr = self.qh_link(0);
        head.ep_chars = 0x8000;
        head.overlay.next_qtd = 1;
        head.overlay.alt_qtd = 1;
        head.overlay.token = 0;
        self.qhs.set(0, head);
        proof {
            self.ring = Ghost(seq![0int]);
            assert(0x8000u32 & 0x8000 != 0) by (bit_vector);
        }
    }

    /// Splice Queue Head slot `i` in right after the head: the new QH takes
    /// over the head's successor, then the head's link is swung to the new
    /// QH, so the hardware never observes a dangling link.
    pub fn ring_insert_after_head(&mut self, i: usize)
        requires
            hw_wf(*old(self)),
            ring_wf(old(self).qhs@, old(self).ring@),
            1 <= i < old(self).qhs@.len(),
            !old(self).ring@.contains(i as int),
        ensures
            ring_wf(final(self).qhs@, final(self).ring@),
            final(self).ring@ == old(self).ring@.insert(1, i as int),
            final(self).ring@[1] == i as int,
            final(self).qhs@ == old(self).qhs@.update(i as int, (QueueHead {
                horiz_link_ptr: old(self).qhs@[0].horiz_link_ptr,
                ..old(self).qhs@[i as int]
            })).update(0, (QueueHead {
                horiz_link_ptr: qh_link_value(i as int),
                ..old(self).qhs@[0]
            })),
            *final(self) == (EhciHw {
                qhs: final(self).qhs,
                ring: final(self).ring,
                ..*old(self)
            }),
    {
        let ghost r0 = self.ring@;
        let head = self.qhs[0];
        let mut q = self.qhs[i];
        q.horiz_link_ptr = head.horiz_link_ptr;
        self.qhs.set(i, q);
        let link = self.qh_link(i);
        let mut h = self.qhs[0];
        h.horiz_link_ptr = link;
        self.qhs.set(0, h);
        proof {
            self.ring = Ghost(r0.insert(1, i as int));
            r0.insert_ensures(1, i as int);
            let r1 = self.ring@;
            let n = r0.len() as int;
            assert(r1.len() == n + 1);
            assert(r1[0] == 0);
            assert(r1[1] == i as int);
            assert forall|k: int| 0 <= k < r1.len() implies 0 <= #[trigger] r1[k]
                < self.qhs@.len() by {
                if k >= 2 {
                    assert(r1[k] == r0[k - 1]);
                }
            }
            assert forall|k: int, l: int| 0 <= k < l < r1.len() implies r1[k] != r1[l] by {
                if k >= 2 && l >= 2 {
                    assert(r1[k] == r0[k - 1] && r1[l] == r0[l - 1]);
                } else if k == 0 && l >= 2 {
                    assert(r1[l] == r0[l - 1]);
                } else if k == 1 && l >= 2 {
                    assert(r1[l] == r0[l - 1]);
                    assert(r0.contains(r0[l - 1]));
                } else if k == 0 && l == 1 {
                }
            }
            assert forall|k: int| 0 <= k < r1.len() implies #[trigger] self.qhs@[r1[k]]
                .horiz_link_ptr == qh_link_value(r1[if k + 1 == r1.len() { 0int } else { k + 1 }])
                by {
                if k == 0 {
                    assert(self.qhs@[0].horiz_link_ptr == qh_link_value(i as int));
                } else if k == 1 {
                    // the new QH inherited the head's old successor
                    if n == 1 {
                        assert(self.qhs@[i as int].horiz_link_ptr
                            == qh_link_value(r0[0]));
                    } else {
                        assert(self.qhs@[i as int].horiz_link_ptr
                            == qh_link_value(r0[1]));
                        assert(r1[2] == r0[1]);
                    }
                } else {
                    assert(r1[k] == r0[k - 1]);
                    assert(r0.contains(r0[k - 1]));
                    assert(r0[k - 1] != 0 && r0[k - 1] != i as int);
                    assert(self.qhs@[r1[k]] == old(self).qhs@[r0[k - 1]]);
                    if k + 1 == r1.len() {
                        assert(old(self).qhs@[r0[k - 1]].horiz_link_ptr
                            == qh_link_value(r0[0]));
                    } else {
                        assert(old(self).qhs@[r0[k - 1]].horiz_link_ptr
                            == qh_link_value(r0[k]));
                        assert(r1[k + 1] == r0[k]);
                    }
                }
            }
        }
    }

    /// Unsplice the Queue Head right after the head (slot `i`): the head's
    /// link is swung past it to its successor.  The caller must still ring
    /// the doorbell before reusing the slot's memory.
    pub fn ring_remove_after_head(&mut self, i: usize)
        requires
            hw_wf(*old(self)),
            ring_wf(old(self).qhs@, old(self).ring@),
            old(self).ring@.len() >= 2,
            old(self).ring@[1] == i as int,
            i < old(self).qhs@.len(),
        ensures
            ring_wf(final(self).qhs@, final(self).ring@),
            final(self).ring@ == old(self).ring@.remove(1),
            !final(self).ring@.contains(i as int),
            final(self).qhs@ == old(self).qhs@.update(0, (QueueHead {
                horiz_link_ptr: old(self).qhs@[i as int].horiz_link_ptr,
                ..old(self).qhs@[0]
            })),
            *final(self) == (EhciHw {
                qhs: final(self).qhs,
                ring: final(self).ring,
                ..*old(self)
            }),
    {
        let ghost r0 = self.ring@;
        let q = self.qhs[i];
        let mut h = self.qhs[0];
        h.horiz_link_ptr = q.horiz_link_ptr;
        self.qhs.set(0, h);
        proof {
            self.ring = Ghost(r0.remove(1));
            r0.remove_ensures(1);
            let r1 = self.ring@;
            let n = r0.len() as int;
            assert(r1.len() == n - 1);
            assert(r1[0] == r0[0]);
            assert forall|k: int| 0 <= k < r1.len() implies 0 <= #[trigger] r1[k]
                < self.qhs@.len() by {
                if k >= 1 {
                    assert(r1[k] == r0[k + 1]);
                }
            }
            assert forall|k: int, l: int| 0 <= k < l < r1.len() implies r1[k] != r1[l] by {
                if k >= 1 {
                    assert(r1[k] == r0[k + 1] && r1[l] == r0[l + 1]);
                } else {
                    assert(r1[l] == r0[l + 1]);
                }
            }
            assert forall|k: int| 0 <= k < r1.len() implies r1[k] != i as int by {
                if k == 0 {
                    assert(r1[0] == 0 && r0[1] == i as int && r0[0] == 0);
                } else {
                    assert(r1[k] == r0[k + 1]);
                }
            }
            assert(!r1.contains(i as int));
            assert forall|k: int| 0 <= k < r1.len() implies #[trigger] self.qhs@[r1[k]]
                .horiz_link_ptr == qh_link_value(r1[if k + 1 == r1.len() { 0int } else { k + 1 }])
                by {
                if k == 0 {
                    // head now links to the removed QH's old successor
                    if n == 2 {
                        assert(old(self).qhs@[i as int].horiz_link_ptr
                            == qh_link_value(r0[0]));
                    } else {
                        assert(old(self).qhs@[i as int].horiz_link_ptr
                            == qh_link_value(r0[2]));
                        assert(r1[1] == r0[2]);
                    }
                } else {
                    assert(r1[k] == r0[k + 1]);
                    assert(r0[k + 1] != 0);
                    assert(self.qhs@[r1[k]] == old(self).qhs@[r0[k + 1]]);
                    if k + 1 == r1.len() {
                        assert(old(self).qhs@[r0[k + 1]].horiz_link_ptr
                            == qh_link_value(r0[0]));
                    } else {
                        assert(old(self).qhs@[r0[k + 1]].horiz_link_ptr
                            == qh_link_value(r0[k + 2]));
                        assert(r1[k + 1] == r0[k + 2]);
                    }
                }
            }
        }
    }

    // -----------------------------------------------------------------------
    // The scripted device
    // -----------------------------------------------------------------------

    /// The token a stage ends with when the device answers: active clears,
    /// the response's error bits go in, the byte count becomes the residual
    /// and the toggle advances.
    fn completed_token(&self, t: u32, err: u32, residual: u32) -> (r: u32)
        requires
            residual <= 0x7fff,
        ensures
            token_completed_rel(t, err, residual, r),
    {
        let keep = t & 0x8f00;
        let tog: u32 = if t & 0x8000_0000 == 0 {
            0x8000_0000
        } else {
            0
        };
        let r = keep | (err & 0x78) | (residual << 16) | tog;
        proof {
            let e = err;
            let res = residual;
            let tg = tog;
            assert((res <= 0x7fff && tg == (if t & 0x8000_0000 == 0 {
                0x8000_0000u32
            } else {
                0u32
            })) ==> {
                let w = (t & 0x8f00) | (e & 0x78) | (res << 16) | tg;
                (w & 0x80 == 0 && (w & 0x40 != 0) == (e & 0x40 != 0)
                    && (w & 0x78 != 0) == (e & 0x78 != 0) && (w >> 16) & 0x7fff == res
                    && (w & 0x8000_0000 != 0) == (t & 0x8000_0000 == 0)
                    && (w >> 8) & 3 == (t >> 8) & 3 && (w >> 10) & 3 == (t >> 10) & 3
                    && (w & 0x8000 != 0) == (t & 0x8000 != 0))
            }) by (bit_vector);
        }
        r
    }

    /// Deliver the bytes of an IN stage into the staging buffer.
    fn deliver_in_bytes(&mut self, data_off: usize, delivered: usize, bytes: &Vec<u8>)
        requires
            data_off + delivered <= old(self).data@.len(),
        ensures
            final(self).data@.len() == old(self).data@.len(),
            forall|j: int| 0 <= j < data_off ==> final(self).data@[j] == old(self).data@[j],
            forall|j: int| data_off <= j < data_off + delivered
                ==> final(self).data@[j] == padded(bytes@, delivered as int)[j - data_off],
            forall|j: int| data_off + delivered <= j < old(self).data@.len()
                ==> final(self).data@[j] == old(self).data@[j],
            *final(self) == (EhciHw { data: final(self).data, ..*old(self) }),
    {
        let ghost pre = self.data@;
        let mut b: usize = 0;
        while b < delivered
            invariant
                b <= delivered,
                data_off + delivered <= self.data@.len(),
                self.data@.len() == pre.len(),
                forall|j: int| 0 <= j < data_off ==> self.data@[j] == pre[j],
                forall|j: int| data_off <= j < data_off + b
                    ==> self.data@[j] == padded(bytes@, delivered as int)[j - data_off],
                forall|j: int| data_off + b <= j < pre.len() ==> self.data@[j] == pre[j],
                *self == (EhciHw { data: self.data, ..*old(self) }),
            decreases delivered - b,
        {
            // bind the buffer length so the index stays within usize
            let n = self.data.len();
            let v: u8 = if b < bytes.len() {
                bytes[b]
            } else {
                0
            };
            self.data.set(data_off + b, v);
            b = b + 1;
        }
    }

    /// The device's answer to a submitted control chain (SETUP, optional
    /// DATA, STATUS): consume the front of the script; if it completes,
    /// finish every stage, apply the residual to the data stage, and place
    /// the answered bytes for an IN data stage.
    pub fn device_act_control(&mut self, setup_i: usize, has_data: bool, data_i: usize,
        status_i: usize, data_off: usize, data_len: usize, is_in: bool)
        requires
            setup_i < old(self).qtds@.len(),
            status_i < old(self).qtds@.len(),
            setup_i != status_i,
            has_data ==> data_i < old(self).qtds@.len() && data_i != setup_i
                && data_i != status_i,
            data_off + data_len <= old(self).data@.len(),
            data_len <= 0x7fff,
        ensures
            final(self).req_log@ == old(self).req_log@.push(old(self).data@.subrange(0, 8)),
            old(self).script@.len() == 0 ==> final(self).qtds@ == old(self).qtds@
                && final(self).data@ == old(self).data@
                && final(self).script@ == old(self).script@,
            old(self).script@.len() > 0 ==> final(self).script@ == old(self).script@.remove(0),
            old(self).script@.len() > 0 && !old(self).script@[0].completes
                ==> final(self).qtds@ == old(self).qtds@ && final(self).data@ == old(self).data@,
            final(self).qtds@.len() == old(self).qtds@.len(),
            final(self).data@.len() == old(self).data@.len(),
            old(self).script@.len() > 0 && old(self).script@[0].completes ==> {
                let resp = old(self).script@[0];
                let res = eff_residual(resp.residual, data_len as int);
                let delivered = data_len - res;
                &&& token_completed_rel(old(self).qtds@[setup_i as int].token, resp.error_bits,
                    0, final(self).qtds@[setup_i as int].token)
                &&& token_completed_rel(old(self).qtds@[status_i as int].token, resp.error_bits,
                    0, final(self).qtds@[status_i as int].token)
                &&& (has_data ==> token_completed_rel(old(self).qtds@[data_i as int].token,
                    resp.error_bits, res as u32, final(self).qtds@[data_i as int].token))
                &&& forall|j: int| 0 <= j < old(self).qtds@.len() && j != setup_i
                    && j != status_i && !(has_data && j == data_i)
                    ==> final(self).qtds@[j] == old(self).qtds@[j]
                &&& forall|j: int| 0 <= j < old(self).qtds@.len()
                    ==> (#[trigger] final(self).qtds@[j]).next_qtd == old(self).qtds@[j].next_qtd
                        && final(self).qtds@[j].alt_qtd == old(self).qtds@[j].alt_qtd
                        && final(self).qtds@[j].buffer_ptrs == old(self).qtds@[j].buffer_ptrs
                &&& final(self).data@.len() == old(self).data@.len()
                &&& (has_data && is_in ==> (forall|j: int| 0 <= j < data_off
                        ==> final(self).data@[j] == old(self).data@[j])
                    && (forall|j: int| data_off <= j < data_off + delivered
                        ==> final(self).data@[j] == padded(resp.data@, delivered)[j - data_off])
                    && (forall|j: int| data_off + delivered <= j < old(self).data@.len()
                        ==> final(self).data@[j] == old(self).data@[j]))
                &&& (!(has_data && is_in) ==> final(self).data@ == old(self).data@)
            },
            *final(self) == (EhciHw {
                qtds: final(self).qtds,
                data: final(self).data,
                script: final(self).script,
                req_log: final(self).req_log,
                ..*old(self)
            }),
    {
        proof {
            self.req_log = Ghost(self.req_log@.push(self.data@.subrange(0, 8)));
        }
        if self.script.len() == 0 {
            return;
        }
        let resp = self.script.remove(0);
        if !resp.completes {
            return;
        }
        let res32: u32 = if resp.residual > data_len as u32 {
            data_len as u32
        } else {
            resp.residual
        };
        let mut qs = self.qtds[setup_i];
        qs.token = self.completed_token(qs.token, resp.error_bits, 0);
        self.qtds.set(setup_i, qs);
        if has_data {
            let mut qd = self.qtds[data_i];
            qd.token = self.completed_token(qd.token, resp.error_bits, res32);
            self.qtds.set(data_i, qd);
            if is_in {
                let delivered = data_len - res32 as usize;
                self.deliver_in_bytes(data_off, delivered, &resp.data);
            }
        }
        let mut qt = self.qtds[status_i];
        qt.token = self.completed_token(qt.token, resp.error_bits, 0);
        self.qtds.set(status_i, qt);
    }

    /// The device's answer to a submitted single-qTD bulk transfer.
    pub fn device_act_bulk(&mut self, qtd_i: usize, data_off: usize, data_len: usize,
        is_in: bool)
        requires
            qtd_i < old(self).qtds@.len(),
            data_off + data_len <= old(self).data@.len(),
            data_len <= 0x7fff,
        ensures
            old(self).script@.len() == 0 ==> *final(self) == *old(self),
            old(self).script@.len() > 0 ==> final(self).script@ == old(self).script@.remove(0),
            old(self).script@.len() > 0 && !old(self).script@[0].completes
                ==> final(self).qtds@ == old(self).qtds@ && final(self).data@ == old(self).data@,
            final(self).qtds@.len() == old(self).qtds@.len(),
            final(self).data@.len() == old(self).data@.len(),
            old(self).script@.len() > 0 && old(self).script@[0].completes ==> {
                let resp = old(self).script@[0];
                let res = eff_residual(resp.residual, data_len as int);
                let delivered = data_len - res;
                &&& token_completed_rel(old(self).qtds@[qtd_i as int].token, resp.error_bits,
                    res as u32, final(self).qtds@[qtd_i as int].token)
                &&& forall|j: int| 0 <= j < old(self).qtds@.len() && j != qtd_i
                    ==> final(self).qtds@[j] == old(self).qtds@[j]
                &&& forall|j: int| 0 <= j < old(self).qtds@.len()
                    ==> (#[trigger] final(self).qtds@[j]).next_qtd == old(self).qtds@[j].next_qtd
                        && final(self).qtds@[j].alt_qtd == old(self).qtds@[j].alt_qtd
                        && final(self).qtds@[j].buffer_ptrs == old(self).qtds@[j].buffer_ptrs
                &&& final(self).data@.len() == old(self).data@.len()
                &&& (is_in ==> (forall|j: int| 0 <= j < data_off
                        ==> final(self).data@[j] == old(self).data@[j])
                    && (forall|j: int| data_off <= j < data_off + delivered
                        ==> final(self).data@[j] == padded(resp.data@, delivered)[j - data_off])
                    && (forall|j: int| data_off + delivered <= j < old(self).data@.len()
                        ==> final(self).data@[j] == old(self).data@[j]))
                &&& (!is_in ==> final(self).data@ == old(self).data@)
            },
            *final(self) == (EhciHw {
                qtds: final(self).qtds,
                data: final(self).data,
                script: final(self).script,
                ..*old(self)
            }),
    {
        if self.script.len() == 0 {
            return;
        }
        let resp = self.script.remove(0);
        if !resp.completes {
            return;
        }
        let res32: u32 = if resp.residual > data_len as u32 {
            data_len as u32
        } else {
            resp.residual
        };
        let mut q = self.qtds[qtd_i];
        q.token = self.completed_token(q.token, resp.error_bits, res32);
        self.qtds.set(qtd_i, q);
        if is_in {
            let delivered = data_len - res32 as usize;
            self.deliver_in_bytes(data_off, delivered, &resp.data);
        }
    }
}

} // verus!
