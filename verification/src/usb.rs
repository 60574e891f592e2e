//! Shared USB types: error taxonomy, device speeds and endpoint records.

use vstd::prelude::*;

verus! {

/// Errors surfaced by the USB host-controller drivers.
#[derive(Clone, Copy, Debug, PartialEq, Eq, Structural)]
pub enum UsbError {
    /// Controller or endpoint not yet usable.
    NotReady,
    /// Scratch / schedule memory could not be allocated.
    AllocationFailed,
    /// A bounded poll never observed the expected condition.
    Timeout,
    /// Device reported a STALL (halted endpoint).
    Stall,
    /// Any other transaction-level error (babble, buffer error, ...).
    TransactionError,
    /// The caller named a device address that is not in the table.
    DeviceNotFound,
    /// Malformed caller arguments.
    InvalidParameter,
    /// Device table or address space exhausted.
    NoFreeSlots,
}

/// USB device speed classes.
#[derive(Clone, Copy, Debug, PartialEq, Eq, Structural)]
pub enum UsbSpeed {
    Low,
    Full,
    High,
}

impl UsbSpeed {
    /// Conservative default max-packet size for endpoint 0, used before the
    /// device descriptor has been read.
    pub fn default_max_packet_size(self) -> (r: u16)
        ensures
            r == self.spec_default_max_packet(),
    {
        match self {
            UsbSpeed::Low => 8,
            UsbSpeed::Full => 8,
            UsbSpeed::High => 64,
        }
    }

    pub open spec fn spec_default_max_packet(self) -> u16 {
        match self {
            UsbSpeed::Low => 8u16,
            UsbSpeed::Full => 8u16,
            UsbSpeed::High => 64u16,
        }
    }
}

/// Transfer direction, from the host's point of view.
#[derive(Clone, Copy, Debug, PartialEq, Eq, Structural)]
pub enum Direction {
    In,
    Out,
}

/// Standard request-type bits and request codes used during enumeration.
pub const REQ_DIR_IN: u8 = 0x80;
pub const REQ_DIR_OUT: u8 = 0x00;
pub const REQ_TYPE_STANDARD: u8 = 0x00;
pub const REQ_RCPT_DEVICE: u8 = 0x00;

pub const REQUEST_SET_ADDRESS: u8 = 5;
pub const REQUEST_GET_DESCRIPTOR: u8 = 6;
pub const REQUEST_SET_CONFIGURATION: u8 = 9;

pub const DESC_TYPE_DEVICE: u8 = 1;
pub const DESC_TYPE_CONFIGURATION: u8 = 2;
pub const DESC_TYPE_INTERFACE: u8 = 4;
pub const DESC_TYPE_ENDPOINT: u8 = 5;

/// The class/subclass/protocol triple of a bulk-only mass-storage interface.
pub const CLASS_MASS_STORAGE: u8 = 8;
pub const SUBCLASS_SCSI: u8 = 6;
pub const PROTOCOL_BULK_ONLY: u8 = 0x50;

/// The class/subclass/protocol triple of a boot-protocol HID keyboard.
pub const CLASS_HID: u8 = 3;
pub const SUBCLASS_BOOT: u8 = 1;
pub const PROTOCOL_KEYBOARD: u8 = 1;

/// The low byte of a 16-bit value on the wire.
pub open spec fn le_lo(v: u16) -> u8 {
    (v % 256) as u8
}

/// The high byte of a 16-bit value on the wire.
pub open spec fn le_hi(v: u16) -> u8 {
    (v / 256) as u8
}

/// A 16-bit value read little-endian from two wire bytes.
pub open spec fn le16(b0: u8, b1: u8) -> u16 {
    (b0 + 256 * b1) as u16
}

/// The 8 bytes of a control-request packet: request type, request code,
/// then value, index and length little-endian.
pub open spec fn spec_setup_packet(request_type: u8, request: u8, value: u16, index: u16,
    length: u16) -> Seq<u8> {
    seq![request_type, request, le_lo(value), le_hi(value), le_lo(index), le_hi(index),
        le_lo(length), le_hi(length)]
}

/// Build the 8-byte USB control-request packet.
pub fn build_setup_packet(request_type: u8, request: u8, value: u16, index: u16, length: u16)
    -> (r: Vec<u8>)
    ensures
        r@ == spec_setup_packet(request_type, request, value, index, length),
{
    let mut p: Vec<u8> = Vec::new();
    p.push(request_type);
    p.push(request);
    p.push((value % 256) as u8);
    p.push((value / 256) as u8);
    p.push((index % 256) as u8);
    p.push((index / 256) as u8);
    p.push((length % 256) as u8);
    p.push((length / 256) as u8);
    proof {
        assert(p@ =~= spec_setup_packet(request_type, request, value, index, length));
    }
    p
}

/// One endpoint descriptor's payload.
#[derive(Clone, Copy, Debug, PartialEq, Eq, Structural)]
pub struct EndpointInfo {
    /// Endpoint address: number in the low bits, direction in bit 7.
    pub address: u8,
    /// Attributes: transfer type in the low two bits.
    pub attributes: u8,
    /// Maximum packet size.
    pub max_packet_size: u16,
    /// Polling interval.
    pub interval: u8,
}

pub open spec fn ep_is_bulk_in(e: EndpointInfo) -> bool {
    e.attributes & 3 == 2 && e.address & 0x80 != 0
}

pub open spec fn ep_is_bulk_out(e: EndpointInfo) -> bool {
    e.attributes & 3 == 2 && e.address & 0x80 == 0
}

pub open spec fn ep_is_interrupt_in(e: EndpointInfo) -> bool {
    e.attributes & 3 == 3 && e.address & 0x80 != 0
}

/// The first bulk IN endpoint of a sequence.
pub open spec fn spec_find_bulk_in(s: Seq<EndpointInfo>) -> Option<EndpointInfo>
    decreases s.len(),
{
    if s.len() == 0 {
        None
    } else if ep_is_bulk_in(s[0]) {
        Some(s[0])
    } else {
        spec_find_bulk_in(s.skip(1))
    }
}

/// If everything before `i` misses and `i` hits, the search stops at `i`.
pub proof fn lemma_find_bulk_in_hit(s: Seq<EndpointInfo>, i: int)
    requires
        0 <= i < s.len(),
        forall|j: int| 0 <= j < i ==> !ep_is_bulk_in(s[j]),
        ep_is_bulk_in(s[i]),
    ensures
        spec_find_bulk_in(s) == Some(s[i]),
    decreases i,
{
    if i > 0 {
        lemma_find_bulk_in_hit(s.skip(1), i - 1);
    }
}

/// If every endpoint misses, the search comes up empty.
pub proof fn lemma_find_bulk_in_miss(s: Seq<EndpointInfo>)
    requires
        forall|j: int| 0 <= j < s.len() ==> !ep_is_bulk_in(s[j]),
    ensures
        spec_find_bulk_in(s) == None::<EndpointInfo>,
    decreases s.len(),
{
    if s.len() > 0 {
        lemma_find_bulk_in_miss(s.skip(1));
    }
}

/// The first bulk OUT endpoint of a sequence.
pub open spec fn spec_find_bulk_out(s: Seq<EndpointInfo>) -> Option<EndpointInfo>
    decreases s.len(),
{
    if s.len() == 0 {
        None
    } else if ep_is_bulk_out(s[0]) {
        Some(s[0])
    } else {
        spec_find_bulk_out(s.skip(1))
    }
}

/// If everything before `i` misses and `i` hits, the search stops at `i`.
pub proof fn lemma_find_bulk_out_hit(s: Seq<EndpointInfo>, i: int)
    requires
        0 <= i < s.len(),
        forall|j: int| 0 <= j < i ==> !ep_is_bulk_out(s[j]),
        ep_is_bulk_out(s[i]),
    ensures
        spec_find_bulk_out(s) == Some(s[i]),
    decreases i,
{
    if i > 0 {
        lemma_find_bulk_out_hit(s.skip(1), i - 1);
    }
}

/// If every endpoint misses, the search comes up empty.
pub proof fn lemma_find_bulk_out_miss(s: Seq<EndpointInfo>)
    requires
        forall|j: int| 0 <= j < s.len() ==> !ep_is_bulk_out(s[j]),
    ensures
        spec_find_bulk_out(s) == None::<EndpointInfo>,
    decreases s.len(),
{
    if s.len() > 0 {
        lemma_find_bulk_out_miss(s.skip(1));
    }
}

/// The first interrupt IN endpoint of a sequence.
pub open spec fn spec_find_interrupt_in(s: Seq<EndpointInfo>) -> Option<EndpointInfo>
    decreases s.len(),
{
    if s.len() == 0 {
        None
    } else if ep_is_interrupt_in(s[0]) {
        Some(s[0])
    } else {
        spec_find_interrupt_in(s.skip(1))
    }
}

/// If everything before `i` misses and `i` hits, the search stops at `i`.
pub proof fn lemma_find_interrupt_in_hit(s: Seq<EndpointInfo>, i: int)
    requires
        0 <= i < s.len(),
        forall|j: int| 0 <= j < i ==> !ep_is_interrupt_in(s[j]),
        ep_is_interrupt_in(s[i]),
    ensures
        spec_find_interrupt_in(s) == Some(s[i]),
    decreases i,
{
    if i > 0 {
        lemma_find_interrupt_in_hit(s.skip(1), i - 1);
    }
}

/// If every endpoint misses, the search comes up empty.
pub proof fn lemma_find_interrupt_in_miss(s: Seq<EndpointInfo>)
    requires
        forall|j: int| 0 <= j < s.len() ==> !ep_is_interrupt_in(s[j]),
    ensures
        spec_find_interrupt_in(s) == None::<EndpointInfo>,
    decreases s.len(),
{
    if s.len() > 0 {
        lemma_find_interrupt_in_miss(s.skip(1));
    }
}

/// Spec-level image of one parsed interface.
pub ghost struct IfaceView {
    pub interface_number: u8,
    pub class: u8,
    pub subclass: u8,
    pub protocol: u8,
    pub endpoints: Seq<EndpointInfo>,
}

/// One interface descriptor's payload together with the endpoints declared
/// under it.
#[derive(Clone, Debug)]
pub struct InterfaceInfo {
    pub interface_number: u8,
    pub class: u8,
    pub subclass: u8,
    pub protocol: u8,
    pub endpoints: Vec<EndpointInfo>,
}

impl View for InterfaceInfo {
    type V = IfaceView;

    open spec fn view(&self) -> IfaceView {
        IfaceView {
            interface_number: self.interface_number,
            class: self.class,
            subclass: self.subclass,
            protocol: self.protocol,
            endpoints: self.endpoints@,
        }
    }
}

pub open spec fn iface_is_mass_storage(i: IfaceView) -> bool {
    i.class == 8 && i.subclass == 6 && i.protocol == 0x50
}

pub open spec fn iface_is_hid_keyboard(i: IfaceView) -> bool {
    i.class == 3 && i.subclass == 1 && i.protocol == 1
}

impl InterfaceInfo {
    /// A bulk-only mass-storage interface.
    pub fn is_mass_storage(&self) -> (r: bool)
        ensures
            r == iface_is_mass_storage(self@),
    {
        self.class == CLASS_MASS_STORAGE && self.subclass == SUBCLASS_SCSI
            && self.protocol == PROTOCOL_BULK_ONLY
    }

    /// A boot-protocol HID keyboard interface.
    pub fn is_hid_keyboard(&self) -> (r: bool)
        ensures
            r == iface_is_hid_keyboard(self@),
    {
        self.class == CLASS_HID && self.subclass == SUBCLASS_BOOT
            && self.protocol == PROTOCOL_KEYBOARD
    }

    /// The first bulk IN endpoint, if any.
    pub fn find_bulk_in(&self) -> (r: Option<EndpointInfo>)
        ensures
            r == spec_find_bulk_in(self@.endpoints),
    {
        let mut i: usize = 0;
        while i < self.endpoints.len()
            invariant
                i <= self.endpoints@.len(),
                forall|j: int| 0 <= j < i ==> !ep_is_bulk_in(self.endpoints@[j]),
            decreases self.endpoints@.len() - i,
        {
            let e = self.endpoints[i];
            if e.attributes & 3 == 2 && e.address & 0x80 != 0 {
                proof {
                    lemma_find_bulk_in_hit(self@.endpoints, i as int);
                }
                return Some(e);
            }
            i = i + 1;
        }
        proof {
            lemma_find_bulk_in_miss(self@.endpoints);
        }
        None
    }

    /// The first bulk OUT endpoint, if any.
    pub fn find_bulk_out(&self) -> (r: Option<EndpointInfo>)
        ensures
            r == spec_find_bulk_out(self@.endpoints),
    {
        let mut i: usize = 0;
        while i < self.endpoints.len()
            invariant
                i <= self.endpoints@.len(),
                forall|j: int| 0 <= j < i ==> !ep_is_bulk_out(self.endpoints@[j]),
            decreases self.endpoints@.len() - i,
        {
            let e = self.endpoints[i];
            if e.attributes & 3 == 2 && e.address & 0x80 == 0 {
                proof {
                    lemma_find_bulk_out_hit(self@.endpoints, i as int);
                }
                return Some(e);
            }
            i = i + 1;
        }
        proof {
            lemma_find_bulk_out_miss(self@.endpoints);
        }
        None
    }

    /// The first interrupt IN endpoint, if any.
    pub fn find_interrupt_in(&self) -> (r: Option<EndpointInfo>)
        ensures
            r == spec_find_interrupt_in(self@.endpoints),
    {
        let mut i: usize = 0;
        while i < self.endpoints.len()
            invariant
                i <= self.endpoints@.len(),
                forall|j: int| 0 <= j < i ==> !ep_is_interrupt_in(self.endpoints@[j]),
            decreases self.endpoints@.len() - i,
        {
            let e = self.endpoints[i];
            if e.attributes & 3 == 3 && e.address & 0x80 != 0 {
                proof {
                    lemma_find_interrupt_in_hit(self@.endpoints, i as int);
                }
                return Some(e);
            }
            i = i + 1;
        }
        proof {
            lemma_find_interrupt_in_miss(self@.endpoints);
        }
        None
    }
}

/// Spec-level image of a parsed configuration.
pub ghost struct ConfigView {
    pub configuration_value: u8,
    pub interfaces: Seq<IfaceView>,
}

/// A parsed configuration descriptor: the configuration value to select and
/// the interface/endpoint table.
#[derive(Clone, Debug)]
pub struct ConfigurationInfo {
    pub configuration_value: u8,
    pub interfaces: Vec<InterfaceInfo>,
}

impl View for ConfigurationInfo {
    type V = ConfigView;

    open spec fn view(&self) -> ConfigView {
        ConfigView {
            configuration_value: self.configuration_value,
            interfaces: Seq::new(self.interfaces@.len(), |i: int| self.interfaces@[i]@),
        }
    }
}

impl Default for ConfigurationInfo {
    /// An empty configuration: nothing to select, no interfaces.
    fn default() -> (r: Self)
        ensures
            r.configuration_value == 0,
            r.interfaces@.len() == 0,
    {
        ConfigurationInfo { configuration_value: 0, interfaces: Vec::new() }
    }
}

/// The all-zero device descriptor a fresh record starts with.
pub open spec fn spec_zero_device_descriptor() -> DeviceDescriptor {
    DeviceDescriptor {
        length: 0u8,
        descriptor_type: 0u8,
        usb_version: 0u16,
        device_class: 0u8,
        device_subclass: 0u8,
        device_protocol: 0u8,
        max_packet_size0: 0u8,
        vendor_id: 0u16,
        product_id: 0u16,
        device_version: 0u16,
        manufacturer_index: 0u8,
        product_index: 0u8,
        serial_index: 0u8,
        num_configurations: 0u8,
    }
}

/// The decoding of 18 wire bytes into a device descriptor.
pub open spec fn spec_device_descriptor(b: Seq<u8>) -> DeviceDescriptor {
    DeviceDescriptor {
        length: b[0],
        descriptor_type: b[1],
        usb_version: le16(b[2], b[3]),
        device_class: b[4],
        device_subclass: b[5],
        device_protocol: b[6],
        max_packet_size0: b[7],
        vendor_id: le16(b[8], b[9]),
        product_id: le16(b[10], b[11]),
        device_version: le16(b[12], b[13]),
        manufacturer_index: b[14],
        product_index: b[15],
        serial_index: b[16],
        num_configurations: b[17],
    }
}

/// The standard 18-byte device descriptor.
#[derive(Clone, Copy, Debug, PartialEq, Eq, Structural)]
pub struct DeviceDescriptor {
    pub length: u8,
    pub descriptor_type: u8,
    pub usb_version: u16,
    pub device_class: u8,
    pub device_subclass: u8,
    pub device_protocol: u8,
    pub max_packet_size0: u8,
    pub vendor_id: u16,
    pub product_id: u16,
    pub device_version: u16,
    pub manufacturer_index: u8,
    pub product_index: u8,
    pub serial_index: u8,
    pub num_configurations: u8,
}

impl Default for DeviceDescriptor {
    /// An all-zero descriptor.
    fn default() -> (r: Self)
        ensures
            r == spec_zero_device_descriptor(),
            r == (DeviceDescriptor {
                length: 0u8,
                descriptor_type: 0u8,
                usb_version: 0u16,
                device_class: 0u8,
                device_subclass: 0u8,
                device_protocol: 0u8,
                max_packet_size0: 0u8,
                vendor_id: 0u16,
                product_id: 0u16,
                device_version: 0u16,
                manufacturer_index: 0u8,
                product_index: 0u8,
                serial_index: 0u8,
                num_configurations: 0u8,
            }),
    {
        DeviceDescriptor {
            length: 0,
            descriptor_type: 0,
            usb_version: 0,
            device_class: 0,
            device_subclass: 0,
            device_protocol: 0,
            max_packet_size0: 0,
            vendor_id: 0,
            product_id: 0,
            device_version: 0,
            manufacturer_index: 0,
            product_index: 0,
            serial_index: 0,
            num_configurations: 0,
        }
    }
}

impl DeviceDescriptor {
    /// Decode the 18 wire bytes of a device descriptor.
    pub fn parse(b: &Vec<u8>) -> (r: Self)
        requires
            b@.len() >= 18,
        ensures
            r == spec_device_descriptor(b@),
            r.length == b@[0],
            r.descriptor_type == b@[1],
            r.usb_version == le16(b@[2], b@[3]),
            r.device_class == b@[4],
            r.device_subclass == b@[5],
            r.device_protocol == b@[6],
            r.max_packet_size0 == b@[7],
            r.vendor_id == le16(b@[8], b@[9]),
            r.product_id == le16(b@[10], b@[11]),
            r.device_version == le16(b@[12], b@[13]),
            r.manufacturer_index == b@[14],
            r.product_index == b@[15],
            r.serial_index == b@[16],
            r.num_configurations == b@[17],
    {
        DeviceDescriptor {
            length: b[0],
            descriptor_type: b[1],
            usb_version: b[2] as u16 + 256 * (b[3] as u16),
            device_class: b[4],
            device_subclass: b[5],
            device_protocol: b[6],
            max_packet_size0: b[7],
            vendor_id: b[8] as u16 + 256 * (b[9] as u16),
            product_id: b[10] as u16 + 256 * (b[11] as u16),
            device_version: b[12] as u16 + 256 * (b[13] as u16),
            manufacturer_index: b[14],
            product_index: b[15],
            serial_index: b[16],
            num_configurations: b[17],
        }
    }
}

// ---------------------------------------------------------------------------
// Configuration-descriptor parsing
// ---------------------------------------------------------------------------

/// The endpoint descriptors following `pos`, up to the next interface
/// descriptor.  Descriptors of other types are skipped; a truncated or
/// zero-progress descriptor ends the walk.
pub open spec fn spec_parse_endpoints(b: Seq<u8>, pos: int) -> Seq<EndpointInfo>
    decreases b.len() - pos when pos >= 0
{
    if pos < 0 || pos + 2 > b.len() || b[pos] < 2 || pos + b[pos] > b.len() {
        Seq::empty()
    } else if b[pos + 1] == 4 {
        Seq::empty()
    } else if b[pos + 1] == 5 && b[pos] >= 7 {
        seq![EndpointInfo {
            address: b[pos + 2],
            attributes: b[pos + 3],
            max_packet_size: le16(b[pos + 4], b[pos + 5]),
            interval: b[pos + 6],
        }].add(spec_parse_endpoints(b, pos + b[pos]))
    } else {
        spec_parse_endpoints(b, pos + b[pos])
    }
}

/// The interfaces declared from `pos` on, each carrying the endpoints that
/// follow it.
pub open spec fn spec_parse_interfaces(b: Seq<u8>, pos: int) -> Seq<IfaceView>
    decreases b.len() - pos when pos >= 0
{
    if pos < 0 || pos + 2 > b.len() || b[pos] < 2 || pos + b[pos] > b.len() {
        Seq::empty()
    } else if b[pos + 1] == 4 && b[pos] >= 9 {
        seq![IfaceView {
            interface_number: b[pos + 2],
            class: b[pos + 5],
            subclass: b[pos + 6],
            protocol: b[pos + 7],
            endpoints: spec_parse_endpoints(b, pos + b[pos]),
        }].add(spec_parse_interfaces(b, pos + b[pos]))
    } else {
        spec_parse_interfaces(b, pos + b[pos])
    }
}

/// The configuration value named by the first configuration descriptor from
/// `pos` on, or zero if there is none.
pub open spec fn spec_config_value(b: Seq<u8>, pos: int) -> u8
    decreases b.len() - pos when pos >= 0
{
    if pos < 0 || pos + 2 > b.len() || b[pos] < 2 || pos + b[pos] > b.len() {
        0
    } else if b[pos + 1] == 2 && b[pos] >= 6 {
        b[pos + 5]
    } else {
        spec_config_value(b, pos + b[pos])
    }
}

/// Collect the endpoint descriptors from `pos` up to the next interface.
fn parse_endpoints_at(b: &Vec<u8>, pos: usize) -> (r: Vec<EndpointInfo>)
    requires
        pos <= b@.len(),
    ensures
        r@ == spec_parse_endpoints(b@, pos as int),
    decreases b@.len() - pos,
{
    let n = b.len();
    if pos >= n || n - pos < 2 {
        return Vec::new();
    }
    let l = b[pos] as usize;
    if l < 2 || l > n - pos {
        return Vec::new();
    }
    let t = b[pos + 1];
    if t == DESC_TYPE_INTERFACE {
        return Vec::new();
    }
    if t == DESC_TYPE_ENDPOINT && l >= 7 {
        let ep = EndpointInfo {
            address: b[pos + 2],
            attributes: b[pos + 3],
            max_packet_size: b[pos + 4] as u16 + 256 * (b[pos + 5] as u16),
            interval: b[pos + 6],
        };
        let mut rest = parse_endpoints_at(b, pos + l);
        rest.insert(0, ep);
        proof {
            assert(rest@ =~= spec_parse_endpoints(b@, pos as int));
        }
        rest
    } else {
        parse_endpoints_at(b, pos + l)
    }
}

/// Collect the interfaces from `pos` on.
fn parse_interfaces_at(b: &Vec<u8>, pos: usize) -> (r: Vec<InterfaceInfo>)
    requires
        pos <= b@.len(),
    ensures
        Seq::new(r@.len(), |i: int| r@[i]@) == spec_parse_interfaces(b@, pos as int),
    decreases b@.len() - pos,
{
    let n = b.len();
    if pos >= n || n - pos < 2 {
        let r: Vec<InterfaceInfo> = Vec::new();
        proof {
            assert(Seq::new(r@.len(), |i: int| r@[i]@) =~= spec_parse_interfaces(b@, pos as int));
        }
        return r;
    }
    let l = b[pos] as usize;
    if l < 2 || l > n - pos {
        let r: Vec<InterfaceInfo> = Vec::new();
        proof {
            assert(Seq::new(r@.len(), |i: int| r@[i]@) =~= spec_parse_interfaces(b@, pos as int));
        }
        return r;
    }
    let t = b[pos + 1];
    if t == DESC_TYPE_INTERFACE && l >= 9 {
        let iface = InterfaceInfo {
            interface_number: b[pos + 2],
            class: b[pos + 5],
            subclass: b[pos + 6],
            protocol: b[pos + 7],
            endpoints: parse_endpoints_at(b, pos + l),
        };
        let mut rest = parse_interfaces_at(b, pos + l);
        rest.insert(0, iface);
        proof {
            assert(Seq::new(rest@.len(), |i: int| rest@[i]@)
                =~= spec_parse_interfaces(b@, pos as int));
        }
        rest
    } else {
        parse_interfaces_at(b, pos + l)
    }
}

/// The configuration value named at or after `pos`.
fn config_value_at(b: &Vec<u8>, pos: usize) -> (r: u8)
    requires
        pos <= b@.len(),
    ensures
        r == spec_config_value(b@, pos as int),
    decreases b@.len() - pos,
{
    let n = b.len();
    if pos >= n || n - pos < 2 {
        return 0;
    }
    let l = b[pos] as usize;
    if l < 2 || l > n - pos {
        return 0;
    }
    if b[pos + 1] == DESC_TYPE_CONFIGURATION && l >= 6 {
        b[pos + 5]
    } else {
        config_value_at(b, pos + l)
    }
}

/// Parse a configuration descriptor's raw bytes into the configuration
/// value and the interface/endpoint table.
pub fn parse_configuration(b: &Vec<u8>) -> (r: ConfigurationInfo)
    ensures
        r@.configuration_value == spec_config_value(b@, 0),
        r@.interfaces == spec_parse_interfaces(b@, 0),
{
    let value = config_value_at(b, 0);
    let interfaces = parse_interfaces_at(b, 0);
    ConfigurationInfo { configuration_value: value, interfaces }
}

} // verus!
