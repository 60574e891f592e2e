//! Setup packets, descriptor decoding and configuration parsing.

use crabefi::usb::{build_setup_packet, parse_configuration, DeviceDescriptor, EndpointInfo,
    InterfaceInfo};

#[test]
fn setup_packet_layout() {
    let p = build_setup_packet(0x80, 6, 0x0100, 0x1234, 18);
    assert_eq!(p, vec![0x80, 6, 0x00, 0x01, 0x34, 0x12, 18, 0]);
}

#[test]
fn device_descriptor_fields() {
    let b: Vec<u8> = vec![18, 1, 0x10, 0x02, 8, 6, 0x50, 64, 0xcd, 0xab, 0x22, 0x11, 0x01,
        0x00, 1, 2, 3, 1];
    let d = DeviceDescriptor::parse(&b);
    assert_eq!(d.length, 18);
    assert_eq!(d.descriptor_type, 1);
    assert_eq!(d.usb_version, 0x0210);
    assert_eq!(d.device_class, 8);
    assert_eq!(d.max_packet_size0, 64);
    assert_eq!(d.vendor_id, 0xabcd);
    assert_eq!(d.product_id, 0x1122);
    assert_eq!(d.device_version, 0x0001);
    assert_eq!(d.num_configurations, 1);
}

fn msd_config() -> Vec<u8> {
    let mut cfg = vec![9u8, 2, 41, 0, 2, 7, 0, 0x80, 50];
    // interface 0: mass storage with bulk IN + OUT
    cfg.extend_from_slice(&[9, 4, 0, 0, 2, 8, 6, 0x50, 0]);
    cfg.extend_from_slice(&[7, 5, 0x81, 2, 0, 2, 0]);
    cfg.extend_from_slice(&[7, 5, 0x02, 2, 0, 2, 0]);
    // interface 1: a HID keyboard with one interrupt IN endpoint
    cfg.extend_from_slice(&[9, 4, 1, 0, 1, 3, 1, 1, 0]);
    cfg.extend_from_slice(&[7, 5, 0x83, 3, 8, 0, 10]);
    cfg
}

#[test]
fn configuration_parsing() {
    let cfg = parse_configuration(&msd_config());
    assert_eq!(cfg.configuration_value, 7);
    assert_eq!(cfg.interfaces.len(), 2);

    let i0 = &cfg.interfaces[0];
    assert_eq!(i0.interface_number, 0);
    assert!(i0.is_mass_storage());
    assert!(!i0.is_hid_keyboard());
    assert_eq!(i0.endpoints.len(), 2);
    let bin = i0.find_bulk_in().expect("bulk in");
    assert_eq!(bin.address, 0x81);
    assert_eq!(bin.max_packet_size, 512);
    let bout = i0.find_bulk_out().expect("bulk out");
    assert_eq!(bout.address, 0x02);
    assert_eq!(i0.find_interrupt_in(), None);

    let i1 = &cfg.interfaces[1];
    assert!(i1.is_hid_keyboard());
    let iin = i1.find_interrupt_in().expect("interrupt in");
    assert_eq!(iin.address, 0x83);
    assert_eq!(iin.max_packet_size, 8);
    assert_eq!(iin.interval, 10);
}

#[test]
fn truncated_configuration_stops_cleanly() {
    // a descriptor whose declared length runs past the buffer ends the walk
    let bytes: Vec<u8> = vec![9, 2, 18, 0, 1, 1, 0, 0x80, 50, 9, 4, 0, 0];
    let cfg = parse_configuration(&bytes);
    assert_eq!(cfg.configuration_value, 1);
    assert_eq!(cfg.interfaces.len(), 0);
}

#[test]
fn zero_length_descriptor_stops_the_walk() {
    let bytes: Vec<u8> = vec![9, 2, 12, 0, 1, 1, 0, 0x80, 50, 0, 0, 0];
    let cfg = parse_configuration(&bytes);
    assert_eq!(cfg.configuration_value, 1);
    assert_eq!(cfg.interfaces.len(), 0);
}

#[test]
fn endpoint_search_takes_the_first_match() {
    let iface = InterfaceInfo {
        interface_number: 0,
        class: 8,
        subclass: 6,
        protocol: 0x50,
        endpoints: vec![
            EndpointInfo { address: 0x81, attributes: 2, max_packet_size: 512, interval: 0 },
            EndpointInfo { address: 0x82, attributes: 2, max_packet_size: 64, interval: 0 },
        ],
    };
    assert_eq!(iface.find_bulk_in().unwrap().address, 0x81);
}

#[test]
fn empty_configuration() {
    let cfg = parse_configuration(&Vec::new());
    assert_eq!(cfg.configuration_value, 0);
    assert_eq!(cfg.interfaces.len(), 0);
}
