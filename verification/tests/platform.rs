//! The smaller platform records and helpers.

use crabefi::sdhci::{SdhciController, SdhciError, make_blksz, make_cmd, get_cmd};
use crabefi::iso9660::{is_iso9660, EfiBootImage, IsoError};
use crabefi::logger::get_timestamp_k;
use crabefi::arch::CpuFeatures;
use crabefi::coreboot::SerialInfo;
use crabefi::device_path::{UsbDevicePathNode, AcpiDevicePathNode, PciDevicePathNode,
    NvmeDevicePathNode, SataDevicePathNode};
use crabefi::pci::PciAddress;
use crabefi::ehci_regs::parse_capabilities;
use crabefi::usb::UsbSpeed;

#[test]
fn sdhci_register_helpers() {
    // boundary 7, block size 512
    assert_eq!(make_blksz(7, 512), (7 << 12) | 512);
    // an oversized block size is masked to the field
    assert_eq!(make_blksz(0, 0x1fff), 0xfff);
    // command 17 (READ_SINGLE_BLOCK) with CRC+index checks and data
    assert_eq!(make_cmd(17, 0x3a), (17 << 8) | 0x3a);
    assert_eq!(get_cmd(make_cmd(17, 0x3a)), 17);
    assert_eq!(get_cmd(0xffff), 0x3f);
}

#[test]
fn sdhci_controller_record() {
    let addr = PciAddress { bus: 0, device: 0x1f, function: 3 };
    let c = SdhciController::new(addr, 0xfe00_0000, 0x10_0000);
    assert_eq!(c.pci_address(), addr);
    assert_eq!(c.block_size(), 512);
    assert_eq!(c.num_blocks(), 0);
    assert!(!c.is_ready());
    let mut c = c;
    c.card_present = true;
    c.card_initialized = true;
    c.num_blocks = 0x74_0000;
    assert!(c.is_ready());
    assert_eq!(c.num_blocks(), 0x74_0000);
    let _ = SdhciError::CommandTimeout;
}

#[test]
fn iso9660_signature() {
    let mut sector = vec![1u8];
    sector.extend_from_slice(b"CD001");
    sector.push(1);
    sector.push(0);
    assert!(is_iso9660(&sector));

    let other = vec![1u8, b'C', b'D', b'0', b'0', b'2', 1, 0];
    assert!(!is_iso9660(&other));
    assert!(!is_iso9660(&vec![1, 2, 3]));

    let img = EfiBootImage { start_sector: 100, sector_count: 8, size_bytes: 4096 };
    assert_eq!(img.start_sector, 100);
    let _ = IsoError::NoEfiEntry;
}

#[test]
fn timestamp_is_a_floored_delta_in_thousands() {
    assert_eq!(get_timestamp_k(5_000_000, 2_000_000), 3000);
    assert_eq!(get_timestamp_k(2500, 1000), 1);
    assert_eq!(get_timestamp_k(100, 2000), 0);
    assert_eq!(get_timestamp_k(0, 0), 0);
}

#[test]
fn platform_records_hold_their_fields() {
    let f = CpuFeatures { sse: true, sse2: true, long_mode: true, nx: false, page_1gb: false };
    assert!(f.sse && f.sse2 && f.long_mode);

    let s = SerialInfo { serial_type: 1, baseaddr: 0x3f8, baud: 115200, regwidth: 1,
        input_hertz: 1_843_200 };
    assert_eq!(s.baseaddr, 0x3f8);

    let usb = UsbDevicePathNode { node_type: 3, sub_type: 5, length: [6, 0], parent_port: 1,
        interface: 0 };
    assert_eq!(usb.length, [6, 0]);
    let acpi = AcpiDevicePathNode { node_type: 2, sub_type: 1, length: [12, 0],
        hid: 0x0a0341d0, uid: 0 };
    assert_eq!(acpi.hid, 0x0a0341d0);
    let pci = PciDevicePathNode { node_type: 1, sub_type: 1, length: [6, 0], function: 0,
        device: 0x1d };
    assert_eq!(pci.device, 0x1d);
    let nvme = NvmeDevicePathNode { node_type: 3, sub_type: 0x17, length: [16, 0],
        namespace_id: 1, eui64: [0; 8] };
    assert_eq!(nvme.namespace_id, 1);
    let sata = SataDevicePathNode { node_type: 3, sub_type: 0x12, length: [10, 0],
        hba_port: 0, port_multiplier_port: 0xffff, lun: 0 };
    assert_eq!(sata.port_multiplier_port, 0xffff);

    assert_eq!(UsbSpeed::High.default_max_packet_size(), 64);
    assert_eq!(UsbSpeed::Full.default_max_packet_size(), 8);
    assert_eq!(UsbSpeed::Low.default_max_packet_size(), 8);
}

#[test]
fn capability_decode() {
    // CAPLENGTH 0x20, HCIVERSION 1.00, four ports
    let (caplength, version, ports) = parse_capabilities(0x0100_0020, 0x0000_1234);
    assert_eq!(caplength, 0x20);
    assert_eq!(version, 0x0100);
    assert_eq!(ports, 4);
}
