use aether_kernel::pci::{ConfigRead, PciDevice, PciScan};

fn dev() -> PciDevice {
    PciDevice { bus: 0, slot: 3, func: 0, vendor_id: 0x8086, device_id: 0x100E, class: 2, subclass: 0, prog_if: 0 }
}

#[test]
fn config_address_layout() {
    assert_eq!(PciDevice::config_address(0, 0, 0, 0), 0x8000_0000);
    assert_eq!(PciDevice::config_address(1, 2, 3, 0x13), 0x8001_1310);
    assert_eq!(PciDevice::config_address(255, 31, 7, 0xFF), 0x80FF_FFFC);
}

#[test]
fn config_halves() {
    let d = dev();
    assert_eq!(d.read_config_u16(0x1234_5678, 0x00), 0x5678);
    assert_eq!(d.read_config_u16(0x1234_5678, 0x02), 0x1234);
    assert_eq!(d.write_config_u16(0x1234_5678, 0x04, 0xABCD), 0x1234_ABCD);
    assert_eq!(d.write_config_u16(0x1234_5678, 0x06, 0xABCD), 0xABCD_5678);
    let w = d.write_config_u16(0xDEAD_BEEF, 0x02, 0x0007);
    assert_eq!(d.read_config_u16(w, 0x02), 0x0007);
    assert_eq!(d.read_config_u16(w, 0x00), 0xBEEF);
}

#[test]
fn bar0_decoding() {
    let d = dev();
    assert!(!PciDevice::bar0_is_64bit(0xFEBF_0000));
    assert_eq!(d.get_bar0(0xFEBF_000F, 0x1234), 0xFEBF_0000);
    assert!(PciDevice::bar0_is_64bit(0xFE00_0004));
    assert_eq!(d.get_bar0(0xFE00_000C, 0x0000_0001), 0x1_FE00_0000);
    assert!(d.clone().is_xhci() == false);
    let x = PciDevice { class: 0x0C, subclass: 0x03, prog_if: 0x30, ..dev() };
    assert!(x.is_xhci());
}

/// A configuration space with a single-function device at 0:1, a
/// multi-function device at 0:2 with functions 0 and 3, and a device at 2:0.
fn config(r: ConfigRead) -> u32 {
    let present = |b: u8, s: u8, f: u8| {
        matches!((b, s, f), (0, 1, 0) | (0, 2, 0) | (0, 2, 3) | (2, 0, 0))
    };
    if !present(r.bus, r.slot, r.func) {
        return 0xFFFF_FFFF;
    }
    match r.offset {
        0x00 => 0x1000_8086 + ((r.slot as u32) << 16) + ((r.func as u32) << 20),
        0x08 => 0x0C03_3000 | r.bus as u32,
        0x0C => {
            if (r.bus, r.slot) == (0, 2) {
                0x0080_0000
            } else {
                0
            }
        }
        _ => 0,
    }
}

#[test]
fn bus_scan_finds_all_functions() {
    let mut scan = PciScan::new();
    let mut reads = 0u32;
    while let Some(r) = scan.next_read() {
        scan.feed(config(r));
        reads += 1;
    }
    assert!(scan.done());
    let found = scan.into_devices();
    let places: Vec<(u8, u8, u8)> = found.iter().map(|d| (d.bus, d.slot, d.func)).collect();
    assert_eq!(places, vec![(0, 1, 0), (0, 2, 0), (0, 2, 3), (2, 0, 0)]);
    assert_eq!(found[0].vendor_id, 0x8086);
    assert_eq!(found[0].device_id, 0x1001);
    assert_eq!(found[2].device_id, 0x1032);
    assert_eq!((found[1].class, found[1].subclass, found[1].prog_if), (0x0C, 0x03, 0x30));
    assert!(found[3].is_xhci());
    assert!(reads > 255 * 32);
}

#[test]
fn bus_scan_first_reads() {
    let mut scan = PciScan::new();
    assert_eq!(scan.next_read(), Some(ConfigRead { bus: 0, slot: 0, func: 0, offset: 0 }));
    scan.feed(0xFFFF_FFFF);
    assert_eq!(scan.next_read(), Some(ConfigRead { bus: 0, slot: 1, func: 0, offset: 0 }));
    scan.feed(0x1234_8086);
    assert_eq!(scan.next_read(), Some(ConfigRead { bus: 0, slot: 1, func: 0, offset: 8 }));
    scan.feed(0x0200_0000);
    assert_eq!(scan.next_read(), Some(ConfigRead { bus: 0, slot: 1, func: 0, offset: 0 }));
    scan.feed(0x1234_8086);
    assert_eq!(scan.next_read(), Some(ConfigRead { bus: 0, slot: 1, func: 0, offset: 0x0C }));
    scan.feed(0);
    assert_eq!(scan.next_read(), Some(ConfigRead { bus: 0, slot: 2, func: 0, offset: 0 }));
}
