//! Tests for capability and extended-capability discovery.

use pci_driver::config::caps::{
    Capability, EnhancedAllocationCapability, Msi32BitCapability, Msi64BitCapability,
    MsiCapability, NullCapability, PciExpressCapability, PciPowerManagementCapability,
    VendorSpecificCapability,
};
use pci_driver::config::ext_caps::ExtendedCapability;
use pci_driver::config::PciConfig;
use pci_driver::errors::PciError;
use pci_driver::regions::{PciMemoryRegion, PciSubregion};

fn put_u32(bytes: &mut Vec<u8>, off: usize, value: u32) {
    bytes[off] = (value & 0xff) as u8;
    bytes[off + 1] = ((value >> 8) & 0xff) as u8;
    bytes[off + 2] = ((value >> 16) & 0xff) as u8;
    bytes[off + 3] = ((value >> 24) & 0xff) as u8;
}

fn ext_cap_header(id: u32, next: u32) -> u32 {
    id | (0x1 << 16) | (next << 20)
}

/// A configuration space with the legacy chain
/// `0x40 (0x01) -> 0x50 (0x05) -> 0x60 (0x10) -> 0x70 (0x11)` and the
/// extended chain `0x100 (0x0001) -> ... -> 0x150 (0x001e)`.
fn build_config_space() -> Vec<u8> {
    let mut bytes = vec![0u8; 0x1000];
    bytes[0x06] = 0x10;  // status: capabilities list present
    bytes[0x34] = 0x40;  // capabilities pointer

    bytes[0x40] = 0x01;  // power management
    bytes[0x41] = 0x50;
    bytes[0x50] = 0x05;  // MSI (32-bit, no per-vector masking)
    bytes[0x51] = 0x60;
    bytes[0x60] = 0x10;  // PCI Express
    bytes[0x61] = 0x70;
    bytes[0x70] = 0x11;  // MSI-X
    bytes[0x71] = 0x00;

    let ext_ids = [0x0001u32, 0x0003, 0x0004, 0x0019, 0x0018, 0x001e];
    for (i, id) in ext_ids.iter().enumerate() {
        let off = 0x100 + 0x10 * i;
        let next = if i + 1 < ext_ids.len() { (off + 0x10) as u32 } else { 0 };
        put_u32(&mut bytes, off, ext_cap_header(*id, next));
    }
    bytes
}

#[test]
fn test_capabilities() {
    let region = PciMemoryRegion::new(build_config_space());
    let config = PciConfig::backed_by(region.as_subregion());

    let caps = config.capabilities(&region).unwrap();
    let mut cap_ids: Vec<u32> = Vec::new();
    let mut iter = caps.iter(&region);
    while let Some(cap) = iter.next() {
        cap_ids.push(cap.header().capability_id().read(&region).unwrap());
    }

    assert_eq!(cap_ids, vec![0x01, 0x05, 0x10, 0x11]);
}

#[test]
fn test_extended_capabilities() {
    let region = PciMemoryRegion::new(build_config_space());
    let config = PciConfig::backed_by(region.as_subregion());

    let ext_caps = config.extended_capabilities(&region).unwrap();
    let mut ext_cap_ids: Vec<u32> = Vec::new();
    let mut iter = ext_caps.iter(&region);
    while let Some(cap) = iter.next() {
        ext_cap_ids.push(cap.header().capability_id().read(&region).unwrap());
    }

    assert_eq!(ext_cap_ids, vec![0x0001, 0x0003, 0x0004, 0x0019, 0x0018, 0x001e]);
}

#[test]
fn test_lifetimes() {
    let region = PciMemoryRegion::new(build_config_space());
    let config = PciConfig::backed_by(region.as_subregion());

    let value_1 = config.command().io_space_enable();
    let value_2 = config
        .capabilities(&region)
        .unwrap()
        .iter(&region)
        .next()
        .unwrap()
        .header()
        .capability_id();

    value_1.read(&region).unwrap();
    value_2.read(&region).unwrap();
    value_1.read(&region).unwrap();
}

#[test]
fn test_capability_chain_cycle() {
    let mut bytes = build_config_space();
    // Point the MSI-X entry back at the start of the chain.
    bytes[0x71] = 0x40;
    let region = PciMemoryRegion::new(bytes);
    let config = PciConfig::backed_by(region.as_subregion());

    assert_eq!(
        config.capabilities(&region).map(|_| ()),
        Err(PciError::InvalidInput)
    );
}

#[test]
fn test_capability_bad_offset() {
    let mut bytes = build_config_space();
    // An entry pointing below 0x40 is outside the legal window.
    bytes[0x71] = 0x20;
    let region = PciMemoryRegion::new(bytes);
    let config = PciConfig::backed_by(region.as_subregion());

    assert_eq!(
        config.capabilities(&region).map(|_| ()),
        Err(PciError::InvalidInput)
    );
}

#[test]
fn test_no_capabilities() {
    let mut bytes = build_config_space();
    bytes[0x06] = 0x00;  // no "capabilities list" status bit
    let region = PciMemoryRegion::new(bytes);
    let config = PciConfig::backed_by(region.as_subregion());

    let caps = config.capabilities(&region).unwrap();
    let mut iter = caps.iter(&region);
    assert!(iter.next().is_none());
}

#[test]
fn test_config_too_short() {
    let region = PciMemoryRegion::new(vec![0u8; 0x80]);
    let config = PciConfig::backed_by(region.as_subregion());
    assert_eq!(
        config.capabilities(&region).map(|_| ()),
        Err(PciError::InvalidInput)
    );

    let region = PciMemoryRegion::new(build_config_space()[..0x200].to_vec());
    let config = PciConfig::backed_by(region.as_subregion());
    assert_eq!(
        config.extended_capabilities(&region).map(|_| ()),
        Err(PciError::InvalidInput)
    );
}

#[test]
fn test_extended_capabilities_need_pcie() {
    let mut bytes = build_config_space();
    // Replace the PCI Express entry's ID: the device is no longer PCIe.
    bytes[0x60] = 0x09;
    bytes[0x62] = 0x02;  // vendor-specific capability length
    let region = PciMemoryRegion::new(bytes);
    let config = PciConfig::backed_by(region.as_subregion());

    let ext_caps = config.extended_capabilities(&region).unwrap();
    let mut iter = ext_caps.iter(&region);
    assert!(iter.next().is_none());
}

#[test]
fn test_of_type_fixed_length() {
    let region = PciMemoryRegion::new(build_config_space());
    let config = PciConfig::backed_by(region.as_subregion());
    let caps = config.capabilities(&region).unwrap();

    let mut pcie = caps.of_type::<PciExpressCapability>(&region).unwrap();
    let cap = pcie.next().unwrap();
    assert_eq!(cap.as_subregion(), PciSubregion { offset: 0x60, length: 0x3c });
    assert!(pcie.next().is_none());

    let mut pm = caps.of_type::<PciPowerManagementCapability>(&region).unwrap();
    assert_eq!(
        pm.next().unwrap().as_subregion(),
        PciSubregion { offset: 0x40, length: 0x08 }
    );
}

#[test]
fn test_of_type_msi_variants() {
    let region = PciMemoryRegion::new(build_config_space());
    let config = PciConfig::backed_by(region.as_subregion());
    let caps = config.capabilities(&region).unwrap();

    // Message control is zero: the 32-bit non-masking layout, 0x0c bytes.
    let mut msi = caps.of_type::<MsiCapability>(&region).unwrap();
    assert_eq!(
        msi.next().unwrap().as_subregion(),
        PciSubregion { offset: 0x50, length: 0x0c }
    );
    assert_eq!(caps.of_type::<Msi32BitCapability>(&region).unwrap().remaining(), 1);
    assert_eq!(caps.of_type::<Msi64BitCapability>(&region).unwrap().remaining(), 0);

    // Set the "64 Bit Address Capable" bit: the 64-bit layout, 0x10 bytes.
    let mut bytes = build_config_space();
    bytes[0x52] = 0x80;
    let region = PciMemoryRegion::new(bytes);
    let config = PciConfig::backed_by(region.as_subregion());
    let caps = config.capabilities(&region).unwrap();

    let mut msi = caps.of_type::<MsiCapability>(&region).unwrap();
    assert_eq!(
        msi.next().unwrap().as_subregion(),
        PciSubregion { offset: 0x50, length: 0x10 }
    );
    assert_eq!(caps.of_type::<Msi32BitCapability>(&region).unwrap().remaining(), 0);
    assert_eq!(caps.of_type::<Msi64BitCapability>(&region).unwrap().remaining(), 1);
}

#[test]
fn test_enhanced_allocation_length() {
    let mut bytes = vec![0u8; 0x1000];
    bytes[0x06] = 0x10;
    bytes[0x34] = 0x40;
    bytes[0x40] = 0x14;  // enhanced allocation
    bytes[0x41] = 0x00;
    bytes[0x42] = 0x02;  // two entries
    bytes[0x44] = 0x03;  // first entry: three further bytes
    bytes[0x48] = 0x05;  // second entry: five further bytes
    let region = PciMemoryRegion::new(bytes);
    let config = PciConfig::backed_by(region.as_subregion());
    let caps = config.capabilities(&region).unwrap();

    let mut ea = caps.of_type::<EnhancedAllocationCapability>(&region).unwrap();
    // 4 header bytes, then (1 + 3) + (1 + 5) entry bytes.
    assert_eq!(
        ea.next().unwrap().as_subregion(),
        PciSubregion { offset: 0x40, length: 0x0e }
    );
}

#[test]
fn test_vendor_specific_length() {
    let mut bytes = vec![0u8; 0x1000];
    bytes[0x06] = 0x10;
    bytes[0x34] = 0x40;
    bytes[0x40] = 0x09;  // vendor-specific
    bytes[0x41] = 0x00;
    bytes[0x42] = 0x0b;  // declared capability length
    let region = PciMemoryRegion::new(bytes);
    let config = PciConfig::backed_by(region.as_subregion());
    let caps = config.capabilities(&region).unwrap();

    let mut vs = caps.of_type::<VendorSpecificCapability>(&region).unwrap();
    assert_eq!(
        vs.next().unwrap().as_subregion(),
        PciSubregion { offset: 0x40, length: 0x0b }
    );
}

#[test]
fn test_null_capability() {
    let mut bytes = vec![0u8; 0x1000];
    bytes[0x06] = 0x10;
    bytes[0x34] = 0x40;
    // One entry whose capability ID is 0x00.
    let region = PciMemoryRegion::new(bytes);
    let config = PciConfig::backed_by(region.as_subregion());
    let caps = config.capabilities(&region).unwrap();

    let mut null = caps.of_type::<NullCapability>(&region).unwrap();
    assert_eq!(
        null.next().unwrap().as_subregion(),
        PciSubregion { offset: 0x40, length: 0x02 }
    );
}

#[test]
fn test_into_iter() {
    let region = PciMemoryRegion::new(build_config_space());
    let config = PciConfig::backed_by(region.as_subregion());
    let caps = config.capabilities(&region).unwrap();

    let mut iter = caps.into_iter();
    let mut count = 0;
    while let Some(cap) = iter.next() {
        assert_eq!(cap.as_subregion().length, 2);
        count += 1;
    }
    assert_eq!(count, 4);
}
