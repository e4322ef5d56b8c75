//! Tests for the region and subregion layer.

use pci_driver::errors::PciError;
use pci_driver::regions::{clamp_range, PciMemoryRegion, PciSubregion, Permissions};

#[test]
fn test_permissions_new() {
    assert_eq!(Permissions::new(false, false), None);
    assert_eq!(Permissions::new(true, false), Some(Permissions::Read));
    assert_eq!(Permissions::new(false, true), Some(Permissions::Write));
    assert_eq!(Permissions::new(true, true), Some(Permissions::ReadWrite));
}

#[test]
fn test_permissions_can_read_write() {
    assert!(Permissions::Read.can_read());
    assert!(!Permissions::Read.can_write());
    assert!(!Permissions::Write.can_read());
    assert!(Permissions::Write.can_write());
    assert!(Permissions::ReadWrite.can_read());
    assert!(Permissions::ReadWrite.can_write());
}

#[test]
fn test_read_write_round_trip() {
    let mut region = PciMemoryRegion::new_mut(vec![0u8; 16]);
    assert!(region.permissions().can_read() && region.permissions().can_write());
    let data = vec![0xde, 0xad, 0xbe, 0xef];
    region.write_bytes(5, &data).unwrap();
    assert_eq!(region.read_bytes(5, 4).unwrap(), data);
    // Bytes around the written range are untouched.
    assert_eq!(region.read_u8(4).unwrap(), 0);
    assert_eq!(region.read_u8(9).unwrap(), 0);
}

#[test]
fn test_read_write_round_trip_words() {
    let mut region = PciMemoryRegion::new_mut(vec![0u8; 8]);
    region.write_le_u16(0, 0xbeef).unwrap();
    assert_eq!(region.read_le_u16(0).unwrap(), 0xbeef);
    region.write_le_u32(4, 0x1234_5678).unwrap();
    assert_eq!(region.read_le_u32(4).unwrap(), 0x1234_5678);
    region.write_u8(2, 0x42).unwrap();
    assert_eq!(region.read_u8(2).unwrap(), 0x42);
}

#[test]
fn test_little_endian_layout() {
    let region = PciMemoryRegion::new(vec![0x12, 0x34, 0x56, 0x78]);
    assert_eq!(region.read_le_u16(0).unwrap(), 0x3412);
    assert_eq!(region.read_le_u16(2).unwrap(), 0x7856);
    assert_eq!(region.read_le_u32(0).unwrap(), 0x7856_3412);

    let mut w = PciMemoryRegion::new_mut(vec![0u8; 4]);
    w.write_le_u32(0, 0x7856_3412).unwrap();
    assert_eq!(w.read_u8(0).unwrap(), 0x12);
    assert_eq!(w.read_u8(1).unwrap(), 0x34);
    assert_eq!(w.read_u8(2).unwrap(), 0x56);
    assert_eq!(w.read_u8(3).unwrap(), 0x78);
}

#[test]
fn test_out_of_bounds() {
    let mut region = PciMemoryRegion::new_mut(vec![0u8; 8]);
    assert_eq!(region.read_u8(8), Err(PciError::OutOfBounds));
    assert_eq!(region.read_le_u16(7), Err(PciError::OutOfBounds));
    assert_eq!(region.read_le_u32(6), Err(PciError::OutOfBounds));
    assert_eq!(region.read_bytes(7, 2), Err(PciError::OutOfBounds));
    assert_eq!(region.read_bytes(100, 1), Err(PciError::OutOfBounds));
    assert_eq!(region.write_u8(8, 0), Err(PciError::OutOfBounds));
    assert_eq!(region.write_le_u16(8, 0), Err(PciError::OutOfBounds));
    assert_eq!(region.write_le_u32(8, 0), Err(PciError::OutOfBounds));
    assert_eq!(region.write_bytes(6, &vec![1, 2, 3]), Err(PciError::OutOfBounds));
}

#[test]
fn test_out_of_bounds_subregion() {
    let region = PciMemoryRegion::new(vec![0u8; 16]);
    let window = region.subregion(4, 8);  // 4 bytes long
    assert_eq!(window.len(), 4);
    assert_eq!(window.read_u8(&region, 4), Err(PciError::OutOfBounds));
    assert_eq!(window.read_le_u16(&region, 3), Err(PciError::OutOfBounds));
    assert_eq!(window.read_bytes(&region, 2, 3), Err(PciError::OutOfBounds));
    assert_eq!(window.validate_access(2, 3), Err(PciError::OutOfBounds));
    assert_eq!(window.validate_access(2, 2), Ok(()));
    assert_eq!(window.read_u8(&region, 3).unwrap(), 0);
}

#[test]
fn test_unaligned_access() {
    let mut region = PciMemoryRegion::new_mut(vec![0u8; 8]);
    assert_eq!(region.read_le_u16(1), Err(PciError::Unaligned));
    assert_eq!(region.read_le_u32(2), Err(PciError::Unaligned));
    assert_eq!(region.write_le_u16(3, 0), Err(PciError::Unaligned));
    assert_eq!(region.write_le_u32(1, 0), Err(PciError::Unaligned));
    // Byte accesses have no alignment requirement.
    assert_eq!(region.read_u8(3), Ok(0));
}

#[test]
fn test_subregion_compose() {
    let bytes: Vec<u8> = (0u8..16).collect();
    let region = PciMemoryRegion::new(bytes);
    let w = region.as_subregion();

    // Composing a subregion of a subregion folds to one window.
    let nested = w.subregion(2, 10).subregion(3, 6);
    let composed = w.subregion(5, 8);
    assert_eq!(nested, composed);
    assert_eq!(nested, PciSubregion { offset: 5, length: 3 });

    // Same bytes, same failure modes.
    assert_eq!(nested.read_u8(&region, 0).unwrap(), 5);
    assert_eq!(composed.read_u8(&region, 0).unwrap(), 5);
    assert_eq!(nested.read_u8(&region, 3), Err(PciError::OutOfBounds));
    assert_eq!(composed.read_u8(&region, 3), Err(PciError::OutOfBounds));
}

#[test]
fn test_subregion_clamping() {
    let region = PciMemoryRegion::new(vec![0u8; 8]);
    let w = region.as_subregion();
    assert_eq!(w.subregion(4, 100), PciSubregion { offset: 4, length: 4 });
    assert_eq!(w.subregion(100, 200), PciSubregion { offset: 8, length: 0 });
    assert_eq!(w.subregion(6, 2), PciSubregion { offset: 6, length: 0 });
    assert_eq!(w.subregion(0, u64::MAX), PciSubregion { offset: 0, length: 8 });
}

#[test]
fn test_clamp_range() {
    assert_eq!(clamp_range(2, 10, 5), (2, 5));
    assert_eq!(clamp_range(7, 3, 5), (5, 5));
    assert_eq!(clamp_range(0, u64::MAX, 5), (0, 5));
    assert_eq!(clamp_range(3, 3, 5), (3, 3));
}

#[test]
fn test_subregion_write_through() {
    let mut region = PciMemoryRegion::new_mut(vec![0u8; 16]);
    let window = PciSubregion { offset: 8, length: 8 };
    window.write_le_u32(&mut region, 0, 0xcafe_f00d).unwrap();
    assert_eq!(region.read_le_u32(8).unwrap(), 0xcafe_f00d);
    window.write_bytes(&mut region, 4, &vec![1, 2, 3, 4]).unwrap();
    assert_eq!(region.read_bytes(12, 4).unwrap(), vec![1, 2, 3, 4]);
    // The window protects everything before its offset.
    assert_eq!(region.read_bytes(0, 8).unwrap(), vec![0u8; 8]);
}
