//! Tests for structured register and bit-field access.

use pci_driver::errors::PciError;
use pci_driver::regions::structured::{
    bit_range_mask, compute_write_mask, validate_register_access, write_mask_elem,
    PciBitFieldElem, PciBitFieldMode, PciBitReadClear, PciBitReadOnly, PciBitReadWrite,
    PciBitsReadOnly, PciBitsReadWrite, PciRegisterRo, PciRegisterRw, PciRegisterWidth,
};
use pci_driver::regions::PciMemoryRegion;

fn elem(first_bit: u8, last_bit: u8, mode: PciBitFieldMode) -> PciBitFieldElem {
    PciBitFieldElem { first_bit, last_bit, mode }
}

#[test]
fn test_pci_bit_field_write_mask() {
    assert_eq!(
        compute_write_mask(
            PciRegisterWidth::W8,
            &vec![elem(3, 3, PciBitFieldMode::RsvdZ), elem(6, 7, PciBitFieldMode::RsvdZ)],
        ),
        0b_0011_0111_u8 as u32
    );
}

#[test]
fn test_pci_bit_field_write_mask_elem() {
    assert_eq!(
        write_mask_elem(PciRegisterWidth::W8, elem(0, 0, PciBitFieldMode::RsvdZ)),
        0b_1111_1110_u8 as u32
    );
    assert_eq!(
        write_mask_elem(PciRegisterWidth::W8, elem(3, 3, PciBitFieldMode::RsvdZ)),
        0b_1111_0111_u8 as u32
    );
    assert_eq!(
        write_mask_elem(PciRegisterWidth::W8, elem(7, 7, PciBitFieldMode::RsvdZ)),
        0b_0111_1111_u8 as u32
    );

    assert_eq!(
        write_mask_elem(PciRegisterWidth::W8, elem(0, 1, PciBitFieldMode::RsvdZ)),
        0b_1111_1100_u8 as u32
    );
    assert_eq!(
        write_mask_elem(PciRegisterWidth::W8, elem(3, 5, PciBitFieldMode::RsvdZ)),
        0b_1100_0111_u8 as u32
    );
    assert_eq!(
        write_mask_elem(PciRegisterWidth::W8, elem(6, 7, PciBitFieldMode::RsvdZ)),
        0b_0011_1111_u8 as u32
    );
}

#[test]
fn test_write_mask_16bit_rw1c_rsvdz() {
    // A 16-bit register with one RW1C bit at position 8 and RsvdZ bits at
    // positions 1..2.
    let mask = compute_write_mask(
        PciRegisterWidth::W16,
        &vec![elem(8, 8, PciBitFieldMode::Rw1c), elem(1, 2, PciBitFieldMode::RsvdZ)],
    );
    assert_eq!(mask, 0xffff & !(1u32 << 8) & !(0b11u32 << 1));
}

#[test]
fn test_write_mask_other_modes_keep_bits() {
    assert_eq!(write_mask_elem(PciRegisterWidth::W16, elem(3, 3, PciBitFieldMode::Ro)), 0xffff);
    assert_eq!(write_mask_elem(PciRegisterWidth::W16, elem(3, 5, PciBitFieldMode::Rw)), 0xffff);
    assert_eq!(write_mask_elem(PciRegisterWidth::W16, elem(3, 5, PciBitFieldMode::RsvdP)), 0xffff);
    assert_eq!(write_mask_elem(PciRegisterWidth::W16, elem(8, 8, PciBitFieldMode::Rw1c)), 0xfeff);
    assert_eq!(compute_write_mask(PciRegisterWidth::W32, &vec![]), 0xffff_ffff);
}

#[test]
fn test_bit_range_mask() {
    assert_eq!(bit_range_mask(0, 0), 0x1);
    assert_eq!(bit_range_mask(1, 2), 0x6);
    assert_eq!(bit_range_mask(9, 10), 0x600);
    assert_eq!(bit_range_mask(0, 31), 0xffff_ffff);
    assert_eq!(bit_range_mask(31, 31), 0x8000_0000);
}

#[test]
fn test_rw1c_clear_writes_one_and_zeroes_others() {
    // A 16-bit register whose current value has the RW1C bit at position 8
    // set, plus the RsvdZ bits at 1..2.
    let write_mask = 0xffff & !(1u32 << 8) & !(0b11u32 << 1);
    let mut region = PciMemoryRegion::new_mut(vec![0x06, 0x01]);  // value 0x0106
    let bit = PciBitReadClear::backed_by(0, PciRegisterWidth::W16, 1 << 8, write_mask);
    assert_eq!(bit.read(&region).unwrap(), true);

    bit.clear(&mut region).unwrap();

    // The issued write has bit 8 set and the RW1C/RsvdZ bits cleared:
    // (0x0106 & write_mask) | 0x0100 == 0x0100 — not a plain AND-clear,
    // which would have produced 0x0006.
    assert_eq!(region.read_le_u16(0).unwrap(), 0x0100);
}

#[test]
fn test_register_ro_rw() {
    let mut region = PciMemoryRegion::new_mut(vec![0x34, 0x12, 0, 0]);
    let ro = PciRegisterRo { offset: 0, width: PciRegisterWidth::W16 };
    assert_eq!(ro.read(&region).unwrap(), 0x1234);

    let rw = PciRegisterRw { offset: 2, width: PciRegisterWidth::W16 };
    rw.write(&mut region, 0xbeef).unwrap();
    assert_eq!(rw.read(&region).unwrap(), 0xbeef);
    // The neighbouring register is untouched.
    assert_eq!(ro.read(&region).unwrap(), 0x1234);

    // A value too large for the register width is rejected.
    let rw8 = PciRegisterRw { offset: 1, width: PciRegisterWidth::W8 };
    assert_eq!(rw8.write(&mut region, 0x100), Err(PciError::InvalidInput));
}

#[test]
fn test_validate_register_access() {
    assert_eq!(validate_register_access(8, 4, PciRegisterWidth::W32), Ok(()));
    assert_eq!(validate_register_access(8, 7, PciRegisterWidth::W8), Ok(()));
    assert_eq!(
        validate_register_access(8, 8, PciRegisterWidth::W8),
        Err(PciError::OutOfBounds)
    );
    assert_eq!(
        validate_register_access(8, 6, PciRegisterWidth::W32),
        Err(PciError::OutOfBounds)
    );
    assert_eq!(
        validate_register_access(8, 2, PciRegisterWidth::W32),
        Err(PciError::Unaligned)
    );
    assert_eq!(
        validate_register_access(8, 3, PciRegisterWidth::W16),
        Err(PciError::Unaligned)
    );
}

#[test]
fn test_register_access_errors() {
    let region = PciMemoryRegion::new(vec![0u8; 8]);
    let ro = PciRegisterRo { offset: 6, width: PciRegisterWidth::W32 };
    assert_eq!(ro.read(&region), Err(PciError::OutOfBounds));
    let misaligned = PciRegisterRo { offset: 2, width: PciRegisterWidth::W32 };
    assert_eq!(misaligned.read(&region), Err(PciError::Unaligned));
}

#[test]
fn test_bits_read_only() {
    let region = PciMemoryRegion::new(vec![0b0110_0100, 0]);
    let bits = PciBitsReadOnly::backed_by(0, PciRegisterWidth::W8, 0b0111_0000, 4);
    assert_eq!(bits.read(&region).unwrap(), 0b110);
}

#[test]
fn test_bits_read_write() {
    let mut region = PciMemoryRegion::new_mut(vec![0x0f, 0xff]);
    let bits = PciBitsReadWrite::backed_by(0, PciRegisterWidth::W16, 0b111 << 4, 4, 0xffff);
    assert_eq!(bits.read(&region).unwrap(), 0b000);

    bits.write(&mut region, 0b010).unwrap();
    assert_eq!(bits.read(&region).unwrap(), 0b010);
    // All other bits survive the read-modify-write: the shifted value is
    // ORed over the masked old value.
    assert_eq!(region.read_le_u16(0).unwrap(), 0xff2f);

    // A value that does not fit the field is rejected untouched.
    assert_eq!(bits.write(&mut region, 0b1000), Err(PciError::InvalidInput));
    assert_eq!(region.read_le_u16(0).unwrap(), 0xff2f);
}

#[test]
fn test_bits_write_applies_write_mask() {
    // RsvdZ bits at 1..2 are forced to zero by every field write.
    let write_mask = 0xffff & !(0b11u32 << 1);
    let mut region = PciMemoryRegion::new_mut(vec![0x06, 0x00]);
    let bits = PciBitsReadWrite::backed_by(0, PciRegisterWidth::W16, 0b111 << 4, 4, write_mask);
    bits.write(&mut region, 0b101).unwrap();
    assert_eq!(region.read_le_u16(0).unwrap(), 0x0050);
}

#[test]
fn test_bit_read_only() {
    let region = PciMemoryRegion::new(vec![0b0001_0000]);
    let set = PciBitReadOnly::backed_by(0, PciRegisterWidth::W8, 1 << 4);
    let clear = PciBitReadOnly::backed_by(0, PciRegisterWidth::W8, 1 << 5);
    assert_eq!(set.read(&region).unwrap(), true);
    assert_eq!(clear.read(&region).unwrap(), false);
}

#[test]
fn test_bit_read_write() {
    let mut region = PciMemoryRegion::new_mut(vec![0b0000_0101]);
    let bit = PciBitReadWrite::backed_by(0, PciRegisterWidth::W8, 1 << 1, 0xff);
    assert_eq!(bit.read(&region).unwrap(), false);
    bit.write(&mut region, true).unwrap();
    assert_eq!(region.read_u8(0).unwrap(), 0b0000_0111);
    bit.write(&mut region, false).unwrap();
    assert_eq!(region.read_u8(0).unwrap(), 0b0000_0101);
}
