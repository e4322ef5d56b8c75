//! Structured register and bit-field access over a [`PciMemoryRegion`],
//! reproducing PCI read/write semantics.
//!
//! A register accessor is a plain description — offset, width, masks — and
//! every read or write takes the region it applies to as an argument, so one
//! table of `(offset, width, mask, shift, write mask, mode)` values is the
//! single source of truth for a register layout.
//!
//! The write mask of a register starts as all ones; every field with
//! write-1-to-clear ([`PciBitFieldMode::Rw1c`]) or reserved-zero
//! ([`PciBitFieldMode::RsvdZ`]) semantics clears its bits from the mask.
//! Read-modify-write operations AND the value read with the write mask
//! before altering it, so that a write never clears an unrelated status bit
//! and never asserts a reserved-zero bit, while reserved-preserve
//! ([`PciBitFieldMode::RsvdP`]) bits are carried over unchanged.

use vstd::prelude::*;

use crate::errors::PciError;
use crate::regions::{spec_le_u16, spec_le_u32, PciMemoryRegion, PciSubregion};

verus! {

/// The width of a PCI register: 8, 16, or 32 bits.
#[derive(Clone, Copy, Debug, PartialEq, Eq, Structural)]
pub enum PciRegisterWidth {
    /// An 8-bit register.
    W8,
    /// A 16-bit register.
    W16,
    /// A 32-bit register.
    W32,
}

impl PciRegisterWidth {
    /// The number of bits of a register of this width.
    pub open spec fn spec_bits(self) -> u32 {
        match self {
            PciRegisterWidth::W8 => 8,
            PciRegisterWidth::W16 => 16,
            PciRegisterWidth::W32 => 32,
        }
    }

    /// The number of bytes of a register of this width.
    pub open spec fn spec_size(self) -> u64 {
        match self {
            PciRegisterWidth::W8 => 1,
            PciRegisterWidth::W16 => 2,
            PciRegisterWidth::W32 => 4,
        }
    }

    /// The all-ones value of this width, zero-extended to 32 bits.
    pub open spec fn spec_mask(self) -> u32 {
        match self {
            PciRegisterWidth::W8 => 0xff,
            PciRegisterWidth::W16 => 0xffff,
            PciRegisterWidth::W32 => 0xffff_ffff,
        }
    }

    /// The number of bytes of a register of this width.
    pub fn size(self) -> (n: u64)
        ensures
            n == self.spec_size(),
    {
        match self {
            PciRegisterWidth::W8 => 1,
            PciRegisterWidth::W16 => 2,
            PciRegisterWidth::W32 => 4,
        }
    }

    /// The all-ones value of this width, zero-extended to 32 bits.
    pub fn mask(self) -> (m: u32)
        ensures
            m == self.spec_mask(),
    {
        match self {
            PciRegisterWidth::W8 => 0xff,
            PciRegisterWidth::W16 => 0xffff,
            PciRegisterWidth::W32 => 0xffff_ffff,
        }
    }
}

/// The value of the register of the given width at `offset`, zero-extended
/// to 32 bits.  Multi-byte registers are little-endian.
pub open spec fn spec_register_value(
    bytes: Seq<u8>,
    offset: u64,
    width: PciRegisterWidth,
) -> u32 {
    match width {
        PciRegisterWidth::W8 => bytes[offset as int] as u32,
        PciRegisterWidth::W16 => spec_le_u16(bytes, offset as int) as u32,
        PciRegisterWidth::W32 => spec_le_u32(bytes, offset as int),
    }
}

/// Whether the register of the given width at `offset` lies inside a region
/// of `bytes_len` bytes.
pub open spec fn spec_register_in_bounds(
    bytes_len: int,
    offset: u64,
    width: PciRegisterWidth,
) -> bool {
    offset + width.spec_size() <= bytes_len
}

/// Whether `offset` is aligned for an access of the given width.
pub open spec fn spec_register_aligned(offset: u64, width: PciRegisterWidth) -> bool {
    offset % width.spec_size() == 0
}

/// Validates a typed access of the given width at `offset` of a region of
/// `region_len` bytes: the access must stay inside the region and be
/// aligned to its own width.
///
/// This is the decision behind every typed access, stated on plain values
/// so that a transport can validate accesses to device memory it does not
/// hold as bytes.
pub fn validate_register_access(region_len: u64, offset: u64, width: PciRegisterWidth) -> (r:
    Result<(), PciError>)
    ensures
        !spec_register_in_bounds(region_len as int, offset, width) ==> r == Err::<(), PciError>(
            PciError::OutOfBounds,
        ),
        spec_register_in_bounds(region_len as int, offset, width) && !spec_register_aligned(
            offset,
            width,
        ) ==> r == Err::<(), PciError>(PciError::Unaligned),
        spec_register_in_bounds(region_len as int, offset, width) && spec_register_aligned(
            offset,
            width,
        ) ==> r == Ok::<(), PciError>(()),
{
    let size = width.size();
    if offset > region_len || size > region_len - offset {
        return Err(PciError::OutOfBounds);
    }
    if offset % size != 0 {
        return Err(PciError::Unaligned);
    }
    Ok(())
}

/// Read the register of the given width at `offset`, zero-extended to 32
/// bits.
pub fn read_register(region: &PciMemoryRegion, offset: u64, width: PciRegisterWidth) -> (r: Result<
    u32,
    PciError,
>)
    ensures
        !spec_register_in_bounds(region@.len() as int, offset, width) ==> r == Err::<u32, PciError>(
            PciError::OutOfBounds,
        ),
        spec_register_in_bounds(region@.len() as int, offset, width) && !spec_register_aligned(
            offset,
            width,
        ) ==> r == Err::<u32, PciError>(PciError::Unaligned),
        spec_register_in_bounds(region@.len() as int, offset, width) && spec_register_aligned(
            offset,
            width,
        ) ==> r == Ok::<u32, PciError>(spec_register_value(region@, offset, width)),
{
    match width {
        PciRegisterWidth::W8 => {
            let v = region.read_u8(offset)?;
            Ok(v as u32)
        },
        PciRegisterWidth::W16 => {
            let v = region.read_le_u16(offset)?;
            Ok(v as u32)
        },
        PciRegisterWidth::W32 => region.read_le_u32(offset),
    }
}

/// Write `value` to the register of the given width at `offset`.
///
/// The bounds and alignment of the access are checked first; a `value` that
/// does not fit the register width is then rejected as
/// [`PciError::InvalidInput`].
pub fn write_register(
    region: &mut PciMemoryRegion,
    offset: u64,
    width: PciRegisterWidth,
    value: u32,
) -> (r: Result<(), PciError>)
    ensures
        final(region).spec_permissions() == old(region).spec_permissions(),
        r is Err ==> final(region)@ == old(region)@,
        !spec_register_in_bounds(old(region)@.len() as int, offset, width) ==> r == Err::<
            (),
            PciError,
        >(PciError::OutOfBounds),
        spec_register_in_bounds(old(region)@.len() as int, offset, width)
            && !spec_register_aligned(offset, width) ==> r == Err::<(), PciError>(
            PciError::Unaligned,
        ),
        spec_register_in_bounds(old(region)@.len() as int, offset, width) && spec_register_aligned(
            offset,
            width,
        ) && value > width.spec_mask() ==> r == Err::<(), PciError>(PciError::InvalidInput),
        spec_register_in_bounds(old(region)@.len() as int, offset, width) && spec_register_aligned(
            offset,
            width,
        ) && value <= width.spec_mask() ==> {
            &&& r == Ok::<(), PciError>(())
            &&& final(region)@.len() == old(region)@.len()
            &&& spec_register_value(final(region)@, offset, width) == value
            &&& forall|j: int|
                0 <= j < old(region)@.len() && !(offset <= j < offset + width.spec_size())
                    ==> final(region)@[j] == old(region)@[j]
        },
{
    let size = width.size();
    if offset > region.len() || size > region.len() - offset {
        return Err(PciError::OutOfBounds);
    }
    if offset % size != 0 {
        return Err(PciError::Unaligned);
    }
    if value > width.mask() {
        return Err(PciError::InvalidInput);
    }
    match width {
        PciRegisterWidth::W8 => region.write_u8(offset, value as u8),
        PciRegisterWidth::W16 => region.write_le_u16(offset, value as u16),
        PciRegisterWidth::W32 => region.write_le_u32(offset, value),
    }
}

// READ-ONLY REGISTERS

/// An 8-bit, 16-bit, or 32-bit PCI register that is read-only.
#[derive(Clone, Copy, Debug, PartialEq, Eq, Structural)]
pub struct PciRegisterRo {
    /// Offset of the register in the region.
    pub offset: u64,
    /// Width of the register.
    pub width: PciRegisterWidth,
}

impl PciRegisterRo {
    /// The register of the given width at the start of the given window.
    pub fn backed_by(window: PciSubregion, width: PciRegisterWidth) -> (r: PciRegisterRo)
        ensures
            r == (PciRegisterRo { offset: window.offset, width }),
    {
        PciRegisterRo { offset: window.offset, width }
    }

    /// Read the register, zero-extended to 32 bits.
    pub fn read(&self, region: &PciMemoryRegion) -> (r: Result<u32, PciError>)
        ensures
            !spec_register_in_bounds(region@.len() as int, self.offset, self.width) ==> r == Err::<
                u32,
                PciError,
            >(PciError::OutOfBounds),
            spec_register_in_bounds(region@.len() as int, self.offset, self.width)
                && !spec_register_aligned(self.offset, self.width) ==> r == Err::<u32, PciError>(
                PciError::Unaligned,
            ),
            spec_register_in_bounds(region@.len() as int, self.offset, self.width)
                && spec_register_aligned(self.offset, self.width) ==> r == Ok::<u32, PciError>(
                spec_register_value(region@, self.offset, self.width),
            ),
    {
        read_register(region, self.offset, self.width)
    }
}

// READ-WRITE REGISTERS

/// An 8-bit, 16-bit, or 32-bit PCI register that is read-write.
#[derive(Clone, Copy, Debug, PartialEq, Eq, Structural)]
pub struct PciRegisterRw {
    /// Offset of the register in the region.
    pub offset: u64,
    /// Width of the register.
    pub width: PciRegisterWidth,
}

impl PciRegisterRw {
    /// The register of the given width at the start of the given window.
    pub fn backed_by(window: PciSubregion, width: PciRegisterWidth) -> (r: PciRegisterRw)
        ensures
            r == (PciRegisterRw { offset: window.offset, width }),
    {
        PciRegisterRw { offset: window.offset, width }
    }

    /// Read the register, zero-extended to 32 bits.
    pub fn read(&self, region: &PciMemoryRegion) -> (r: Result<u32, PciError>)
        ensures
            !spec_register_in_bounds(region@.len() as int, self.offset, self.width) ==> r == Err::<
                u32,
                PciError,
            >(PciError::OutOfBounds),
            spec_register_in_bounds(region@.len() as int, self.offset, self.width)
                && !spec_register_aligned(self.offset, self.width) ==> r == Err::<u32, PciError>(
                PciError::Unaligned,
            ),
            spec_register_in_bounds(region@.len() as int, self.offset, self.width)
                && spec_register_aligned(self.offset, self.width) ==> r == Ok::<u32, PciError>(
                spec_register_value(region@, self.offset, self.width),
            ),
    {
        read_register(region, self.offset, self.width)
    }

    /// Write the whole register.
    pub fn write(&self, region: &mut PciMemoryRegion, value: u32) -> (r: Result<(), PciError>)
        ensures
            final(region).spec_permissions() == old(region).spec_permissions(),
            r is Err ==> final(region)@ == old(region)@,
            !spec_register_in_bounds(old(region)@.len() as int, self.offset, self.width) ==> r
                == Err::<(), PciError>(PciError::OutOfBounds),
            spec_register_in_bounds(old(region)@.len() as int, self.offset, self.width)
                && !spec_register_aligned(self.offset, self.width) ==> r == Err::<(), PciError>(
                PciError::Unaligned,
            ),
            spec_register_in_bounds(old(region)@.len() as int, self.offset, self.width)
                && spec_register_aligned(self.offset, self.width) && value > self.width.spec_mask()
                ==> r == Err::<(), PciError>(PciError::InvalidInput),
            spec_register_in_bounds(old(region)@.len() as int, self.offset, self.width)
                && spec_register_aligned(self.offset, self.width) && value
                <= self.width.spec_mask() ==> {
                &&& r == Ok::<(), PciError>(())
                &&& final(region)@.len() == old(region)@.len()
                &&& spec_register_value(final(region)@, self.offset, self.width) == value
                &&& forall|j: int|
                    0 <= j < old(region)@.len() && !(self.offset <= j < self.offset
                        + self.width.spec_size()) ==> final(region)@[j] == old(region)@[j]
            },
    {
        write_register(region, self.offset, self.width, value)
    }
}

// BIT FIELD DESCRIPTIONS

/// The hardware semantics of one bit or bit range of a register.
#[derive(Clone, Copy, Debug, PartialEq, Eq, Structural)]
pub enum PciBitFieldMode {
    /// Read-only: the bits may only be read.
    Ro,
    /// Read-write: the bits may be freely read and written.
    Rw,
    /// Write-1-to-clear: writing 1 clears a status condition the hardware
    /// set; the bits cannot be set from software.
    Rw1c,
    /// Reserved, must be written as zero.
    RsvdZ,
    /// Reserved, must be preserved on write.
    RsvdP,
}

/// One element of a bit-field register layout: the inclusive bit range
/// `[first_bit, last_bit]` and its semantics.
#[derive(Clone, Copy, Debug, PartialEq, Eq, Structural)]
pub struct PciBitFieldElem {
    /// The lowest bit position of the element.
    pub first_bit: u8,
    /// The highest bit position of the element (equal to `first_bit` for a
    /// single bit).
    pub last_bit: u8,
    /// The semantics of the element.
    pub mode: PciBitFieldMode,
}

impl PciBitFieldElem {
    /// The element's bit range is ordered and fits in a register of the
    /// given width.
    pub open spec fn spec_wf(self, width: PciRegisterWidth) -> bool {
        self.first_bit <= self.last_bit < width.spec_bits()
    }
}

/// The 32-bit mask with exactly the bits `first..=last` set.
pub open spec fn spec_bit_range_mask(first: u8, last: u8) -> u32
    recommends
        first <= last < 32,
{
    (((1u64 << ((last + 1) as u64)) - 1) as u32) & !(((1u64 << (first as u64)) - 1) as u32)
}

/// Returns the 32-bit mask with exactly the bits `first..=last` set.
pub fn bit_range_mask(first: u8, last: u8) -> (m: u32)
    requires
        first <= last < 32,
    ensures
        m == spec_bit_range_mask(first, last),
{
    let s1: u64 = (last + 1) as u64;
    let s2: u64 = first as u64;
    proof {
        assert(1u64 << s1 >= 1) by (bit_vector)
            requires
                s1 < 64,
        ;
        assert(1u64 << s2 >= 1) by (bit_vector)
            requires
                s2 < 64,
        ;
    }
    let m1: u64 = (1u64 << s1) - 1;
    let m2: u64 = (1u64 << s2) - 1;
    (m1 as u32) & !(m2 as u32)
}

/// The contribution of one layout element to a register's write mask: all
/// ones of the register's width, except that write-1-to-clear and
/// reserved-zero elements clear their bits.
pub open spec fn spec_write_mask_elem(width: PciRegisterWidth, elem: PciBitFieldElem) -> u32 {
    match elem.mode {
        PciBitFieldMode::Rw1c | PciBitFieldMode::RsvdZ => width.spec_mask() & !spec_bit_range_mask(
            elem.first_bit,
            elem.last_bit,
        ),
        _ => width.spec_mask(),
    }
}

/// Returns the contribution of one layout element to a register's write
/// mask.
pub fn write_mask_elem(width: PciRegisterWidth, elem: PciBitFieldElem) -> (m: u32)
    requires
        elem.spec_wf(width),
    ensures
        m == spec_write_mask_elem(width, elem),
{
    match elem.mode {
        PciBitFieldMode::Rw1c | PciBitFieldMode::RsvdZ => width.mask() & !bit_range_mask(
            elem.first_bit,
            elem.last_bit,
        ),
        _ => width.mask(),
    }
}

/// The write mask of a register with the given layout: the AND of all the
/// elements' contributions, derived once per register layout.
pub open spec fn spec_write_mask(width: PciRegisterWidth, elems: Seq<PciBitFieldElem>) -> u32
    decreases elems.len(),
{
    if elems.len() == 0 {
        width.spec_mask()
    } else {
        spec_write_mask(width, elems.drop_last()) & spec_write_mask_elem(width, elems.last())
    }
}

/// Returns the write mask of a register with the given layout.
pub fn compute_write_mask(width: PciRegisterWidth, elems: &Vec<PciBitFieldElem>) -> (m: u32)
    requires
        forall|i: int| 0 <= i < elems@.len() ==> elems@[i].spec_wf(width),
    ensures
        m == spec_write_mask(width, elems@),
{
    let mut m = width.mask();
    for i in 0..elems.len()
        invariant
            forall|j: int| 0 <= j < elems@.len() ==> elems@[j].spec_wf(width),
            m == spec_write_mask(width, elems@.take(i as int)),
    {
        m = m & write_mask_elem(width, elems[i]);
        proof {
            assert(elems@.take(i + 1).drop_last() =~= elems@.take(i as int));
            assert(elems@.take(i + 1).last() == elems@[i as int]);
        }
    }
    proof {
        assert(elems@.take(elems@.len() as int) =~= elems@);
    }
    m
}

// READ-ONLY BIT SEQUENCES

/// A read-only sequence of bits that is part of a PCI register.
#[derive(Clone, Copy, Debug, PartialEq, Eq, Structural)]
pub struct PciBitsReadOnly {
    /// Offset of the containing register in the region.
    pub offset: u64,
    /// Width of the containing register.
    pub width: PciRegisterWidth,
    /// Mask selecting the bits of interest within the register.
    pub mask: u32,
    /// How far the bits of interest are shifted up within the register.
    pub shift: u8,
}

impl PciBitsReadOnly {
    /// The mask fits the register width and the shift stays inside it.
    pub open spec fn spec_wf(self) -> bool {
        self.mask <= self.width.spec_mask() && self.shift < self.width.spec_bits()
    }

    /// A read-only bit sequence at `offset`, selected by `mask` and shifted
    /// down by `shift` when read.
    pub fn backed_by(offset: u64, width: PciRegisterWidth, mask: u32, shift: u8) -> (r:
        PciBitsReadOnly)
        requires
            mask <= width.spec_mask(),
            shift < width.spec_bits(),
        ensures
            r == (PciBitsReadOnly { offset, width, mask, shift }),
            r.spec_wf(),
    {
        PciBitsReadOnly { offset, width, mask, shift }
    }

    /// Read the bit sequence: the whole register is read, then masked and
    /// shifted down.
    pub fn read(&self, region: &PciMemoryRegion) -> (r: Result<u32, PciError>)
        requires
            self.spec_wf(),
        ensures
            !spec_register_in_bounds(region@.len() as int, self.offset, self.width) ==> r == Err::<
                u32,
                PciError,
            >(PciError::OutOfBounds),
            spec_register_in_bounds(region@.len() as int, self.offset, self.width)
                && !spec_register_aligned(self.offset, self.width) ==> r == Err::<u32, PciError>(
                PciError::Unaligned,
            ),
            spec_register_in_bounds(region@.len() as int, self.offset, self.width)
                && spec_register_aligned(self.offset, self.width) ==> r == Ok::<u32, PciError>(
                (spec_register_value(region@, self.offset, self.width) & self.mask) >> (
                self.shift as u32),
            ),
    {
        let v = read_register(region, self.offset, self.width)?;
        Ok((v & self.mask) >> (self.shift as u32))
    }
}

// READ-WRITE BIT SEQUENCES

/// Whether `value`, shifted into place, fits the selected bits: shifting it
/// back must give `value` again, and no bit outside `mask` may be set.
pub open spec fn spec_bits_value_fits(mask: u32, shift: u8, value: u32) -> bool {
    ((value << (shift as u32)) >> (shift as u32)) == value && ((value << (shift as u32)) & !mask)
        == 0
}

/// A read-write sequence of bits that is part of a PCI register.
#[derive(Clone, Copy, Debug, PartialEq, Eq, Structural)]
pub struct PciBitsReadWrite {
    /// Offset of the containing register in the region.
    pub offset: u64,
    /// Width of the containing register.
    pub width: PciRegisterWidth,
    /// Mask selecting the bits of interest within the register.
    pub mask: u32,
    /// How far the bits of interest are shifted up within the register.
    pub shift: u8,
    /// The containing register's write mask, ANDed with the value read
    /// before altering the bits.
    pub write_mask: u32,
}

impl PciBitsReadWrite {
    /// The masks fit the register width and the shift stays inside it.
    pub open spec fn spec_wf(self) -> bool {
        self.mask <= self.width.spec_mask() && self.shift < self.width.spec_bits()
            && self.write_mask <= self.width.spec_mask()
    }

    /// A read-write bit sequence at `offset`, selected by `mask`, shifted by
    /// `shift`, written under the register's `write_mask`.
    pub fn backed_by(
        offset: u64,
        width: PciRegisterWidth,
        mask: u32,
        shift: u8,
        write_mask: u32,
    ) -> (r: PciBitsReadWrite)
        requires
            mask <= width.spec_mask(),
            shift < width.spec_bits(),
            write_mask <= width.spec_mask(),
        ensures
            r == (PciBitsReadWrite { offset, width, mask, shift, write_mask }),
            r.spec_wf(),
    {
        PciBitsReadWrite { offset, width, mask, shift, write_mask }
    }

    /// Read the bit sequence: the whole register is read, then masked and
    /// shifted down.
    pub fn read(&self, region: &PciMemoryRegion) -> (r: Result<u32, PciError>)
        requires
            self.spec_wf(),
        ensures
            !spec_register_in_bounds(region@.len() as int, self.offset, self.width) ==> r == Err::<
                u32,
                PciError,
            >(PciError::OutOfBounds),
            spec_register_in_bounds(region@.len() as int, self.offset, self.width)
                && !spec_register_aligned(self.offset, self.width) ==> r == Err::<u32, PciError>(
                PciError::Unaligned,
            ),
            spec_register_in_bounds(region@.len() as int, self.offset, self.width)
                && spec_register_aligned(self.offset, self.width) ==> r == Ok::<u32, PciError>(
                (spec_register_value(region@, self.offset, self.width) & self.mask) >> (
                self.shift as u32),
            ),
    {
        let v = read_register(region, self.offset, self.width)?;
        Ok((v & self.mask) >> (self.shift as u32))
    }

    /// Write the bit sequence.
    ///
    /// A value too large for the selected bits is rejected first; otherwise
    /// the register is read, ANDed with the write mask, the shifted value is
    /// ORed in, and the result is written back, so that no other bit of the
    /// register is affected.
    pub fn write(&self, region: &mut PciMemoryRegion, value: u32) -> (r: Result<(), PciError>)
        requires
            self.spec_wf(),
        ensures
            final(region).spec_permissions() == old(region).spec_permissions(),
            r is Err ==> final(region)@ == old(region)@,
            !spec_bits_value_fits(self.mask, self.shift, value) ==> r == Err::<(), PciError>(
                PciError::InvalidInput,
            ),
            spec_bits_value_fits(self.mask, self.shift, value) && !spec_register_in_bounds(
                old(region)@.len() as int,
                self.offset,
                self.width,
            ) ==> r == Err::<(), PciError>(PciError::OutOfBounds),
            spec_bits_value_fits(self.mask, self.shift, value) && spec_register_in_bounds(
                old(region)@.len() as int,
                self.offset,
                self.width,
            ) && !spec_register_aligned(self.offset, self.width) ==> r == Err::<(), PciError>(
                PciError::Unaligned,
            ),
            spec_bits_value_fits(self.mask, self.shift, value) && spec_register_in_bounds(
                old(region)@.len() as int,
                self.offset,
                self.width,
            ) && spec_register_aligned(self.offset, self.width) ==> {
                &&& r == Ok::<(), PciError>(())
                &&& final(region)@.len() == old(region)@.len()
                &&& spec_register_value(final(region)@, self.offset, self.width) == (
                spec_register_value(old(region)@, self.offset, self.width) & self.write_mask) | (
                value << (self.shift as u32))
                &&& forall|j: int|
                    0 <= j < old(region)@.len() && !(self.offset <= j < self.offset
                        + self.width.spec_size()) ==> final(region)@[j] == old(region)@[j]
            },
    {
        let shifted = value << (self.shift as u32);
        if (shifted >> (self.shift as u32)) != value || (shifted & !self.mask) != 0 {
            return Err(PciError::InvalidInput);
        }
        let v = read_register(region, self.offset, self.width)?;
        let to_write = (v & self.write_mask) | shifted;
        proof {
            let mw = self.width.spec_mask();
            let wm = self.write_mask;
            let m = self.mask;
            assert((v & wm) | shifted <= mw) by (bit_vector)
                requires
                    mw == 0xffu32 || mw == 0xffffu32 || mw == 0xffff_ffffu32,
                    v <= mw,
                    wm <= mw,
                    m <= mw,
                    shifted & !m == 0,
            ;
        }
        write_register(region, self.offset, self.width, to_write)
    }
}

// READ-ONLY INDIVIDUAL BITS

/// A read-only single bit that is part of a PCI register.
#[derive(Clone, Copy, Debug, PartialEq, Eq, Structural)]
pub struct PciBitReadOnly {
    /// Offset of the containing register in the region.
    pub offset: u64,
    /// Width of the containing register.
    pub width: PciRegisterWidth,
    /// Mask with exactly the bit of interest set.
    pub mask: u32,
}

impl PciBitReadOnly {
    /// The mask fits the register width.
    pub open spec fn spec_wf(self) -> bool {
        self.mask <= self.width.spec_mask()
    }

    /// A read-only bit at `offset`, selected by `mask`.
    pub fn backed_by(offset: u64, width: PciRegisterWidth, mask: u32) -> (r: PciBitReadOnly)
        requires
            mask <= width.spec_mask(),
        ensures
            r == (PciBitReadOnly { offset, width, mask }),
            r.spec_wf(),
    {
        PciBitReadOnly { offset, width, mask }
    }

    /// Read the bit: the whole register is read, then the bit of interest is
    /// tested.
    pub fn read(&self, region: &PciMemoryRegion) -> (r: Result<bool, PciError>)
        ensures
            !spec_register_in_bounds(region@.len() as int, self.offset, self.width) ==> r == Err::<
                bool,
                PciError,
            >(PciError::OutOfBounds),
            spec_register_in_bounds(region@.len() as int, self.offset, self.width)
                && !spec_register_aligned(self.offset, self.width) ==> r == Err::<bool, PciError>(
                PciError::Unaligned,
            ),
            spec_register_in_bounds(region@.len() as int, self.offset, self.width)
                && spec_register_aligned(self.offset, self.width) ==> r == Ok::<bool, PciError>(
                (spec_register_value(region@, self.offset, self.width) & self.mask) != 0,
            ),
    {
        let v = read_register(region, self.offset, self.width)?;
        Ok((v & self.mask) != 0)
    }
}

// READ-WRITE INDIVIDUAL BITS

/// A read-write single bit that is part of a PCI register.
#[derive(Clone, Copy, Debug, PartialEq, Eq, Structural)]
pub struct PciBitReadWrite {
    /// Offset of the containing register in the region.
    pub offset: u64,
    /// Width of the containing register.
    pub width: PciRegisterWidth,
    /// Mask with exactly the bit of interest set.
    pub mask: u32,
    /// The containing register's write mask, ANDed with the value read
    /// before altering the bit.
    pub write_mask: u32,
}

impl PciBitReadWrite {
    /// The masks fit the register width.
    pub open spec fn spec_wf(self) -> bool {
        self.mask <= self.width.spec_mask() && self.write_mask <= self.width.spec_mask()
    }

    /// A read-write bit at `offset`, selected by `mask`, written under the
    /// register's `write_mask`.
    pub fn backed_by(offset: u64, width: PciRegisterWidth, mask: u32, write_mask: u32) -> (r:
        PciBitReadWrite)
        requires
            mask <= width.spec_mask(),
            write_mask <= width.spec_mask(),
        ensures
            r == (PciBitReadWrite { offset, width, mask, write_mask }),
            r.spec_wf(),
    {
        PciBitReadWrite { offset, width, mask, write_mask }
    }

    /// Read the bit: the whole register is read, then the bit of interest is
    /// tested.
    pub fn read(&self, region: &PciMemoryRegion) -> (r: Result<bool, PciError>)
        ensures
            !spec_register_in_bounds(region@.len() as int, self.offset, self.width) ==> r == Err::<
                bool,
                PciError,
            >(PciError::OutOfBounds),
            spec_register_in_bounds(region@.len() as int, self.offset, self.width)
                && !spec_register_aligned(self.offset, self.width) ==> r == Err::<bool, PciError>(
                PciError::Unaligned,
            ),
            spec_register_in_bounds(region@.len() as int, self.offset, self.width)
                && spec_register_aligned(self.offset, self.width) ==> r == Ok::<bool, PciError>(
                (spec_register_value(region@, self.offset, self.width) & self.mask) != 0,
            ),
    {
        let v = read_register(region, self.offset, self.width)?;
        Ok((v & self.mask) != 0)
    }

    /// Write the bit.
    ///
    /// The register is read, ANDed with the write mask, the bit of interest
    /// is set or cleared, and the result is written back, so that no other
    /// bit of the register is affected.
    pub fn write(&self, region: &mut PciMemoryRegion, value: bool) -> (r: Result<(), PciError>)
        requires
            self.spec_wf(),
        ensures
            final(region).spec_permissions() == old(region).spec_permissions(),
            r is Err ==> final(region)@ == old(region)@,
            !spec_register_in_bounds(old(region)@.len() as int, self.offset, self.width) ==> r
                == Err::<(), PciError>(PciError::OutOfBounds),
            spec_register_in_bounds(old(region)@.len() as int, self.offset, self.width)
                && !spec_register_aligned(self.offset, self.width) ==> r == Err::<(), PciError>(
                PciError::Unaligned,
            ),
            spec_register_in_bounds(old(region)@.len() as int, self.offset, self.width)
                && spec_register_aligned(self.offset, self.width) ==> {
                &&& r == Ok::<(), PciError>(())
                &&& final(region)@.len() == old(region)@.len()
                &&& spec_register_value(final(region)@, self.offset, self.width) == ({
                    let masked = spec_register_value(old(region)@, self.offset, self.width)
                        & self.write_mask;
                    if value {
                        masked | self.mask
                    } else {
                        masked & !self.mask
                    }
                })
                &&& forall|j: int|
                    0 <= j < old(region)@.len() && !(self.offset <= j < self.offset
                        + self.width.spec_size()) ==> final(region)@[j] == old(region)@[j]
            },
    {
        let v = read_register(region, self.offset, self.width)?;
        let masked = v & self.write_mask;
        let new = if value {
            masked | self.mask
        } else {
            masked & !self.mask
        };
        proof {
            let mw = self.width.spec_mask();
            let wm = self.write_mask;
            let m = self.mask;
            assert(((v & wm) | m) <= mw && ((v & wm) & !m) <= mw) by (bit_vector)
                requires
                    mw == 0xffu32 || mw == 0xffffu32 || mw == 0xffff_ffffu32,
                    v <= mw,
                    wm <= mw,
                    m <= mw,
            ;
        }
        write_register(region, self.offset, self.width, new)
    }
}

// READ-CLEAR INDIVIDUAL BITS

/// A read-clear (RW1C in the spec) single bit that is part of a PCI
/// register.
///
/// Such a bit is set autonomously by the hardware to report a status
/// condition; software can only read it, or clear it by writing 1 to it.
#[derive(Clone, Copy, Debug, PartialEq, Eq, Structural)]
pub struct PciBitReadClear {
    /// The underlying read-write bit the clear operation writes through.
    pub rw: PciBitReadWrite,
}

impl PciBitReadClear {
    /// The masks fit the register width.
    pub open spec fn spec_wf(self) -> bool {
        self.rw.spec_wf()
    }

    /// A read-clear bit at `offset`, selected by `mask`, written under the
    /// register's `write_mask`.
    pub fn backed_by(offset: u64, width: PciRegisterWidth, mask: u32, write_mask: u32) -> (r:
        PciBitReadClear)
        requires
            mask <= width.spec_mask(),
            write_mask <= width.spec_mask(),
        ensures
            r == (PciBitReadClear { rw: PciBitReadWrite { offset, width, mask, write_mask } }),
            r.spec_wf(),
    {
        PciBitReadClear { rw: PciBitReadWrite { offset, width, mask, write_mask } }
    }

    /// Read the bit: the whole register is read, then the bit of interest is
    /// tested.
    pub fn read(&self, region: &PciMemoryRegion) -> (r: Result<bool, PciError>)
        ensures
            !spec_register_in_bounds(region@.len() as int, self.rw.offset, self.rw.width) ==> r
                == Err::<bool, PciError>(PciError::OutOfBounds),
            spec_register_in_bounds(region@.len() as int, self.rw.offset, self.rw.width)
                && !spec_register_aligned(self.rw.offset, self.rw.width) ==> r == Err::<
                bool,
                PciError,
            >(PciError::Unaligned),
            spec_register_in_bounds(region@.len() as int, self.rw.offset, self.rw.width)
                && spec_register_aligned(self.rw.offset, self.rw.width) ==> r == Ok::<
                bool,
                PciError,
            >((spec_register_value(region@, self.rw.offset, self.rw.width) & self.rw.mask) != 0),
    {
        self.rw.read(region)
    }

    /// Clear the bit (i.e., make the hardware drop the status condition).
    ///
    /// This issues a register write whose value has the bit of interest set
    /// to 1 and every other write-1-to-clear and reserved-zero bit cleared
    /// by the write mask — not a plain AND-clear of the bit — so that no
    /// other status bit of the register is cleared by accident.
    pub fn clear(&self, region: &mut PciMemoryRegion) -> (r: Result<(), PciError>)
        requires
            self.spec_wf(),
        ensures
            final(region).spec_permissions() == old(region).spec_permissions(),
            r is Err ==> final(region)@ == old(region)@,
            !spec_register_in_bounds(old(region)@.len() as int, self.rw.offset, self.rw.width)
                ==> r == Err::<(), PciError>(PciError::OutOfBounds),
            spec_register_in_bounds(old(region)@.len() as int, self.rw.offset, self.rw.width)
                && !spec_register_aligned(self.rw.offset, self.rw.width) ==> r == Err::<
                (),
                PciError,
            >(PciError::Unaligned),
            spec_register_in_bounds(old(region)@.len() as int, self.rw.offset, self.rw.width)
                && spec_register_aligned(self.rw.offset, self.rw.width) ==> {
                &&& r == Ok::<(), PciError>(())
                &&& final(region)@.len() == old(region)@.len()
                &&& spec_register_value(final(region)@, self.rw.offset, self.rw.width) == (
                spec_register_value(old(region)@, self.rw.offset, self.rw.width)
                    & self.rw.write_mask) | self.rw.mask
                &&& forall|j: int|
                    0 <= j < old(region)@.len() && !(self.rw.offset <= j < self.rw.offset
                        + self.rw.width.spec_size()) ==> final(region)@[j] == old(region)@[j]
            },
    {
        self.rw.write(region, true)
    }
}

} // verus!
