//! Byte-addressable PCI regions (configuration space, BARs, ROM) and
//! bounds-checked, composable views over them.
//!
//! A [`PciMemoryRegion`] owns a block of bytes together with the permissions
//! the device advertised for it; every access is bounds-checked, and the
//! multi-byte accesses are little-endian and alignment-checked, reproducing
//! the constraints of memory-mapped device windows.  A [`PciSubregion`] is a
//! plain `(offset, length)` window; composing a subregion of a subregion
//! collapses to a single window against the root region, so nesting costs
//! nothing per access.

use vstd::prelude::*;

use crate::errors::PciError;

pub mod structured;

verus! {

/// Which operations may be performed on some piece of memory or other data
/// region.
#[derive(Clone, Copy, Debug, PartialEq, Eq, Structural)]
pub enum Permissions {
    /// Only reading is allowed.
    Read,
    /// Only writing is allowed.
    Write,
    /// Both reading and writing are allowed.
    ReadWrite,
}

impl Permissions {
    /// Whether `self` allows reading.
    pub open spec fn spec_can_read(self) -> bool {
        self is Read || self is ReadWrite
    }

    /// Whether `self` allows writing.
    pub open spec fn spec_can_write(self) -> bool {
        self is Write || self is ReadWrite
    }

    /// The permissions that allow exactly the granted operations, or `None`
    /// if neither operation is granted.
    pub fn new(can_read: bool, can_write: bool) -> (r: Option<Permissions>)
        ensures
            r == (match (can_read, can_write) {
                (false, false) => None::<Permissions>,
                (true, false) => Some(Permissions::Read),
                (false, true) => Some(Permissions::Write),
                (true, true) => Some(Permissions::ReadWrite),
            }),
    {
        match (can_read, can_write) {
            (false, false) => None,
            (true, false) => Some(Permissions::Read),
            (false, true) => Some(Permissions::Write),
            (true, true) => Some(Permissions::ReadWrite),
        }
    }

    /// Whether these permissions allow reading.
    pub fn can_read(&self) -> (r: bool)
        ensures
            r == self.spec_can_read(),
    {
        match self {
            Permissions::Read => true,
            Permissions::Write => false,
            Permissions::ReadWrite => true,
        }
    }

    /// Whether these permissions allow writing.
    pub fn can_write(&self) -> (r: bool)
        ensures
            r == self.spec_can_write(),
    {
        match self {
            Permissions::Read => false,
            Permissions::Write => true,
            Permissions::ReadWrite => true,
        }
    }
}

/// The little-endian 16-bit value stored at `off` in `s`.
pub open spec fn spec_le_u16(s: Seq<u8>, off: int) -> u16 {
    (s[off] + s[off + 1] * 0x100) as u16
}

/// The little-endian 32-bit value stored at `off` in `s`.
pub open spec fn spec_le_u32(s: Seq<u8>, off: int) -> u32 {
    (s[off] + s[off + 1] * 0x100 + s[off + 2] * 0x10000 + s[off + 3] * 0x1000000) as u32
}

/// The little-endian 64-bit value stored at `off` in `s`.
pub open spec fn spec_le_u64(s: Seq<u8>, off: int) -> u64 {
    (spec_le_u32(s, off) + spec_le_u32(s, off + 4) * 0x1_0000_0000) as u64
}

/// A region of device memory the library can hold directly: a block of bytes
/// plus the permissions the device advertised for it.
///
/// The model of a value is the byte sequence it holds (`self@`); the
/// permissions are exposed through [`PciMemoryRegion::spec_permissions`].
/// Every access validates `offset + size <= len()`, failing with
/// [`PciError::OutOfBounds`] otherwise, and the 16-bit and 32-bit accesses
/// additionally require `offset % size == 0`, failing with
/// [`PciError::Unaligned`] otherwise, because unaligned accesses to
/// memory-mapped device windows are unsafe on many architectures.
#[derive(Debug)]
pub struct PciMemoryRegion {
    bytes: Vec<u8>,
    permissions: Permissions,
}

impl View for PciMemoryRegion {
    type V = Seq<u8>;

    closed spec fn view(&self) -> Seq<u8> {
        self.bytes@
    }
}

impl PciMemoryRegion {
    /// The permissions this region was created with.
    pub closed spec fn spec_permissions(&self) -> Permissions {
        self.permissions
    }

    /// A read-only region holding the given bytes.
    pub fn new(data: Vec<u8>) -> (r: PciMemoryRegion)
        ensures
            r@ == data@,
            r.spec_permissions() == Permissions::Read,
    {
        PciMemoryRegion { bytes: data, permissions: Permissions::Read }
    }

    /// A read-write region holding the given bytes.
    pub fn new_mut(data: Vec<u8>) -> (r: PciMemoryRegion)
        ensures
            r@ == data@,
            r.spec_permissions() == Permissions::ReadWrite,
    {
        PciMemoryRegion { bytes: data, permissions: Permissions::ReadWrite }
    }

    /// A region holding the given bytes with explicitly chosen permissions.
    pub fn new_with_permissions(data: Vec<u8>, permissions: Permissions) -> (r: PciMemoryRegion)
        ensures
            r@ == data@,
            r.spec_permissions() == permissions,
    {
        PciMemoryRegion { bytes: data, permissions }
    }

    /// The length of the region in bytes.
    pub fn len(&self) -> (n: u64)
        ensures
            n == self@.len(),
    {
        self.bytes.len() as u64
    }

    /// Whether the region may be read, written, or both.
    pub fn permissions(&self) -> (p: Permissions)
        ensures
            p == self.spec_permissions(),
    {
        self.permissions
    }

    /// Read the byte at `offset`.
    pub fn read_u8(&self, offset: u64) -> (r: Result<u8, PciError>)
        ensures
            offset + 1 <= self@.len() ==> r == Ok::<u8, PciError>(self@[offset as int]),
            offset + 1 > self@.len() ==> r == Err::<u8, PciError>(PciError::OutOfBounds),
    {
        if offset >= self.bytes.len() as u64 {
            return Err(PciError::OutOfBounds);
        }
        Ok(self.bytes[offset as usize])
    }

    /// Write the byte at `offset`.
    pub fn write_u8(&mut self, offset: u64, value: u8) -> (r: Result<(), PciError>)
        ensures
            final(self).spec_permissions() == old(self).spec_permissions(),
            offset + 1 <= old(self)@.len() ==> {
                &&& r == Ok::<(), PciError>(())
                &&& final(self)@ == old(self)@.update(offset as int, value)
            },
            offset + 1 > old(self)@.len() ==> {
                &&& r == Err::<(), PciError>(PciError::OutOfBounds)
                &&& final(self)@ == old(self)@
            },
    {
        if offset >= self.bytes.len() as u64 {
            return Err(PciError::OutOfBounds);
        }
        self.bytes[offset as usize] = value;
        Ok(())
    }

    /// Read the little-endian 16-bit value at `offset`.
    pub fn read_le_u16(&self, offset: u64) -> (r: Result<u16, PciError>)
        ensures
            offset + 2 > self@.len() ==> r == Err::<u16, PciError>(PciError::OutOfBounds),
            offset + 2 <= self@.len() && offset % 2 != 0 ==> r == Err::<u16, PciError>(
                PciError::Unaligned,
            ),
            offset + 2 <= self@.len() && offset % 2 == 0 ==> r == Ok::<u16, PciError>(
                spec_le_u16(self@, offset as int),
            ),
    {
        if offset > self.bytes.len() as u64 || 2 > self.bytes.len() as u64 - offset {
            return Err(PciError::OutOfBounds);
        }
        if offset % 2 != 0 {
            return Err(PciError::Unaligned);
        }
        let b0 = self.bytes[offset as usize];
        let b1 = self.bytes[offset as usize + 1];
        Ok(b0 as u16 + b1 as u16 * 0x100)
    }

    /// Write the little-endian 16-bit value at `offset`.
    pub fn write_le_u16(&mut self, offset: u64, value: u16) -> (r: Result<(), PciError>)
        ensures
            final(self).spec_permissions() == old(self).spec_permissions(),
            offset + 2 > old(self)@.len() ==> {
                &&& r == Err::<(), PciError>(PciError::OutOfBounds)
                &&& final(self)@ == old(self)@
            },
            offset + 2 <= old(self)@.len() && offset % 2 != 0 ==> {
                &&& r == Err::<(), PciError>(PciError::Unaligned)
                &&& final(self)@ == old(self)@
            },
            offset + 2 <= old(self)@.len() && offset % 2 == 0 ==> {
                &&& r == Ok::<(), PciError>(())
                &&& final(self)@ == old(self)@.update(offset as int, (value % 0x100) as u8).update(
                    offset + 1,
                    (value / 0x100) as u8,
                )
                &&& spec_le_u16(final(self)@, offset as int) == value
            },
    {
        if offset > self.bytes.len() as u64 || 2 > self.bytes.len() as u64 - offset {
            return Err(PciError::OutOfBounds);
        }
        if offset % 2 != 0 {
            return Err(PciError::Unaligned);
        }
        let b0: u8 = (value % 0x100) as u8;
        let b1: u8 = (value / 0x100) as u8;
        self.bytes[offset as usize] = b0;
        self.bytes[offset as usize + 1] = b1;
        proof {
            vstd::arithmetic::div_mod::lemma_fundamental_div_mod(value as int, 0x100);
        }
        Ok(())
    }

    /// Read the little-endian 32-bit value at `offset`.
    pub fn read_le_u32(&self, offset: u64) -> (r: Result<u32, PciError>)
        ensures
            offset + 4 > self@.len() ==> r == Err::<u32, PciError>(PciError::OutOfBounds),
            offset + 4 <= self@.len() && offset % 4 != 0 ==> r == Err::<u32, PciError>(
                PciError::Unaligned,
            ),
            offset + 4 <= self@.len() && offset % 4 == 0 ==> r == Ok::<u32, PciError>(
                spec_le_u32(self@, offset as int),
            ),
    {
        if offset > self.bytes.len() as u64 || 4 > self.bytes.len() as u64 - offset {
            return Err(PciError::OutOfBounds);
        }
        if offset % 4 != 0 {
            return Err(PciError::Unaligned);
        }
        let b0 = self.bytes[offset as usize];
        let b1 = self.bytes[offset as usize + 1];
        let b2 = self.bytes[offset as usize + 2];
        let b3 = self.bytes[offset as usize + 3];
        Ok(b0 as u32 + b1 as u32 * 0x100 + b2 as u32 * 0x10000 + b3 as u32 * 0x1000000)
    }

    /// Write the little-endian 32-bit value at `offset`.
    pub fn write_le_u32(&mut self, offset: u64, value: u32) -> (r: Result<(), PciError>)
        ensures
            final(self).spec_permissions() == old(self).spec_permissions(),
            offset + 4 > old(self)@.len() ==> {
                &&& r == Err::<(), PciError>(PciError::OutOfBounds)
                &&& final(self)@ == old(self)@
            },
            offset + 4 <= old(self)@.len() && offset % 4 != 0 ==> {
                &&& r == Err::<(), PciError>(PciError::Unaligned)
                &&& final(self)@ == old(self)@
            },
            offset + 4 <= old(self)@.len() && offset % 4 == 0 ==> {
                &&& r == Ok::<(), PciError>(())
                &&& final(self)@ == old(self)@.update(offset as int, (value % 0x100) as u8).update(
                    offset + 1,
                    ((value / 0x100) % 0x100) as u8,
                ).update(offset + 2, ((value / 0x10000) % 0x100) as u8).update(
                    offset + 3,
                    (value / 0x1000000) as u8,
                )
                &&& spec_le_u32(final(self)@, offset as int) == value
            },
    {
        if offset > self.bytes.len() as u64 || 4 > self.bytes.len() as u64 - offset {
            return Err(PciError::OutOfBounds);
        }
        if offset % 4 != 0 {
            return Err(PciError::Unaligned);
        }
        let b0: u8 = (value % 0x100) as u8;
        let b1: u8 = ((value / 0x100) % 0x100) as u8;
        let b2: u8 = ((value / 0x10000) % 0x100) as u8;
        let b3: u8 = (value / 0x1000000) as u8;
        self.bytes[offset as usize] = b0;
        self.bytes[offset as usize + 1] = b1;
        self.bytes[offset as usize + 2] = b2;
        self.bytes[offset as usize + 3] = b3;
        proof {
            let v = value as int;
            vstd::arithmetic::div_mod::lemma_fundamental_div_mod(v, 0x100);
            vstd::arithmetic::div_mod::lemma_fundamental_div_mod(v / 0x100, 0x100);
            vstd::arithmetic::div_mod::lemma_div_denominator(v, 0x100, 0x100);
            vstd::arithmetic::div_mod::lemma_fundamental_div_mod(v / 0x10000, 0x100);
            vstd::arithmetic::div_mod::lemma_div_denominator(v, 0x10000, 0x100);
        }
        Ok(())
    }

    /// Read `len` bytes starting at `offset` into a fresh buffer.
    pub fn read_bytes(&self, offset: u64, len: usize) -> (r: Result<Vec<u8>, PciError>)
        ensures
            offset + len <= self@.len() ==> (r matches Ok(v) && v@ == self@.subrange(
                offset as int,
                offset + len,
            )),
            offset + len > self@.len() ==> r == Err::<Vec<u8>, PciError>(PciError::OutOfBounds),
    {
        if offset > self.bytes.len() as u64 || len as u64 > self.bytes.len() as u64 - offset {
            return Err(PciError::OutOfBounds);
        }
        let mut out: Vec<u8> = Vec::new();
        let base = offset as usize;
        for i in 0..len
            invariant
                base + len <= self.bytes.len(),
                base == offset,
                out@.len() == i,
                forall|j: int| 0 <= j < i ==> out@[j] == self@[base + j],
        {
            out.push(self.bytes[base + i]);
        }
        proof {
            assert(out@ =~= self@.subrange(offset as int, offset + len));
        }
        Ok(out)
    }

    /// The window that covers this whole region.
    pub open spec fn spec_as_subregion(&self) -> PciSubregion {
        PciSubregion { offset: 0, length: self@.len() as u64 }
    }

    /// Returns the window that covers this whole region.
    pub fn as_subregion(&self) -> (w: PciSubregion)
        ensures
            w == self.spec_as_subregion(),
    {
        PciSubregion { offset: 0, length: self.bytes.len() as u64 }
    }

    /// Returns the window for a clamped range of this region.
    pub fn subregion(&self, start: u64, end: u64) -> (w: PciSubregion)
        ensures
            w == self.spec_as_subregion().spec_subregion(start, end),
    {
        self.as_subregion().subregion(start, end)
    }

    /// Write all of `data` starting at `offset`.
    pub fn write_bytes(&mut self, offset: u64, data: &Vec<u8>) -> (r: Result<(), PciError>)
        ensures
            final(self).spec_permissions() == old(self).spec_permissions(),
            offset + data@.len() <= old(self)@.len() ==> {
                &&& r == Ok::<(), PciError>(())
                &&& final(self)@.len() == old(self)@.len()
                &&& final(self)@.subrange(offset as int, offset + data@.len()) == data@
                &&& forall|j: int|
                    offset <= j < offset + data@.len() ==> final(self)@[j] == data@[j - offset]
                &&& forall|j: int|
                    0 <= j < old(self)@.len() && !(offset <= j < offset + data@.len())
                        ==> final(self)@[j] == old(self)@[j]
            },
            offset + data@.len() > old(self)@.len() ==> {
                &&& r == Err::<(), PciError>(PciError::OutOfBounds)
                &&& final(self)@ == old(self)@
            },
    {
        if offset > self.bytes.len() as u64 || data.len() as u64 > self.bytes.len() as u64 - offset
        {
            return Err(PciError::OutOfBounds);
        }
        let base = offset as usize;
        let len = data.len();
        for i in 0..len
            invariant
                base + len <= self.bytes.len(),
                base == offset,
                len == data@.len(),
                self.bytes@.len() == old(self)@.len(),
                self.permissions == old(self).spec_permissions(),
                forall|j: int| base <= j < base + i ==> self.bytes@[j] == data@[j - base],
                forall|j: int|
                    0 <= j < old(self)@.len() && !(base <= j < base + i) ==> self.bytes@[j]
                        == old(self)@[j],
        {
            self.bytes[base + i] = data[i];
        }
        proof {
            assert(self@.subrange(offset as int, offset + data@.len()) =~= data@);
        }
        Ok(())
    }
}

/// Clamps the half-open range `[start, end)` to `[0, max_length]`: the start
/// is capped at `max_length`, and the end is raised to the start and then
/// capped at `max_length`.
pub open spec fn spec_clamp_range(start: u64, end: u64, max_length: u64) -> (u64, u64) {
    let s = if start <= max_length {
        start
    } else {
        max_length
    };
    let e0 = if end >= start {
        end
    } else {
        start
    };
    let e = if e0 <= max_length {
        e0
    } else {
        max_length
    };
    (s, e)
}

/// Clamps the half-open range `[start, end)` to `[0, max_length]`.
pub fn clamp_range(start: u64, end: u64, max_length: u64) -> (r: (u64, u64))
    ensures
        r == spec_clamp_range(start, end, max_length),
        r.0 <= r.1 <= max_length,
{
    let s = if start <= max_length {
        start
    } else {
        max_length
    };
    let e0 = if end >= start {
        end
    } else {
        start
    };
    let e = if e0 <= max_length {
        e0
    } else {
        max_length
    };
    (s, e)
}

/// A contiguous window `[offset, offset + length)` into a region.
///
/// A window is a plain pair of numbers; accesses take the region it applies
/// to as an argument, are offset by the window's offset, and must not exceed
/// the window's end.  Because composing windows folds the offsets together,
/// repeated sub-viewing costs nothing per access regardless of nesting depth.
#[derive(Clone, Copy, Debug, PartialEq, Eq, Structural)]
pub struct PciSubregion {
    /// Offset of the window in the underlying region.
    pub offset: u64,
    /// Length of the window in bytes.
    pub length: u64,
}

/// For types that can cheaply be seen as a [`PciSubregion`] window.
pub trait AsPciSubregion {
    /// The window corresponding to `self`.
    spec fn spec_as_subregion(&self) -> PciSubregion;

    /// Returns the window corresponding to `self`.
    fn as_subregion(&self) -> (w: PciSubregion)
        ensures
            w == self.spec_as_subregion(),
    ;
}

impl AsPciSubregion for PciSubregion {
    open spec fn spec_as_subregion(&self) -> PciSubregion {
        *self
    }

    fn as_subregion(&self) -> (w: PciSubregion) {
        *self
    }
}

impl AsPciSubregion for PciMemoryRegion {
    open spec fn spec_as_subregion(&self) -> PciSubregion {
        PciSubregion { offset: 0, length: self@.len() as u64 }
    }

    fn as_subregion(&self) -> (w: PciSubregion) {
        PciSubregion { offset: 0, length: self.len() }
    }
}

impl PciSubregion {
    /// The window's end does not wrap around the address space.
    pub open spec fn spec_wf(self) -> bool {
        self.offset + self.length <= u64::MAX
    }

    /// Whether every byte of the window lies inside a region of `region_len`
    /// bytes.
    pub open spec fn spec_valid_for(self, region_len: int) -> bool {
        self.offset + self.length <= region_len
    }

    /// The window for a clamped range of this window, folded to a single
    /// offset/length pair against the underlying region.
    pub open spec fn spec_subregion(self, start: u64, end: u64) -> PciSubregion {
        let (s, e) = spec_clamp_range(start, end, self.length);
        PciSubregion { offset: (self.offset + s) as u64, length: (e - s) as u64 }
    }

    /// Offset of the window in the underlying region.
    pub fn offset_in_underlying_region(&self) -> (o: u64)
        ensures
            o == self.offset,
    {
        self.offset
    }

    /// Length of the window in bytes.
    pub fn len(&self) -> (n: u64)
        ensures
            n == self.length,
    {
        self.length
    }

    /// Returns the window for the clamped range `[start, end)` of this
    /// window.
    pub fn subregion(&self, start: u64, end: u64) -> (w: PciSubregion)
        requires
            self.spec_wf(),
        ensures
            w == self.spec_subregion(start, end),
            w.spec_wf(),
            w.offset + w.length <= self.offset + self.length,
    {
        let (s, e) = clamp_range(start, end, self.length);
        PciSubregion { offset: self.offset + s, length: e - s }
    }

    /// Validates that an access of `len` bytes at `offset` stays inside the
    /// window.
    pub fn validate_access(&self, offset: u64, len: usize) -> (r: Result<(), PciError>)
        ensures
            offset + len <= self.length ==> r == Ok::<(), PciError>(()),
            offset + len > self.length ==> r == Err::<(), PciError>(PciError::OutOfBounds),
    {
        if offset > self.length || len as u64 > self.length - offset {
            return Err(PciError::OutOfBounds);
        }
        Ok(())
    }

    /// Read the byte at `offset` within the window.
    pub fn read_u8(&self, region: &PciMemoryRegion, offset: u64) -> (r: Result<u8, PciError>)
        requires
            self.spec_wf(),
        ensures
            offset + 1 > self.length ==> r == Err::<u8, PciError>(PciError::OutOfBounds),
            offset + 1 <= self.length && self.offset + offset + 1 > region@.len() ==> r == Err::<
                u8,
                PciError,
            >(PciError::OutOfBounds),
            offset + 1 <= self.length && self.offset + offset + 1 <= region@.len() ==> r == Ok::<
                u8,
                PciError,
            >(region@[self.offset + offset]),
    {
        self.validate_access(offset, 1)?;
        region.read_u8(self.offset + offset)
    }

    /// Write the byte at `offset` within the window.
    pub fn write_u8(&self, region: &mut PciMemoryRegion, offset: u64, value: u8) -> (r: Result<
        (),
        PciError,
    >)
        requires
            self.spec_wf(),
        ensures
            final(region).spec_permissions() == old(region).spec_permissions(),
            offset + 1 > self.length ==> r == Err::<(), PciError>(PciError::OutOfBounds)
                && final(region)@ == old(region)@,
            offset + 1 <= self.length && self.offset + offset + 1 > old(region)@.len() ==> r
                == Err::<(), PciError>(PciError::OutOfBounds) && final(region)@ == old(region)@,
            offset + 1 <= self.length && self.offset + offset + 1 <= old(region)@.len() ==> r
                == Ok::<(), PciError>(()) && final(region)@ == old(region)@.update(
                self.offset + offset,
                value,
            ),
    {
        if let Err(e) = self.validate_access(offset, 1) {
            return Err(e);
        }
        region.write_u8(self.offset + offset, value)
    }

    /// Read the little-endian 16-bit value at `offset` within the window.
    pub fn read_le_u16(&self, region: &PciMemoryRegion, offset: u64) -> (r: Result<u16, PciError>)
        requires
            self.spec_wf(),
        ensures
            offset + 2 > self.length ==> r == Err::<u16, PciError>(PciError::OutOfBounds),
            offset + 2 <= self.length && self.offset + offset + 2 > region@.len() ==> r == Err::<
                u16,
                PciError,
            >(PciError::OutOfBounds),
            offset + 2 <= self.length && self.offset + offset + 2 <= region@.len() && (self.offset
                + offset) % 2 != 0 ==> r == Err::<u16, PciError>(PciError::Unaligned),
            offset + 2 <= self.length && self.offset + offset + 2 <= region@.len() && (self.offset
                + offset) % 2 == 0 ==> r == Ok::<u16, PciError>(
                spec_le_u16(region@, self.offset + offset),
            ),
    {
        self.validate_access(offset, 2)?;
        region.read_le_u16(self.offset + offset)
    }

    /// Write the little-endian 16-bit value at `offset` within the window.
    pub fn write_le_u16(&self, region: &mut PciMemoryRegion, offset: u64, value: u16) -> (r: Result<
        (),
        PciError,
    >)
        requires
            self.spec_wf(),
        ensures
            final(region).spec_permissions() == old(region).spec_permissions(),
            r is Err ==> final(region)@ == old(region)@,
            offset + 2 > self.length ==> r == Err::<(), PciError>(PciError::OutOfBounds),
            offset + 2 <= self.length && self.offset + offset + 2 > old(region)@.len() ==> r
                == Err::<(), PciError>(PciError::OutOfBounds),
            offset + 2 <= self.length && self.offset + offset + 2 <= old(region)@.len() && (
            self.offset + offset) % 2 != 0 ==> r == Err::<(), PciError>(PciError::Unaligned),
            offset + 2 <= self.length && self.offset + offset + 2 <= old(region)@.len() && (
            self.offset + offset) % 2 == 0 ==> r == Ok::<(), PciError>(()) && final(region)@ == old(
                region,
            )@.update((self.offset + offset) as int, (value % 0x100) as u8).update(
                self.offset + offset + 1,
                (value / 0x100) as u8,
            ) && spec_le_u16(final(region)@, self.offset + offset) == value,
    {
        if let Err(e) = self.validate_access(offset, 2) {
            return Err(e);
        }
        region.write_le_u16(self.offset + offset, value)
    }

    /// Read the little-endian 32-bit value at `offset` within the window.
    pub fn read_le_u32(&self, region: &PciMemoryRegion, offset: u64) -> (r: Result<u32, PciError>)
        requires
            self.spec_wf(),
        ensures
            offset + 4 > self.length ==> r == Err::<u32, PciError>(PciError::OutOfBounds),
            offset + 4 <= self.length && self.offset + offset + 4 > region@.len() ==> r == Err::<
                u32,
                PciError,
            >(PciError::OutOfBounds),
            offset + 4 <= self.length && self.offset + offset + 4 <= region@.len() && (self.offset
                + offset) % 4 != 0 ==> r == Err::<u32, PciError>(PciError::Unaligned),
            offset + 4 <= self.length && self.offset + offset + 4 <= region@.len() && (self.offset
                + offset) % 4 == 0 ==> r == Ok::<u32, PciError>(
                spec_le_u32(region@, self.offset + offset),
            ),
    {
        self.validate_access(offset, 4)?;
        region.read_le_u32(self.offset + offset)
    }

    /// Write the little-endian 32-bit value at `offset` within the window.
    pub fn write_le_u32(&self, region: &mut PciMemoryRegion, offset: u64, value: u32) -> (r: Result<
        (),
        PciError,
    >)
        requires
            self.spec_wf(),
        ensures
            final(region).spec_permissions() == old(region).spec_permissions(),
            r is Err ==> final(region)@ == old(region)@,
            offset + 4 > self.length ==> r == Err::<(), PciError>(PciError::OutOfBounds),
            offset + 4 <= self.length && self.offset + offset + 4 > old(region)@.len() ==> r
                == Err::<(), PciError>(PciError::OutOfBounds),
            offset + 4 <= self.length && self.offset + offset + 4 <= old(region)@.len() && (
            self.offset + offset) % 4 != 0 ==> r == Err::<(), PciError>(PciError::Unaligned),
            offset + 4 <= self.length && self.offset + offset + 4 <= old(region)@.len() && (
            self.offset + offset) % 4 == 0 ==> r == Ok::<(), PciError>(()) && spec_le_u32(
                final(region)@,
                self.offset + offset,
            ) == value && final(region)@.len() == old(region)@.len() && (forall|j: int|
                0 <= j < old(region)@.len() && !(self.offset + offset <= j < self.offset + offset
                    + 4) ==> final(region)@[j] == old(region)@[j]),
    {
        if let Err(e) = self.validate_access(offset, 4) {
            return Err(e);
        }
        region.write_le_u32(self.offset + offset, value)
    }

    /// Read `len` bytes at `offset` within the window into a fresh buffer.
    pub fn read_bytes(&self, region: &PciMemoryRegion, offset: u64, len: usize) -> (r: Result<
        Vec<u8>,
        PciError,
    >)
        requires
            self.spec_wf(),
        ensures
            offset + len > self.length ==> r == Err::<Vec<u8>, PciError>(PciError::OutOfBounds),
            offset + len <= self.length && self.offset + offset + len > region@.len() ==> r
                == Err::<Vec<u8>, PciError>(PciError::OutOfBounds),
            offset + len <= self.length && self.offset + offset + len <= region@.len() ==> (
            r matches Ok(v) && v@ == region@.subrange(
                self.offset + offset,
                self.offset + offset + len,
            )),
    {
        self.validate_access(offset, len)?;
        region.read_bytes(self.offset + offset, len)
    }

    /// Write all of `data` at `offset` within the window.
    pub fn write_bytes(&self, region: &mut PciMemoryRegion, offset: u64, data: &Vec<u8>) -> (r:
        Result<(), PciError>)
        requires
            self.spec_wf(),
        ensures
            final(region).spec_permissions() == old(region).spec_permissions(),
            r is Err ==> final(region)@ == old(region)@,
            offset + data@.len() > self.length ==> r == Err::<(), PciError>(PciError::OutOfBounds),
            offset + data@.len() <= self.length && self.offset + offset + data@.len() > old(
                region,
            )@.len() ==> r == Err::<(), PciError>(PciError::OutOfBounds),
            offset + data@.len() <= self.length && self.offset + offset + data@.len() <= old(
                region,
            )@.len() ==> {
                &&& r == Ok::<(), PciError>(())
                &&& final(region)@.len() == old(region)@.len()
                &&& final(region)@.subrange(
                    self.offset + offset,
                    self.offset + offset + data@.len(),
                ) == data@
                &&& forall|j: int|
                    0 <= j < old(region)@.len() && !(self.offset + offset <= j < self.offset
                        + offset + data@.len()) ==> final(region)@[j] == old(region)@[j]
            },
    {
        if let Err(e) = self.validate_access(offset, data.len()) {
            return Err(e);
        }
        region.write_bytes(self.offset + offset, data)
    }
}

/// Writing bytes to a readable and writable region and reading the same
/// range back yields exactly the bytes written.
///
/// `before` is the region before the write and `after` any region state that
/// [`PciMemoryRegion::write_bytes`] may leave behind for an in-bounds write
/// of `data` at `offset`; reading `data.len()` bytes at `offset` from
/// `after` returns `data`.
pub proof fn lemma_read_write_round_trip(
    before: PciMemoryRegion,
    after: PciMemoryRegion,
    offset: u64,
    data: Seq<u8>,
)
    requires
        before.spec_permissions().spec_can_read(),
        before.spec_permissions().spec_can_write(),
        offset + data.len() <= before@.len(),
        after@.len() == before@.len(),
        forall|j: int| offset <= j < offset + data.len() ==> after@[j] == data[j - offset],
    ensures
        after@.subrange(offset as int, offset + data.len()) == data,
{
    assert(after@.subrange(offset as int, offset + data.len()) =~= data);
}

/// Taking a subregion of a subregion gives exactly the subregion built from
/// the composed offsets: for an outer range `[a, b)` that lies inside the
/// window and an inner range `[c, d)` that lies inside the outer one, the
/// nested window collapses to the window for `[a + c, a + d)`, so the two
/// constructions read the same bytes and fail in the same ways.
pub proof fn lemma_subregion_compose(w: PciSubregion, a: u64, b: u64, c: u64, d: u64)
    requires
        w.spec_wf(),
        a <= b <= w.length,
        c <= b - a,
        d <= b - a,
    ensures
        w.spec_subregion(a, b).spec_subregion(c, d) == w.spec_subregion(
            (a + c) as u64,
            (a + d) as u64,
        ),
{
}

/// The fully clamped form of subregion composition: without any bounds
/// hypotheses, the nested window and the window built from the clamped,
/// composed offsets are equal.
pub proof fn lemma_subregion_compose_clamped(w: PciSubregion, a: u64, b: u64, c: u64, d: u64)
    requires
        w.spec_wf(),
    ensures
        ({
            let (s1, e1) = spec_clamp_range(a, b, w.length);
            let (s2, e2) = spec_clamp_range(c, d, (e1 - s1) as u64);
            w.spec_subregion(a, b).spec_subregion(c, d) == w.spec_subregion(
                (s1 + s2) as u64,
                (s1 + e2) as u64,
            )
        }),
{
}

} // verus!
