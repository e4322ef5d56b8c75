//! The computational half of the VFIO backend: interpreting the fixed
//! binary layouts of the kernel control-plane protocol, validating request
//! parameters, and sequencing container setup.
//!
//! The kernel protocol is a fixed numeric command set; each command passes
//! a fixed-layout little-endian struct whose first field declares the
//! struct's size, enabling forward-compatible variable-length replies.
//! Everything here works on plain values and byte buffers; the raw
//! ioctl/mmap transport that carries them lives outside the library and
//! hands the replies in.

use vstd::prelude::*;

use crate::errors::PciError;
use crate::iommu::{
    process_iova_ranges, spec_adjust_zero, spec_is_power_of_two, spec_ranges_disjoint,
    spec_sorted_by_start, IovaRange,
};
use crate::regions::{spec_le_u16, spec_le_u32, spec_le_u64, Permissions};

verus! {

/// The VFIO API version this library speaks.
pub const VFIO_API_VERSION: i32 = 0;

/// The Type1 v2 IOMMU model.
pub const VFIO_TYPE1V2_IOMMU: u32 = 3;

/// The no-IOMMU model, for devices without IOMMU isolation.
pub const VFIO_NOIOMMU_IOMMU: u32 = 8;

/// Group status flag: all devices of the group are bound to the driver
/// framework or unbound, so the group can be used.
pub const VFIO_GROUP_FLAGS_VIABLE: u32 = 1;

/// IOMMU info flag: the reply's page-size mask is valid.
pub const VFIO_IOMMU_INFO_PGSIZES: u32 = 1;

/// Capability ID of the valid-IOVA-range list in an IOMMU info reply.
pub const VFIO_IOMMU_TYPE1_INFO_CAP_IOVA_RANGE: u16 = 1;

/// Capability ID of the available-DMA-mapping count in an IOMMU info
/// reply.
pub const VFIO_IOMMU_TYPE1_INFO_DMA_AVAIL: u16 = 3;

/// DMA map flag: the device may read from the mapping.
pub const VFIO_DMA_MAP_FLAG_READ: u32 = 1;

/// DMA map flag: the device may write to the mapping.
pub const VFIO_DMA_MAP_FLAG_WRITE: u32 = 2;

/// Region info flag: the region supports reads.
pub const VFIO_REGION_INFO_FLAG_READ: u32 = 1;

/// Region info flag: the region supports writes.
pub const VFIO_REGION_INFO_FLAG_WRITE: u32 = 2;

/// Region info flag: the region supports memory mapping.
pub const VFIO_REGION_INFO_FLAG_MMAP: u32 = 4;

/// Device info flag: the device is a PCI device.
pub const VFIO_DEVICE_FLAGS_PCI: u32 = 2;

/// IRQ info flag: the interrupt index supports eventfd signalling.
pub const VFIO_IRQ_INFO_EVENTFD: u32 = 1;

/// The size of the fixed part of the IOMMU info reply: the declared size,
/// the flags, the page-size mask, and the first capability offset.
pub const VFIO_IOMMU_INFO_HEADER_SIZE: usize = 24;

/// Turns an ioctl return value into a result: a negative value means the
/// kernel reported a failure.
pub fn ioctl_return_to_result(ret: i32) -> (r: Result<i32, PciError>)
    ensures
        ret >= 0 ==> r == Ok::<i32, PciError>(ret),
        ret < 0 ==> r == Err::<i32, PciError>(PciError::DeviceIo),
{
    if ret >= 0 {
        Ok(ret)
    } else {
        Err(PciError::DeviceIo)
    }
}

/// A PCI device's interrupt mechanisms: INTx, MSI, and MSI-X.
#[derive(Clone, Copy, Debug, PartialEq, Eq, Structural)]
pub enum PciInterruptKind {
    /// Legacy pin-based interrupts.
    Intx,
    /// Message Signaled Interrupts.
    Msi,
    /// Extended Message Signaled Interrupts.
    MsiX,
}

/// The VFIO interrupt index of each interrupt mechanism.
pub fn interrupt_index_from_kind(kind: PciInterruptKind) -> (r: u32)
    ensures
        r == (match kind {
            PciInterruptKind::Intx => 0u32,
            PciInterruptKind::Msi => 1u32,
            PciInterruptKind::MsiX => 2u32,
        }),
{
    match kind {
        PciInterruptKind::Intx => 0,
        PciInterruptKind::Msi => 1,
        PciInterruptKind::MsiX => 2,
    }
}

/// Checks that no more interrupt vectors are enabled than the mechanism
/// supports.
pub fn validate_interrupts_enable(num_eventfds: usize, max_vectors: usize) -> (r: Result<
    (),
    PciError,
>)
    ensures
        num_eventfds <= max_vectors ==> r == Ok::<(), PciError>(()),
        num_eventfds > max_vectors ==> r == Err::<(), PciError>(PciError::InvalidInput),
{
    if num_eventfds > max_vectors {
        return Err(PciError::InvalidInput);
    }
    Ok(())
}

/// Checks a device info reply: the device must be a PCI device, with at
/// least the configuration space among its regions and all three
/// interrupt indexes.
pub fn validate_device_info(flags: u32, num_regions: u32, num_irqs: u32) -> (r: Result<
    (),
    PciError,
>)
    ensures
        (flags & VFIO_DEVICE_FLAGS_PCI != 0 && num_regions >= 8 && num_irqs >= 3) ==> r == Ok::<
            (),
            PciError,
        >(()),
        !(flags & VFIO_DEVICE_FLAGS_PCI != 0 && num_regions >= 8 && num_irqs >= 3) ==> r == Err::<
            (),
            PciError,
        >(PciError::DeviceIo),
{
    if flags & VFIO_DEVICE_FLAGS_PCI == 0 || num_regions < 8 || num_irqs < 3 {
        return Err(PciError::DeviceIo);
    }
    Ok(())
}

/// Whether a device region with the given info can be memory-mapped: the
/// kernel must advertise mapping support and the region must fit the
/// address space.
pub fn region_is_mappable(flags: u32, size: u64) -> (r: bool)
    ensures
        r == (flags & VFIO_REGION_INFO_FLAG_MMAP != 0 && size <= usize::MAX as u64),
{
    flags & VFIO_REGION_INFO_FLAG_MMAP != 0 && size <= usize::MAX as u64
}

/// What a device region info reply says about a BAR or ROM region.
#[derive(Clone, Copy, Debug, PartialEq, Eq, Structural)]
pub struct RegionParams {
    /// The operations the region supports.
    pub permissions: Permissions,
    /// Whether the region can be memory-mapped.
    pub is_mappable: bool,
}

/// Interprets a device region info reply for a BAR or ROM region: a
/// zero-sized reply means the region does not exist, and a region that is
/// neither readable nor writable is untrustworthy kernel state.
pub fn interpret_region_info(flags: u32, size: u64) -> (r: Result<Option<RegionParams>, PciError>)
    ensures
        size == 0 ==> r == Ok::<Option<RegionParams>, PciError>(None),
        size != 0 && flags & VFIO_REGION_INFO_FLAG_READ == 0 && flags & VFIO_REGION_INFO_FLAG_WRITE
            == 0 ==> r == Err::<Option<RegionParams>, PciError>(PciError::DeviceIo),
        size != 0 && !(flags & VFIO_REGION_INFO_FLAG_READ == 0 && flags
            & VFIO_REGION_INFO_FLAG_WRITE == 0) ==> (r matches Ok(Some(p))
            && p.permissions.spec_can_read() == (flags & VFIO_REGION_INFO_FLAG_READ != 0)
            && p.permissions.spec_can_write() == (flags & VFIO_REGION_INFO_FLAG_WRITE != 0)
            && p.is_mappable == (flags & VFIO_REGION_INFO_FLAG_MMAP != 0 && size <= usize::MAX
            as u64)),
{
    if size == 0 {
        return Ok(None);
    }
    let readable = flags & VFIO_REGION_INFO_FLAG_READ != 0;
    let writable = flags & VFIO_REGION_INFO_FLAG_WRITE != 0;
    let permissions = match Permissions::new(readable, writable) {
        Some(p) => p,
        None => {
            return Err(PciError::DeviceIo);
        },
    };
    Ok(Some(RegionParams { permissions, is_mappable: region_is_mappable(flags, size) }))
}

/// Interprets a device region info reply for the configuration space
/// region, which must exist and be both readable and writable.
pub fn interpret_config_region_info(flags: u32, size: u64) -> (r: Result<(), PciError>)
    ensures
        size == 0 ==> r == Err::<(), PciError>(PciError::DeviceIo),
        size != 0 && (flags & VFIO_REGION_INFO_FLAG_READ == 0 || flags
            & VFIO_REGION_INFO_FLAG_WRITE == 0) ==> r == Err::<(), PciError>(PciError::DeviceIo),
        size != 0 && flags & VFIO_REGION_INFO_FLAG_READ != 0 && flags & VFIO_REGION_INFO_FLAG_WRITE
            != 0 ==> r == Ok::<(), PciError>(()),
{
    if size == 0 {
        return Err(PciError::DeviceIo);
    }
    if flags & VFIO_REGION_INFO_FLAG_READ == 0 || flags & VFIO_REGION_INFO_FLAG_WRITE == 0 {
        return Err(PciError::DeviceIo);
    }
    Ok(())
}

/// The DMA map flags encoding the device-side permissions of a mapping.
pub fn encode_dma_map_flags(device_permissions: Permissions) -> (r: u32)
    ensures
        r == (match device_permissions {
            Permissions::Read => VFIO_DMA_MAP_FLAG_READ,
            Permissions::Write => VFIO_DMA_MAP_FLAG_WRITE,
            Permissions::ReadWrite => VFIO_DMA_MAP_FLAG_READ | VFIO_DMA_MAP_FLAG_WRITE,
        }),
{
    match device_permissions {
        Permissions::Read => VFIO_DMA_MAP_FLAG_READ,
        Permissions::Write => VFIO_DMA_MAP_FLAG_WRITE,
        Permissions::ReadWrite => VFIO_DMA_MAP_FLAG_READ | VFIO_DMA_MAP_FLAG_WRITE,
    }
}

/// The memory-map request an owning region hands to the transport: the
/// offset of the mapping in the device file's region and its length.
#[derive(Clone, Copy, Debug, PartialEq, Eq, Structural)]
pub struct MapPlan {
    /// The offset of the mapping from the start of the backing region.
    pub offset: u64,
    /// The length of the mapping in bytes.
    pub length: usize,
}

/// Validates a request to memory-map part of an owning region and
/// computes the mapping's offset and length.
///
/// The requested range is clamped to the backing region; the request
/// fails if the region is not mappable, if the clamped range does not fit
/// the address space, or if the requested permissions exceed the region's
/// own.
pub fn validate_map_request(
    region_len: u64,
    base_offset: u64,
    start: u64,
    end: u64,
    region_permissions: Permissions,
    requested_permissions: Permissions,
    is_mappable: bool,
) -> (r: Result<MapPlan, PciError>)
    requires
        base_offset + region_len <= u64::MAX,
    ensures
        ({
            let (s, e) = crate::regions::spec_clamp_range(start, end, region_len);
            if !is_mappable {
                r == Err::<MapPlan, PciError>(PciError::InvalidInput)
            } else if e - s > usize::MAX {
                r == Err::<MapPlan, PciError>(PciError::InvalidInput)
            } else if (requested_permissions.spec_can_read()
                && !region_permissions.spec_can_read()) || (requested_permissions.spec_can_write()
                && !region_permissions.spec_can_write()) {
                r == Err::<MapPlan, PciError>(PciError::InvalidInput)
            } else {
                r == Ok::<MapPlan, PciError>(
                    MapPlan { offset: (base_offset + s) as u64, length: (e - s) as usize },
                )
            }
        }),
{
    let (s, e) = crate::regions::clamp_range(start, end, region_len);
    if !is_mappable {
        return Err(PciError::InvalidInput);
    }
    if e - s > usize::MAX as u64 {
        return Err(PciError::InvalidInput);
    }
    if (requested_permissions.can_read() && !region_permissions.can_read()) || (
    requested_permissions.can_write() && !region_permissions.can_write()) {
        return Err(PciError::InvalidInput);
    }
    Ok(MapPlan { offset: base_offset + s, length: (e - s) as usize })
}

/// Reads the little-endian 16-bit value at `off` of a reply buffer.
fn buf_le_u16(buf: &Vec<u8>, off: usize) -> (r: u16)
    requires
        off + 2 <= buf@.len(),
    ensures
        r == spec_le_u16(buf@, off as int),
{
    let n = buf.len();
    proof {
        assert(off + 2 <= n);
    }
    buf[off] as u16 + buf[off + 1] as u16 * 0x100
}

/// Reads the little-endian 32-bit value at `off` of a reply buffer.
fn buf_le_u32(buf: &Vec<u8>, off: usize) -> (r: u32)
    requires
        off + 4 <= buf@.len(),
    ensures
        r == spec_le_u32(buf@, off as int),
{
    let n = buf.len();
    proof {
        assert(off + 4 <= n);
    }
    buf[off] as u32 + buf[off + 1] as u32 * 0x100 + buf[off + 2] as u32 * 0x10000 + buf[off
        + 3] as u32 * 0x1000000
}

/// Reads the little-endian 64-bit value at `off` of a reply buffer.
fn buf_le_u64(buf: &Vec<u8>, off: usize) -> (r: u64)
    requires
        off + 8 <= buf@.len(),
    ensures
        r == spec_le_u64(buf@, off as int),
{
    let n = buf.len();
    proof {
        assert(off + 8 <= n);
    }
    let lo = buf_le_u32(buf, off);
    let hi = buf_le_u32(buf, off + 4);
    lo as u64 + hi as u64 * 0x1_0000_0000
}

/// The fixed part of an IOMMU info reply.
#[derive(Clone, Copy, Debug, PartialEq, Eq, Structural)]
pub struct IommuInfoHeader {
    /// The total reply size the kernel declares; a value larger than the
    /// buffer asks the caller to re-issue the query with a bigger buffer.
    pub argsz: u32,
    /// The reply flags.
    pub flags: u32,
    /// The supported page sizes, as a bit mask.
    pub iova_pgsizes: u64,
    /// The offset of the first capability entry in the reply.
    pub cap_offset: u32,
}

/// Parses the fixed part of an IOMMU info reply.
pub fn parse_iommu_info_header(buf: &Vec<u8>) -> (r: Result<IommuInfoHeader, PciError>)
    ensures
        buf@.len() < VFIO_IOMMU_INFO_HEADER_SIZE ==> r == Err::<IommuInfoHeader, PciError>(
            PciError::DeviceIo,
        ),
        buf@.len() >= VFIO_IOMMU_INFO_HEADER_SIZE ==> r == Ok::<IommuInfoHeader, PciError>(
            IommuInfoHeader {
                argsz: spec_le_u32(buf@, 0),
                flags: spec_le_u32(buf@, 4),
                iova_pgsizes: spec_le_u64(buf@, 8),
                cap_offset: spec_le_u32(buf@, 16),
            },
        ),
{
    if buf.len() < VFIO_IOMMU_INFO_HEADER_SIZE {
        return Err(PciError::DeviceIo);
    }
    Ok(
        IommuInfoHeader {
            argsz: buf_le_u32(buf, 0),
            flags: buf_le_u32(buf, 4),
            iova_pgsizes: buf_le_u64(buf, 8),
            cap_offset: buf_le_u32(buf, 16),
        },
    )
}

/// The lowest set bit of `x`, or 0 if `x` is 0.
pub open spec fn spec_lowest_set_bit(x: u64) -> u64 {
    x & ((!x + 1) as u64)
}

/// The IOMMU mapping alignment: one unit of the smallest supported page
/// size.
///
/// The kernel must have said the page-size mask is valid, and the mask
/// must have a bit set at all; otherwise the reply is untrustworthy.
pub fn iommu_alignment(flags: u32, iova_pgsizes: u64) -> (r: Result<u64, PciError>)
    ensures
        flags & VFIO_IOMMU_INFO_PGSIZES == 0 ==> r == Err::<u64, PciError>(PciError::DeviceIo),
        flags & VFIO_IOMMU_INFO_PGSIZES != 0 && iova_pgsizes == 0 ==> r == Err::<u64, PciError>(
            PciError::DeviceIo,
        ),
        flags & VFIO_IOMMU_INFO_PGSIZES != 0 && iova_pgsizes != 0 ==> {
            &&& r == Ok::<u64, PciError>(spec_lowest_set_bit(iova_pgsizes))
            &&& spec_is_power_of_two(spec_lowest_set_bit(iova_pgsizes))
        },
{
    if flags & VFIO_IOMMU_INFO_PGSIZES == 0 {
        return Err(PciError::DeviceIo);
    }
    if iova_pgsizes == 0 {
        return Err(PciError::DeviceIo);
    }
    proof {
        let p = iova_pgsizes;
        assert(p != 0 ==> !p < 0xffff_ffff_ffff_ffffu64) by (bit_vector);
    }
    let v = iova_pgsizes & (!iova_pgsizes + 1);
    proof {
        let p = iova_pgsizes;
        let w = p & ((!p + 1) as u64);
        assert(p != 0 ==> (w != 0 && (w & ((w - 1) as u64)) == 0)) by (bit_vector)
            requires
                w == p & ((!p + 1) as u64),
        ;
    }
    Ok(v)
}

/// The offsets the capability walk of an IOMMU info reply visits find the
/// capability with ID `id` at, starting from `cur`: each capability entry
/// is an 8-byte header whose last four bytes link to the next entry, `0`
/// ending the list.  `None` if the capability is not in the list, a header
/// would reach past the reply, or the walk does not end within `fuel`
/// entries.
pub open spec fn spec_find_info_cap(bytes: Seq<u8>, cur: u32, id: u16, fuel: nat) -> Option<u32>
    decreases fuel,
{
    if cur == 0 {
        None
    } else if cur + 8 > bytes.len() {
        None
    } else if fuel == 0 {
        None
    } else if spec_le_u16(bytes, cur as int) == id {
        Some(cur)
    } else {
        spec_find_info_cap(bytes, spec_le_u32(bytes, cur + 4), id, (fuel - 1) as nat)
    }
}

/// Walks the header/next-offset capability list of an IOMMU info reply
/// and returns the offset of the capability with the given ID.
///
/// A reply that does not contain the capability, links past its own end,
/// or does not end within one entry per reply byte is untrustworthy,
/// failing with [`PciError::DeviceIo`].
pub fn find_info_cap(buf: &Vec<u8>, cap_offset: u32, id: u16) -> (r: Result<usize, PciError>)
    ensures
        (match spec_find_info_cap(buf@, cap_offset, id, buf@.len() as nat) {
            Some(o) => r == Ok::<usize, PciError>(o as usize),
            None => r == Err::<usize, PciError>(PciError::DeviceIo),
        }),
{
    let ghost fuel0 = buf@.len() as nat;
    let mut offset: u32 = cap_offset;
    let mut count: usize = 0;
    while offset != 0
        invariant
            count <= buf@.len(),
            spec_find_info_cap(buf@, cap_offset, id, fuel0) == spec_find_info_cap(
                buf@,
                offset,
                id,
                (fuel0 - count) as nat,
            ),
            fuel0 == buf@.len() as nat,
        decreases fuel0 - count,
    {
        if offset as u64 + 8 > buf.len() as u64 {
            return Err(PciError::DeviceIo);
        }
        if count == buf.len() {
            return Err(PciError::DeviceIo);
        }
        let entry_id = buf_le_u16(buf, offset as usize);
        if entry_id == id {
            return Ok(offset as usize);
        }
        offset = buf_le_u32(buf, offset as usize + 4);
        count = count + 1;
    }
    Err(PciError::DeviceIo)
}

/// The valid IOVA ranges listed by the IOVA-range capability at `cap_off`
/// of an IOMMU info reply: a count, four reserved bytes, then one
/// start/end pair of 64-bit addresses per range.
pub open spec fn spec_iova_ranges(bytes: Seq<u8>, cap_off: int) -> Seq<IovaRange> {
    Seq::new(
        spec_le_u32(bytes, cap_off + 8) as nat,
        |i: int|
            IovaRange {
                start: spec_le_u64(bytes, cap_off + 16 + 16 * i),
                end: spec_le_u64(bytes, cap_off + 16 + 16 * i + 8),
            },
    )
}

/// Parses the valid IOVA ranges of the IOVA-range capability at `cap_off`
/// of an IOMMU info reply.
pub fn parse_iova_ranges(buf: &Vec<u8>, cap_off: usize) -> (r: Result<Vec<IovaRange>, PciError>)
    ensures
        ({
            let nr = spec_le_u32(buf@, cap_off + 8) as int;
            if cap_off + 16 <= buf@.len() && cap_off + 16 + 16 * nr <= buf@.len() {
                r matches Ok(v) && v@ == spec_iova_ranges(buf@, cap_off as int)
            } else {
                r == Err::<Vec<IovaRange>, PciError>(PciError::DeviceIo)
            }
        }),
{
    if cap_off > buf.len() || buf.len() - cap_off < 16 {
        return Err(PciError::DeviceIo);
    }
    let nr = buf_le_u32(buf, cap_off + 8);
    let rem = buf.len() - (cap_off + 16);
    if nr as u64 * 16 > rem as u64 {
        return Err(PciError::DeviceIo);
    }
    let mut out: Vec<IovaRange> = Vec::new();
    let base = cap_off + 16;
    let n = buf.len();
    for i in 0..nr
        invariant
            base == cap_off + 16,
            n == buf@.len(),
            nr == spec_le_u32(buf@, cap_off + 8),
            base + 16 * (nr as int) <= n,
            out@.len() == i,
            forall|j: int| 0 <= j < i ==> out@[j] == spec_iova_ranges(buf@, cap_off as int)[j],
    {
        let start = buf_le_u64(buf, base + 16 * (i as usize));
        let end = buf_le_u64(buf, base + 16 * (i as usize) + 8);
        out.push(IovaRange { start, end });
        proof {
            assert(spec_iova_ranges(buf@, cap_off as int).len() == spec_le_u32(
                buf@,
                cap_off + 8,
            ) as nat);
            assert(spec_iova_ranges(buf@, cap_off as int)[i as int] == (IovaRange {
                start: spec_le_u64(buf@, cap_off + 16 + 16 * (i as int)),
                end: spec_le_u64(buf@, cap_off + 16 + 16 * (i as int) + 8),
            }));
            assert(base + 16 * (i as usize) == cap_off + 16 + 16 * (i as int));
        }
    }
    proof {
        assert(out@ =~= spec_iova_ranges(buf@, cap_off as int));
    }
    Ok(out)
}

/// Parses the available-mapping count of the DMA-availability capability
/// at `cap_off` of an IOMMU info reply.
pub fn parse_dma_avail(buf: &Vec<u8>, cap_off: usize) -> (r: Result<u32, PciError>)
    ensures
        cap_off + 12 <= buf@.len() ==> r == Ok::<u32, PciError>(spec_le_u32(buf@, cap_off + 8)),
        cap_off + 12 > buf@.len() ==> r == Err::<u32, PciError>(PciError::DeviceIo),
{
    if cap_off > buf.len() || buf.len() - cap_off < 12 {
        return Err(PciError::DeviceIo);
    }
    Ok(buf_le_u32(buf, cap_off + 8))
}

/// The IOMMU geometry extracted from an IOMMU info reply.
#[derive(Debug)]
pub struct IommuInfo {
    /// The mapping alignment: one unit of the smallest supported page
    /// size.
    pub iova_alignment: usize,
    /// The maximum number of simultaneous mappings the kernel allows.
    pub max_num_mappings: u32,
    /// The valid IOVA ranges, sorted, disjoint, and with IOVA 0 reserved.
    pub valid_iova_ranges: Vec<IovaRange>,
}

/// Interprets a full IOMMU info reply: the alignment from the page-size
/// mask, the valid IOVA ranges (sorted, checked, and with IOVA 0
/// reserved), and the mapping quota.
///
/// The reply must declare more than the fixed-size part (i.e. it carries
/// capabilities), carry a valid page-size mask, and contain both the
/// IOVA-range and the DMA-availability capability; anything else is
/// untrustworthy kernel state, failing with [`PciError::DeviceIo`].
pub fn interpret_iommu_info(buf: &Vec<u8>) -> (r: Result<IommuInfo, PciError>)
    ensures
        ({
            let b = buf@;
            let argsz = spec_le_u32(b, 0);
            let flags = spec_le_u32(b, 4);
            let pgsizes = spec_le_u64(b, 8);
            let cap_offset = spec_le_u32(b, 16);
            let fuel = b.len() as nat;
            &&& b.len() < VFIO_IOMMU_INFO_HEADER_SIZE ==> r == Err::<IommuInfo, PciError>(
                PciError::DeviceIo,
            )
            &&& (b.len() >= VFIO_IOMMU_INFO_HEADER_SIZE && flags & VFIO_IOMMU_INFO_PGSIZES == 0)
                ==> r == Err::<IommuInfo, PciError>(PciError::DeviceIo)
            &&& (b.len() >= VFIO_IOMMU_INFO_HEADER_SIZE && flags & VFIO_IOMMU_INFO_PGSIZES != 0
                && pgsizes == 0) ==> r == Err::<IommuInfo, PciError>(PciError::DeviceIo)
            &&& (b.len() >= VFIO_IOMMU_INFO_HEADER_SIZE && flags & VFIO_IOMMU_INFO_PGSIZES != 0
                && pgsizes != 0 && argsz <= VFIO_IOMMU_INFO_HEADER_SIZE as u32) ==> r == Err::<
                IommuInfo,
                PciError,
            >(PciError::DeviceIo)
            &&& (b.len() >= VFIO_IOMMU_INFO_HEADER_SIZE && flags & VFIO_IOMMU_INFO_PGSIZES != 0
                && pgsizes != 0 && argsz > VFIO_IOMMU_INFO_HEADER_SIZE as u32
                && spec_find_info_cap(b, cap_offset, VFIO_IOMMU_TYPE1_INFO_CAP_IOVA_RANGE, fuel)
                is None) ==> r == Err::<IommuInfo, PciError>(PciError::DeviceIo)
            &&& (r matches Ok(info) ==> {
                &&& b.len() >= VFIO_IOMMU_INFO_HEADER_SIZE
                &&& flags & VFIO_IOMMU_INFO_PGSIZES != 0
                &&& pgsizes != 0
                &&& argsz > VFIO_IOMMU_INFO_HEADER_SIZE as u32
                &&& info.iova_alignment as u64 == spec_lowest_set_bit(pgsizes)
                &&& spec_is_power_of_two(info.iova_alignment as u64)
                &&& spec_sorted_by_start(info.valid_iova_ranges@)
                &&& spec_ranges_disjoint(info.valid_iova_ranges@)
                &&& (match spec_find_info_cap(
                    b,
                    cap_offset,
                    VFIO_IOMMU_TYPE1_INFO_CAP_IOVA_RANGE,
                    fuel,
                ) {
                    Some(o) => exists|ss: Seq<IovaRange>|
                        spec_sorted_by_start(ss) && spec_ranges_disjoint(ss) && ss.to_multiset()
                            == spec_iova_ranges(b, o as int).to_multiset()
                            && info.valid_iova_ranges@ == (#[trigger] spec_adjust_zero(
                            ss,
                            spec_lowest_set_bit(pgsizes),
                        )),
                    None => false,
                })
                &&& (match spec_find_info_cap(
                    b,
                    cap_offset,
                    VFIO_IOMMU_TYPE1_INFO_DMA_AVAIL,
                    fuel,
                ) {
                    Some(o2) => o2 + 12 <= b.len() && info.max_num_mappings == spec_le_u32(
                        b,
                        o2 + 8,
                    ),
                    None => false,
                })
            })
            &&& ({
                &&& b.len() >= VFIO_IOMMU_INFO_HEADER_SIZE
                &&& flags & VFIO_IOMMU_INFO_PGSIZES != 0
                &&& pgsizes != 0
                &&& argsz > VFIO_IOMMU_INFO_HEADER_SIZE as u32
                &&& spec_lowest_set_bit(pgsizes) <= usize::MAX as u64
                &&& (match spec_find_info_cap(
                    b,
                    cap_offset,
                    VFIO_IOMMU_TYPE1_INFO_CAP_IOVA_RANGE,
                    fuel,
                ) {
                    Some(o) => o + 16 <= b.len() && o + 16 + 16 * spec_le_u32(b, o + 8) <= b.len()
                        && (forall|ss: Seq<IovaRange>|
                        (#[trigger] spec_sorted_by_start(ss)) && ss.to_multiset()
                            == spec_iova_ranges(b, o as int).to_multiset()
                            ==> spec_ranges_disjoint(ss)),
                    None => false,
                })
                &&& (match spec_find_info_cap(
                    b,
                    cap_offset,
                    VFIO_IOMMU_TYPE1_INFO_DMA_AVAIL,
                    fuel,
                ) {
                    Some(o2) => o2 + 12 <= b.len(),
                    None => false,
                })
            }) ==> r is Ok
        }),
{
    let header = parse_iommu_info_header(buf)?;
    let alignment = iommu_alignment(header.flags, header.iova_pgsizes)?;

    if header.argsz <= VFIO_IOMMU_INFO_HEADER_SIZE as u32 {
        // The kernel reported no capabilities at all.
        return Err(PciError::DeviceIo);
    }

    let iova_cap_off = find_info_cap(buf, header.cap_offset, VFIO_IOMMU_TYPE1_INFO_CAP_IOVA_RANGE)?;
    let raw_ranges = parse_iova_ranges(buf, iova_cap_off)?;
    let valid_iova_ranges = process_iova_ranges(raw_ranges, alignment)?;

    let dma_cap_off = find_info_cap(buf, header.cap_offset, VFIO_IOMMU_TYPE1_INFO_DMA_AVAIL)?;
    let max_num_mappings = parse_dma_avail(buf, dma_cap_off)?;

    if alignment > usize::MAX as u64 {
        return Err(PciError::DeviceIo);
    }

    Ok(
        IommuInfo {
            iova_alignment: alignment as usize,
            max_num_mappings,
            valid_iova_ranges,
        },
    )
}

// CONTAINER SETUP
//
// Creating a container interleaves kernel requests and decisions: open and
// check every requested group, open the container, check the API version
// and the IOMMU model extension, attach every group, activate the IOMMU
// model, and finally query the IOMMU geometry.  The decisions form the
// state machine below; the transport performs the action each phase asks
// for and feeds the outcome back in as an event.

/// Where container setup currently stands.
#[derive(Clone, Copy, Debug, PartialEq, Eq, Structural)]
pub enum ContainerSetupPhase {
    /// Opening group `next_group` and checking that the kernel reports it
    /// viable.
    OpeningGroups {
        /// The group to open next.
        next_group: usize,
    },
    /// Checking the container's API version.
    CheckingApi,
    /// Checking that the desired IOMMU model extension is supported.
    CheckingExtension,
    /// Attaching group `next_group` to the container.
    AttachingGroups {
        /// The group to attach next.
        next_group: usize,
    },
    /// Activating the IOMMU model.
    ActivatingIommu,
    /// Querying the IOMMU geometry.
    QueryingGeometry,
    /// The container is set up.
    Ready,
    /// Setup failed; nothing further may run.
    Failed(PciError),
}

/// What the transport reported back for the last action.
#[derive(Clone, Copy, Debug, PartialEq, Eq, Structural)]
pub enum ContainerSetupEvent {
    /// The group opened; these are its status flags.
    GroupStatus {
        /// The kernel-reported group status flags.
        flags: u32,
    },
    /// The group could not be opened or queried.
    GroupOpenFailed,
    /// The container reported this API version.
    ApiVersion {
        /// The kernel-reported API version.
        version: i32,
    },
    /// The extension-supported check returned this value.
    ExtensionSupported {
        /// The kernel's answer; `1` means supported.
        result: i32,
    },
    /// The group was attached to the container.
    GroupAttached,
    /// The group could not be attached.
    GroupAttachFailed,
    /// The IOMMU model was activated.
    IommuActivated,
    /// The IOMMU model could not be activated.
    IommuActivationFailed,
    /// The IOMMU geometry was read successfully.
    GeometryReady,
    /// The IOMMU geometry could not be read.
    GeometryFailed,
}

/// The action the transport must perform next in the given phase, or
/// `None` once setup has ended.
#[derive(Clone, Copy, Debug, PartialEq, Eq, Structural)]
pub enum ContainerSetupAction {
    /// Open the group and query its status.
    QueryGroupStatus {
        /// The group to open and query.
        group: usize,
    },
    /// Query the container's API version.
    QueryApiVersion,
    /// Query whether the desired IOMMU model extension is supported.
    QueryExtension,
    /// Attach the group to the container.
    AttachGroup {
        /// The group to attach.
        group: usize,
    },
    /// Activate the IOMMU model.
    ActivateIommu,
    /// Query the IOMMU geometry.
    QueryGeometry,
}

/// The phase container setup starts in: opening groups, or checking the
/// API version right away when there is no group to open.
pub open spec fn spec_container_setup_start(num_groups: usize) -> ContainerSetupPhase {
    if num_groups == 0 {
        ContainerSetupPhase::CheckingApi
    } else {
        ContainerSetupPhase::OpeningGroups { next_group: 0 }
    }
}

/// Returns the phase container setup starts in.
pub fn container_setup_start(num_groups: usize) -> (r: ContainerSetupPhase)
    ensures
        r == spec_container_setup_start(num_groups),
{
    if num_groups == 0 {
        ContainerSetupPhase::CheckingApi
    } else {
        ContainerSetupPhase::OpeningGroups { next_group: 0 }
    }
}

/// The next phase of container setup after the given event arrives in the
/// given phase.
///
/// Group status flags without the viable bit and every transport failure
/// end setup in a failed phase; a wrong API version or an unsupported
/// IOMMU model extension fails with [`PciError::Unsupported`]; an event
/// that does not answer the phase's action is a protocol misuse and fails
/// with [`PciError::InvalidInput`].  The final and the failed phase
/// absorb every further event.
pub open spec fn spec_container_setup_step(
    phase: ContainerSetupPhase,
    num_groups: usize,
    noiommu: bool,
    event: ContainerSetupEvent,
) -> ContainerSetupPhase {
    match phase {
        ContainerSetupPhase::OpeningGroups { next_group } => match event {
            ContainerSetupEvent::GroupStatus { flags } => {
                if flags & VFIO_GROUP_FLAGS_VIABLE == 0 {
                    ContainerSetupPhase::Failed(PciError::DeviceIo)
                } else if next_group + 1 < num_groups {
                    ContainerSetupPhase::OpeningGroups { next_group: (next_group + 1) as usize }
                } else {
                    ContainerSetupPhase::CheckingApi
                }
            },
            ContainerSetupEvent::GroupOpenFailed => ContainerSetupPhase::Failed(
                PciError::DeviceIo,
            ),
            _ => ContainerSetupPhase::Failed(PciError::InvalidInput),
        },
        ContainerSetupPhase::CheckingApi => match event {
            ContainerSetupEvent::ApiVersion { version } => {
                if version != VFIO_API_VERSION {
                    ContainerSetupPhase::Failed(PciError::Unsupported)
                } else {
                    ContainerSetupPhase::CheckingExtension
                }
            },
            _ => ContainerSetupPhase::Failed(PciError::InvalidInput),
        },
        ContainerSetupPhase::CheckingExtension => match event {
            ContainerSetupEvent::ExtensionSupported { result } => {
                if result != 1 {
                    ContainerSetupPhase::Failed(PciError::Unsupported)
                } else if num_groups > 0 {
                    ContainerSetupPhase::AttachingGroups { next_group: 0 }
                } else {
                    ContainerSetupPhase::ActivatingIommu
                }
            },
            _ => ContainerSetupPhase::Failed(PciError::InvalidInput),
        },
        ContainerSetupPhase::AttachingGroups { next_group } => match event {
            ContainerSetupEvent::GroupAttached => {
                if next_group + 1 < num_groups {
                    ContainerSetupPhase::AttachingGroups { next_group: (next_group + 1) as usize }
                } else {
                    ContainerSetupPhase::ActivatingIommu
                }
            },
            ContainerSetupEvent::GroupAttachFailed => ContainerSetupPhase::Failed(
                PciError::DeviceIo,
            ),
            _ => ContainerSetupPhase::Failed(PciError::InvalidInput),
        },
        ContainerSetupPhase::ActivatingIommu => match event {
            ContainerSetupEvent::IommuActivated => {
                if noiommu {
                    ContainerSetupPhase::Ready
                } else {
                    ContainerSetupPhase::QueryingGeometry
                }
            },
            ContainerSetupEvent::IommuActivationFailed => ContainerSetupPhase::Failed(
                PciError::DeviceIo,
            ),
            _ => ContainerSetupPhase::Failed(PciError::InvalidInput),
        },
        ContainerSetupPhase::QueryingGeometry => match event {
            ContainerSetupEvent::GeometryReady => ContainerSetupPhase::Ready,
            ContainerSetupEvent::GeometryFailed => ContainerSetupPhase::Failed(PciError::DeviceIo),
            _ => ContainerSetupPhase::Failed(PciError::InvalidInput),
        },
        ContainerSetupPhase::Ready => ContainerSetupPhase::Ready,
        ContainerSetupPhase::Failed(e) => ContainerSetupPhase::Failed(e),
    }
}

/// Advances container setup by one event.
pub fn container_setup_step(
    phase: ContainerSetupPhase,
    num_groups: usize,
    noiommu: bool,
    event: ContainerSetupEvent,
) -> (r: ContainerSetupPhase)
    ensures
        r == spec_container_setup_step(phase, num_groups, noiommu, event),
{
    match phase {
        ContainerSetupPhase::OpeningGroups { next_group } => match event {
            ContainerSetupEvent::GroupStatus { flags } => {
                if flags & VFIO_GROUP_FLAGS_VIABLE == 0 {
                    // The group is not viable; are all devices in the group
                    // bound to the driver framework or unbound?
                    ContainerSetupPhase::Failed(PciError::DeviceIo)
                } else if next_group < usize::MAX && next_group + 1 < num_groups {
                    ContainerSetupPhase::OpeningGroups { next_group: next_group + 1 }
                } else {
                    ContainerSetupPhase::CheckingApi
                }
            },
            ContainerSetupEvent::GroupOpenFailed => ContainerSetupPhase::Failed(
                PciError::DeviceIo,
            ),
            _ => ContainerSetupPhase::Failed(PciError::InvalidInput),
        },
        ContainerSetupPhase::CheckingApi => match event {
            ContainerSetupEvent::ApiVersion { version } => {
                if version != VFIO_API_VERSION {
                    ContainerSetupPhase::Failed(PciError::Unsupported)
                } else {
                    ContainerSetupPhase::CheckingExtension
                }
            },
            _ => ContainerSetupPhase::Failed(PciError::InvalidInput),
        },
        ContainerSetupPhase::CheckingExtension => match event {
            ContainerSetupEvent::ExtensionSupported { result } => {
                if result != 1 {
                    ContainerSetupPhase::Failed(PciError::Unsupported)
                } else if num_groups > 0 {
                    ContainerSetupPhase::AttachingGroups { next_group: 0 }
                } else {
                    ContainerSetupPhase::ActivatingIommu
                }
            },
            _ => ContainerSetupPhase::Failed(PciError::InvalidInput),
        },
        ContainerSetupPhase::AttachingGroups { next_group } => match event {
            ContainerSetupEvent::GroupAttached => {
                if next_group < usize::MAX && next_group + 1 < num_groups {
                    ContainerSetupPhase::AttachingGroups { next_group: next_group + 1 }
                } else {
                    ContainerSetupPhase::ActivatingIommu
                }
            },
            ContainerSetupEvent::GroupAttachFailed => ContainerSetupPhase::Failed(
                PciError::DeviceIo,
            ),
            _ => ContainerSetupPhase::Failed(PciError::InvalidInput),
        },
        ContainerSetupPhase::ActivatingIommu => match event {
            ContainerSetupEvent::IommuActivated => {
                if noiommu {
                    ContainerSetupPhase::Ready
                } else {
                    ContainerSetupPhase::QueryingGeometry
                }
            },
            ContainerSetupEvent::IommuActivationFailed => ContainerSetupPhase::Failed(
                PciError::DeviceIo,
            ),
            _ => ContainerSetupPhase::Failed(PciError::InvalidInput),
        },
        ContainerSetupPhase::QueryingGeometry => match event {
            ContainerSetupEvent::GeometryReady => ContainerSetupPhase::Ready,
            ContainerSetupEvent::GeometryFailed => ContainerSetupPhase::Failed(PciError::DeviceIo),
            _ => ContainerSetupPhase::Failed(PciError::InvalidInput),
        },
        ContainerSetupPhase::Ready => ContainerSetupPhase::Ready,
        ContainerSetupPhase::Failed(e) => ContainerSetupPhase::Failed(e),
    }
}

/// Returns the action the transport must perform next, or `None` once
/// setup has ended.
pub fn container_setup_action(phase: ContainerSetupPhase) -> (r: Option<ContainerSetupAction>)
    ensures
        r == (match phase {
            ContainerSetupPhase::OpeningGroups { next_group } => Some(
                ContainerSetupAction::QueryGroupStatus { group: next_group },
            ),
            ContainerSetupPhase::CheckingApi => Some(ContainerSetupAction::QueryApiVersion),
            ContainerSetupPhase::CheckingExtension => Some(ContainerSetupAction::QueryExtension),
            ContainerSetupPhase::AttachingGroups { next_group } => Some(
                ContainerSetupAction::AttachGroup { group: next_group },
            ),
            ContainerSetupPhase::ActivatingIommu => Some(ContainerSetupAction::ActivateIommu),
            ContainerSetupPhase::QueryingGeometry => Some(ContainerSetupAction::QueryGeometry),
            ContainerSetupPhase::Ready => None::<ContainerSetupAction>,
            ContainerSetupPhase::Failed(_) => None::<ContainerSetupAction>,
        }),
{
    match phase {
        ContainerSetupPhase::OpeningGroups { next_group } => Some(
            ContainerSetupAction::QueryGroupStatus { group: next_group },
        ),
        ContainerSetupPhase::CheckingApi => Some(ContainerSetupAction::QueryApiVersion),
        ContainerSetupPhase::CheckingExtension => Some(ContainerSetupAction::QueryExtension),
        ContainerSetupPhase::AttachingGroups { next_group } => Some(
            ContainerSetupAction::AttachGroup { group: next_group },
        ),
        ContainerSetupPhase::ActivatingIommu => Some(ContainerSetupAction::ActivateIommu),
        ContainerSetupPhase::QueryingGeometry => Some(ContainerSetupAction::QueryGeometry),
        ContainerSetupPhase::Ready => None,
        ContainerSetupPhase::Failed(_) => None,
    }
}

/// The phase container setup reaches after the given events.
pub open spec fn spec_container_setup_run(
    num_groups: usize,
    noiommu: bool,
    events: Seq<ContainerSetupEvent>,
) -> ContainerSetupPhase
    decreases events.len(),
{
    if events.len() == 0 {
        spec_container_setup_start(num_groups)
    } else {
        spec_container_setup_step(
            spec_container_setup_run(num_groups, noiommu, events.drop_last()),
            num_groups,
            noiommu,
            events.last(),
        )
    }
}

/// How far through setup a phase is; a step never moves backwards.
pub open spec fn spec_phase_rank(phase: ContainerSetupPhase) -> int {
    match phase {
        ContainerSetupPhase::OpeningGroups { .. } => 0,
        ContainerSetupPhase::CheckingApi => 1,
        ContainerSetupPhase::CheckingExtension => 2,
        ContainerSetupPhase::AttachingGroups { .. } => 3,
        ContainerSetupPhase::ActivatingIommu => 4,
        ContainerSetupPhase::QueryingGeometry => 5,
        ContainerSetupPhase::Ready => 6,
        ContainerSetupPhase::Failed(_) => 7,
    }
}

/// A setup step never moves backwards through the phases, and a failed
/// setup stays failed.
pub proof fn lemma_container_setup_step_monotone(
    phase: ContainerSetupPhase,
    num_groups: usize,
    noiommu: bool,
    event: ContainerSetupEvent,
)
    ensures
        spec_phase_rank(spec_container_setup_step(phase, num_groups, noiommu, event))
            >= spec_phase_rank(phase),
        phase is Failed ==> spec_container_setup_step(phase, num_groups, noiommu, event) == phase,
{
}

/// Opening a container whose requested group the kernel does not report
/// viable fails before any IOMMU activation step runs: once a group
/// status without the viable bit is answered while groups are being
/// opened, no prefix of the run ever reaches the IOMMU-activation phase,
/// the geometry query, or the ready phase — the run is failed from that
/// event on.
pub proof fn lemma_nonviable_group_blocks_activation(
    num_groups: usize,
    noiommu: bool,
    events: Seq<ContainerSetupEvent>,
    k: int,
)
    requires
        0 <= k < events.len(),
        spec_container_setup_run(num_groups, noiommu, events.take(k)) is OpeningGroups,
        events[k] matches ContainerSetupEvent::GroupStatus { flags } && flags
            & VFIO_GROUP_FLAGS_VIABLE == 0,
    ensures
        forall|m: int|
            k < m <= events.len() ==> spec_container_setup_run(num_groups, noiommu, events.take(m))
                == ContainerSetupPhase::Failed(PciError::DeviceIo),
        forall|m: int|
            0 <= m <= events.len() ==> {
                let p = #[trigger] spec_container_setup_run(num_groups, noiommu, events.take(m));
                !(p is ActivatingIommu) && !(p is QueryingGeometry) && !(p is Ready)
            },
{
    assert forall|m: int|
        k < m <= events.len() implies spec_container_setup_run(num_groups, noiommu, events.take(m))
        == ContainerSetupPhase::Failed(PciError::DeviceIo) by {
        lemma_container_setup_run_failed_from(num_groups, noiommu, events, k, m);
    }
    assert forall|m: int| 0 <= m <= k implies spec_phase_rank(
        spec_container_setup_run(num_groups, noiommu, events.take(m)),
    ) <= 0 by {
        lemma_container_setup_run_rank_le(num_groups, noiommu, events, m, k);
    }
}

/// Once the run is failed after `k + 1` events, it stays failed through
/// every longer prefix.
proof fn lemma_container_setup_run_failed_from(
    num_groups: usize,
    noiommu: bool,
    events: Seq<ContainerSetupEvent>,
    k: int,
    m: int,
)
    requires
        0 <= k < events.len(),
        spec_container_setup_run(num_groups, noiommu, events.take(k)) is OpeningGroups,
        events[k] matches ContainerSetupEvent::GroupStatus { flags } && flags
            & VFIO_GROUP_FLAGS_VIABLE == 0,
        k < m <= events.len(),
    ensures
        spec_container_setup_run(num_groups, noiommu, events.take(m))
            == ContainerSetupPhase::Failed(PciError::DeviceIo),
    decreases m,
{
    if m == k + 1 {
        assert(events.take(m).drop_last() =~= events.take(k));
        assert(events.take(m).last() == events[k]);
    } else {
        lemma_container_setup_run_failed_from(num_groups, noiommu, events, k, m - 1);
        assert(events.take(m).drop_last() =~= events.take(m - 1));
        assert(events.take(m).last() == events[m - 1]);
    }
}

/// Earlier prefixes of a run never rank past a later prefix.
proof fn lemma_container_setup_run_rank_le(
    num_groups: usize,
    noiommu: bool,
    events: Seq<ContainerSetupEvent>,
    m: int,
    k: int,
)
    requires
        0 <= m <= k <= events.len(),
    ensures
        spec_phase_rank(spec_container_setup_run(num_groups, noiommu, events.take(m)))
            <= spec_phase_rank(spec_container_setup_run(num_groups, noiommu, events.take(k))),
    decreases k - m,
{
    if m < k {
        lemma_container_setup_run_rank_le(num_groups, noiommu, events, m, k - 1);
        assert(events.take(k).drop_last() =~= events.take(k - 1));
        assert(events.take(k).last() == events[k - 1]);
        lemma_container_setup_step_monotone(
            spec_container_setup_run(num_groups, noiommu, events.take(k - 1)),
            num_groups,
            noiommu,
            events[k - 1],
        );
    }
}

} // verus!
