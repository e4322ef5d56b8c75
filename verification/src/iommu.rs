//! IOMMU geometry: the mapping alignment, the valid IOVA ranges, and the
//! mapping quota that the kernel reports for a device group, together with
//! the validation and normalisation of what the kernel hands back.
//!
//! The kernel reports the valid IOVA ranges in no particular order.  They
//! are sorted by start; if the first range begins at address 0, its start
//! is advanced by one alignment unit (reserving IOVA 0 avoids null-address
//! ambiguity with some protocols and hypervisors), dropping the range if
//! that exhausts it; and any overlap between ranges is rejected as
//! untrustworthy kernel state rather than silently tolerated.

use vstd::prelude::*;

use crate::errors::PciError;

verus! {

/// A half-open range `[start, end)` of device-visible (I/O) virtual
/// addresses.
#[derive(Clone, Copy, Debug, PartialEq, Eq, Structural)]
pub struct IovaRange {
    /// The first address of the range.
    pub start: u64,
    /// The first address past the range.
    pub end: u64,
}

/// Whether `x` is a power of two.
pub open spec fn spec_is_power_of_two(x: u64) -> bool {
    x != 0 && (x & ((x - 1) as u64)) == 0
}

/// Whether the ranges are ordered by ascending start address.
pub open spec fn spec_sorted_by_start(s: Seq<IovaRange>) -> bool {
    forall|i: int| 0 <= i < s.len() - 1 ==> (#[trigger] s[i]).start <= s[i + 1].start
}

/// Whether no two consecutive ranges overlap: each range ends before the
/// next one starts.
pub open spec fn spec_ranges_disjoint(s: Seq<IovaRange>) -> bool {
    forall|i: int| 0 <= i < s.len() - 1 ==> (#[trigger] s[i]).end <= s[i + 1].start
}

/// Whether no range starts at address 0, so that IOVA 0 — reserved to
/// avoid null-address ambiguity — is contained in none of them.
pub open spec fn spec_ranges_avoid_zero(s: Seq<IovaRange>) -> bool {
    forall|i: int| 0 <= i < s.len() ==> (#[trigger] s[i]).start != 0
}

/// The start-sorted ranges with IOVA 0 reserved: if the first range begins
/// at address 0, its start is advanced by one alignment unit, and the range
/// is dropped entirely if that exhausts it.
pub open spec fn spec_adjust_zero(s: Seq<IovaRange>, alignment: u64) -> Seq<IovaRange> {
    if s.len() > 0 && s[0].start == 0 {
        if alignment >= s[0].end {
            s.drop_first()
        } else {
            s.update(0, IovaRange { start: alignment, end: s[0].end })
        }
    } else {
        s
    }
}

/// Sorts the ranges by ascending start address, keeping exactly the same
/// collection of ranges.
fn sort_ranges_by_start(ranges: Vec<IovaRange>) -> (r: Vec<IovaRange>)
    ensures
        spec_sorted_by_start(r@),
        r@.to_multiset() == ranges@.to_multiset(),
        r@.len() == ranges@.len(),
{
    broadcast use vstd::seq_lib::group_to_multiset_ensures;
    broadcast use vstd::multiset::group_multiset_axioms;

    let ghost orig = ranges@;
    let mut input = ranges;
    let mut out: Vec<IovaRange> = Vec::new();
    proof {
        assert(out@.to_multiset().add(input@.to_multiset()) =~= orig.to_multiset());
    }
    while input.len() > 0
        invariant
            out@.to_multiset().add(input@.to_multiset()) == orig.to_multiset(),
            out@.len() + input@.len() == orig.len(),
            forall|i: int, j: int|
                0 <= i <= j < out@.len() ==> (#[trigger] out@[i]).start <= (
                #[trigger] out@[j]).start,
            forall|i: int, k: int|
                0 <= i < out@.len() && 0 <= k < input@.len() ==> (#[trigger] out@[i]).start <= (
                #[trigger] input@[k]).start,
        decreases input@.len(),
    {
        let mut min_idx: usize = 0;
        for i in 1..input.len()
            invariant
                input@.len() > 0,
                min_idx < input@.len(),
                forall|k: int| 0 <= k < i ==> input@[min_idx as int].start <= (
                #[trigger] input@[k]).start,
        {
            if input[i].start < input[min_idx].start {
                min_idx = i;
            }
        }
        let ghost input0 = input@;
        let ghost out0 = out@;
        let x = input.remove(min_idx);
        out.push(x);
        proof {
            broadcast use vstd::seq_lib::group_to_multiset_ensures;
            broadcast use vstd::multiset::group_multiset_axioms;

            assert(input0[min_idx as int] == x);
            assert(input0.contains(x));
            assert(input0.to_multiset().count(x) >= 1);
            assert(input@ == input0.remove(min_idx as int));
            assert(input0.remove(min_idx as int).to_multiset() =~= input0.to_multiset().remove(x));
            assert(out@ == out0.push(x));
            assert(out0.push(x).to_multiset() =~= out0.to_multiset().insert(x));
            assert(out@.to_multiset().add(input@.to_multiset()) =~= orig.to_multiset());
        }
    }
    out
}

/// Checks the start-sorted ranges for overlap and reserves IOVA 0.
///
/// Any two consecutive ranges that overlap make the whole list
/// untrustworthy, failing with [`PciError::DeviceIo`]; otherwise, if the
/// first range begins at address 0, its start is advanced by one alignment
/// unit, dropping the range if that exhausts it.
fn check_and_adjust_ranges(sorted: Vec<IovaRange>, alignment: u64) -> (r: Result<
    Vec<IovaRange>,
    PciError,
>)
    requires
        spec_sorted_by_start(sorted@),
    ensures
        spec_ranges_disjoint(sorted@) ==> (r matches Ok(out) && out@ == spec_adjust_zero(
            sorted@,
            alignment,
        )),
        !spec_ranges_disjoint(sorted@) ==> r == Err::<Vec<IovaRange>, PciError>(
            PciError::DeviceIo,
        ),
{
    let ghost s0 = sorted@;
    let mut ranges = sorted;
    let n = ranges.len();
    if n > 1 {
        for i in 1..n
            invariant
                n == ranges@.len(),
                n > 1,
                s0 == ranges@,
                s0 == sorted@,
                forall|j: int|
                    0 <= j < i - 1 ==> (#[trigger] ranges@[j]).end <= ranges@[j + 1].start,
        {
            if ranges[i - 1].end > ranges[i].start {
                proof {
                    assert(!spec_ranges_disjoint(s0)) by {
                        assert(s0[i - 1].end > s0[i - 1 + 1].start);
                    }
                }
                return Err(PciError::DeviceIo);
            }
        }
    }
    if ranges.len() > 0 && ranges[0].start == 0 {
        // The first valid IOVA is 0x0, which can cause problems with some
        // protocols or hypervisors.  Make the caller's life easier by
        // reserving the first page of IOVA space.
        let end = ranges[0].end;
        if alignment >= end {
            ranges.remove(0);
        } else {
            ranges[0] = IovaRange { start: alignment, end };
        }
    }
    proof {
        assert(ranges@ =~= spec_adjust_zero(s0, alignment));
    }
    Ok(ranges)
}

/// Sorts, checks, and normalises the IOVA ranges the kernel reported.
///
/// The ranges are sorted by ascending start address; two ranges that
/// overlap fail with [`PciError::DeviceIo`], since the kernel is expected
/// to report disjoint ranges; and IOVA 0 is reserved by advancing the
/// first range's start by one alignment unit if it begins at address 0,
/// dropping the range if that exhausts it.
#[verifier::rlimit(50)]
pub fn process_iova_ranges(ranges: Vec<IovaRange>, alignment: u64) -> (r: Result<
    Vec<IovaRange>,
    PciError,
>)
    ensures
        r matches Ok(out) ==> {
            &&& spec_sorted_by_start(out@)
            &&& spec_ranges_disjoint(out@)
            &&& exists|ss: Seq<IovaRange>|
                spec_sorted_by_start(ss) && spec_ranges_disjoint(ss) && ss.to_multiset()
                    == ranges@.to_multiset() && out@ == (#[trigger] spec_adjust_zero(
                    ss,
                    alignment,
                ))
        },
        r matches Err(e) ==> e == PciError::DeviceIo && exists|ss: Seq<IovaRange>|
            (#[trigger] spec_sorted_by_start(ss)) && ss.to_multiset() == ranges@.to_multiset()
                && !spec_ranges_disjoint(ss),
        (forall|ss: Seq<IovaRange>|
            (#[trigger] spec_sorted_by_start(ss)) && ss.to_multiset() == ranges@.to_multiset()
                ==> spec_ranges_disjoint(ss)) ==> r is Ok,
{
    let ghost orig = ranges@;
    let sorted = sort_ranges_by_start(ranges);
    let ghost ss = sorted@;
    let r = check_and_adjust_ranges(sorted, alignment);
    proof {
        match &r {
            Ok(out) => {
                assert(spec_sorted_by_start(ss) && spec_ranges_disjoint(ss) && ss.to_multiset()
                    == orig.to_multiset() && out@ == spec_adjust_zero(ss, alignment));
                let adj = spec_adjust_zero(ss, alignment);
                assert(spec_sorted_by_start(adj) && spec_ranges_disjoint(adj)) by {
                    assert forall|i: int| 0 <= i < adj.len() - 1 implies (
                    #[trigger] adj[i]).start <= adj[i + 1].start && adj[i].end <= adj[i
                        + 1].start by {
                        if ss.len() > 0 && ss[0].start == 0 {
                            if alignment >= ss[0].end {
                                assert(adj[i] == ss[i + 1] && adj[i + 1] == ss[i + 2]);
                            } else {
                                assert(adj[i].end == ss[i].end && adj[i + 1] == ss[i + 1]);
                                assert(adj[i].end <= adj[i + 1].start);
                                if i == 0 {
                                    assert(alignment < ss[0].end);
                                }
                            }
                        }
                    }
                }
            },
            Err(e) => {
                assert(spec_sorted_by_start(ss) && ss.to_multiset() == orig.to_multiset()
                    && !spec_ranges_disjoint(ss));
            },
        }
    }
    r
}

/// An IOMMU that controls DMA done by some PCI function, device, or group
/// of devices: its mapping alignment, its valid IOVA ranges, and its
/// mapping quota, as reported by the kernel and normalised by
/// [`process_iova_ranges`].
#[derive(Debug)]
pub struct PciIommu {
    iova_alignment: usize,
    max_num_mappings: u32,
    valid_iova_ranges: Vec<IovaRange>,
}

impl PciIommu {
    /// The mapping alignment.
    pub closed spec fn spec_alignment(&self) -> usize {
        self.iova_alignment
    }

    /// The mapping quota.
    pub closed spec fn spec_max_num_mappings(&self) -> u32 {
        self.max_num_mappings
    }

    /// The valid IOVA ranges.
    pub closed spec fn spec_ranges(&self) -> Seq<IovaRange> {
        self.valid_iova_ranges@
    }

    /// The alignment is a power of two, the ranges are sorted and
    /// disjoint, and none of them contains the reserved IOVA 0.
    #[verifier::type_invariant]
    closed spec fn type_inv(&self) -> bool {
        &&& spec_is_power_of_two(self.iova_alignment as u64)
        &&& spec_sorted_by_start(self.valid_iova_ranges@)
        &&& spec_ranges_disjoint(self.valid_iova_ranges@)
        &&& spec_ranges_avoid_zero(self.valid_iova_ranges@)
    }

    /// Packages up IOMMU geometry, validating that the alignment is a
    /// power of two and that the ranges are sorted, disjoint, and keep
    /// clear of the reserved IOVA 0.
    pub fn new(iova_alignment: usize, max_num_mappings: u32, valid_iova_ranges: Vec<IovaRange>)
        -> (r: Result<PciIommu, PciError>)
        ensures
            (spec_is_power_of_two(iova_alignment as u64) && spec_sorted_by_start(
                valid_iova_ranges@,
            ) && spec_ranges_disjoint(valid_iova_ranges@) && spec_ranges_avoid_zero(
                valid_iova_ranges@,
            )) ==> (r matches Ok(iommu) && iommu.spec_alignment() == iova_alignment
                && iommu.spec_max_num_mappings() == max_num_mappings && iommu.spec_ranges()
                == valid_iova_ranges@),
            !(spec_is_power_of_two(iova_alignment as u64) && spec_sorted_by_start(
                valid_iova_ranges@,
            ) && spec_ranges_disjoint(valid_iova_ranges@) && spec_ranges_avoid_zero(
                valid_iova_ranges@,
            )) ==> r == Err::<PciIommu, PciError>(PciError::InvalidInput),
    {
        let al = iova_alignment as u64;
        if al == 0 || (al & (al - 1)) != 0 {
            return Err(PciError::InvalidInput);
        }
        let n = valid_iova_ranges.len();
        for i in 0..n
            invariant
                n == valid_iova_ranges@.len(),
                forall|j: int| 0 <= j < i ==> (#[trigger] valid_iova_ranges@[j]).start != 0,
        {
            if valid_iova_ranges[i].start == 0 {
                return Err(PciError::InvalidInput);
            }
        }
        if n > 1 {
            for i in 1..n
                invariant
                    n == valid_iova_ranges@.len(),
                    n > 1,
                    forall|j: int|
                        0 <= j < i - 1 ==> ((#[trigger] valid_iova_ranges@[j]).start
                            <= valid_iova_ranges@[j + 1].start && valid_iova_ranges@[j].end
                            <= valid_iova_ranges@[j + 1].start),
            {
                if valid_iova_ranges[i - 1].start > valid_iova_ranges[i].start
                    || valid_iova_ranges[i - 1].end > valid_iova_ranges[i].start {
                    return Err(PciError::InvalidInput);
                }
            }
        }
        Ok(PciIommu { iova_alignment, max_num_mappings, valid_iova_ranges })
    }

    /// Both the IOVA and the process address of a mapping must be aligned
    /// to this value.
    ///
    /// This is always a power of two, and never less than the system's
    /// page size.
    pub fn alignment(&self) -> (r: usize)
        ensures
            r == self.spec_alignment(),
            spec_is_power_of_two(r as u64),
    {
        proof {
            use_type_invariant(self);
        }
        self.iova_alignment
    }

    /// The maximum number of simultaneous mappings the kernel allows.
    pub fn max_num_mappings(&self) -> (r: u32)
        ensures
            r == self.spec_max_num_mappings(),
    {
        self.max_num_mappings
    }

    /// IOVA ranges handed to the transport's map operation must be
    /// contained in one of the ranges that this method returns.
    ///
    /// The ranges are sorted by start address, disjoint, and none of them
    /// contains the reserved IOVA 0.
    pub fn valid_iova_ranges(&self) -> (r: &Vec<IovaRange>)
        ensures
            r@ == self.spec_ranges(),
            spec_sorted_by_start(r@),
            spec_ranges_disjoint(r@),
            spec_ranges_avoid_zero(r@),
    {
        proof {
            use_type_invariant(self);
        }
        &self.valid_iova_ranges
    }
}

} // verus!
