//! Tests for IOMMU geometry and IOVA range normalisation.

use pci_driver::errors::PciError;
use pci_driver::iommu::{process_iova_ranges, IovaRange, PciIommu};

fn range(start: u64, end: u64) -> IovaRange {
    IovaRange { start, end }
}

#[test]
fn test_iova_ranges_zero_page_dropped() {
    let result = process_iova_ranges(vec![range(0, 0x1000), range(0x2000, 0x3000)], 0x1000);
    // The first range is exhausted by reserving IOVA 0, and dropped.
    assert_eq!(result.unwrap(), vec![range(0x2000, 0x3000)]);
}

#[test]
fn test_iova_ranges_overlap_rejected() {
    let result = process_iova_ranges(vec![range(0, 0x1000), range(0x800, 0x2000)], 0x1000);
    assert_eq!(result, Err(PciError::DeviceIo));
}

#[test]
fn test_iova_ranges_zero_page_advanced() {
    let result = process_iova_ranges(vec![range(0, 0x4000)], 0x1000);
    assert_eq!(result.unwrap(), vec![range(0x1000, 0x4000)]);
}

#[test]
fn test_iova_ranges_sorted() {
    let result = process_iova_ranges(
        vec![range(0x4000, 0x5000), range(0x1000, 0x2000), range(0x2000, 0x3000)],
        0x1000,
    );
    assert_eq!(
        result.unwrap(),
        vec![range(0x1000, 0x2000), range(0x2000, 0x3000), range(0x4000, 0x5000)]
    );
}

#[test]
fn test_iova_ranges_empty() {
    assert_eq!(process_iova_ranges(vec![], 0x1000).unwrap(), vec![]);
}

#[test]
fn test_iova_ranges_nonzero_first_untouched() {
    let result = process_iova_ranges(vec![range(0x1000, 0x2000)], 0x1000);
    assert_eq!(result.unwrap(), vec![range(0x1000, 0x2000)]);
}

#[test]
fn test_pci_iommu_accessors() {
    let iommu = PciIommu::new(
        0x1000,
        65535,
        vec![range(0x1000, 0x2000), range(0x4000, 0x8000)],
    )
    .unwrap();
    assert_eq!(iommu.alignment(), 0x1000);
    assert_eq!(iommu.max_num_mappings(), 65535);
    assert_eq!(
        iommu.valid_iova_ranges().clone(),
        vec![range(0x1000, 0x2000), range(0x4000, 0x8000)]
    );
}

#[test]
fn test_pci_iommu_rejects_bad_alignment() {
    assert_eq!(
        PciIommu::new(0x1001, 1, vec![]).map(|_| ()),
        Err(PciError::InvalidInput)
    );
    assert_eq!(PciIommu::new(0, 1, vec![]).map(|_| ()), Err(PciError::InvalidInput));
}

#[test]
fn test_pci_iommu_rejects_zero_start_range() {
    // IOVA 0 is reserved: a range containing it is not accepted.
    assert_eq!(
        PciIommu::new(0x1000, 1, vec![range(0, 0x1000)]).map(|_| ()),
        Err(PciError::InvalidInput)
    );
    assert_eq!(
        PciIommu::new(0x1000, 1, vec![range(0, 0x1000), range(0x2000, 0x3000)]).map(|_| ()),
        Err(PciError::InvalidInput)
    );
    // The normalised output of range post-processing is accepted.
    let processed = process_iova_ranges(vec![range(0, 0x1000), range(0x2000, 0x3000)], 0x1000)
        .unwrap();
    let iommu = PciIommu::new(0x1000, 1, processed).unwrap();
    for r in iommu.valid_iova_ranges() {
        assert!(r.start != 0);
    }
}

#[test]
fn test_pci_iommu_rejects_bad_ranges() {
    // Unsorted.
    assert_eq!(
        PciIommu::new(0x1000, 1, vec![range(0x4000, 0x5000), range(0x1000, 0x2000)]).map(|_| ()),
        Err(PciError::InvalidInput)
    );
    // Overlapping.
    assert_eq!(
        PciIommu::new(0x1000, 1, vec![range(0x1000, 0x3000), range(0x2000, 0x4000)]).map(|_| ()),
        Err(PciError::InvalidInput)
    );
}
