//! Tests for the computational half of the VFIO backend.

use pci_driver::errors::PciError;
use pci_driver::iommu::IovaRange;
use pci_driver::regions::Permissions;
use pci_driver::vfio::{
    container_setup_action, container_setup_start, container_setup_step, encode_dma_map_flags,
    interpret_config_region_info, interpret_iommu_info, interpret_region_info,
    interrupt_index_from_kind, ioctl_return_to_result, iommu_alignment, validate_device_info,
    validate_interrupts_enable, validate_map_request, region_is_mappable, ContainerSetupAction,
    ContainerSetupEvent, ContainerSetupPhase, MapPlan, PciInterruptKind, RegionParams,
};

fn put_u16(bytes: &mut Vec<u8>, off: usize, value: u16) {
    bytes[off] = (value & 0xff) as u8;
    bytes[off + 1] = (value >> 8) as u8;
}

fn put_u32(bytes: &mut Vec<u8>, off: usize, value: u32) {
    bytes[off] = (value & 0xff) as u8;
    bytes[off + 1] = ((value >> 8) & 0xff) as u8;
    bytes[off + 2] = ((value >> 16) & 0xff) as u8;
    bytes[off + 3] = ((value >> 24) & 0xff) as u8;
}

fn put_u64(bytes: &mut Vec<u8>, off: usize, value: u64) {
    put_u32(bytes, off, (value & 0xffff_ffff) as u32);
    put_u32(bytes, off + 4, (value >> 32) as u32);
}

#[test]
fn test_ioctl_return_to_result() {
    assert_eq!(ioctl_return_to_result(0), Ok(0));
    assert_eq!(ioctl_return_to_result(7), Ok(7));
    assert_eq!(ioctl_return_to_result(-1), Err(PciError::DeviceIo));
}

#[test]
fn test_interrupt_index_from_kind() {
    assert_eq!(interrupt_index_from_kind(PciInterruptKind::Intx), 0);
    assert_eq!(interrupt_index_from_kind(PciInterruptKind::Msi), 1);
    assert_eq!(interrupt_index_from_kind(PciInterruptKind::MsiX), 2);
}

#[test]
fn test_validate_interrupts_enable() {
    assert_eq!(validate_interrupts_enable(4, 4), Ok(()));
    assert_eq!(validate_interrupts_enable(5, 4), Err(PciError::InvalidInput));
}

#[test]
fn test_validate_device_info() {
    assert_eq!(validate_device_info(0x2, 9, 3), Ok(()));
    assert_eq!(validate_device_info(0x1, 9, 3), Err(PciError::DeviceIo));
    assert_eq!(validate_device_info(0x2, 7, 3), Err(PciError::DeviceIo));
    assert_eq!(validate_device_info(0x2, 9, 2), Err(PciError::DeviceIo));
}

#[test]
fn test_region_is_mappable() {
    assert!(region_is_mappable(0x4, 0x1000));
    assert!(!region_is_mappable(0x3, 0x1000));
}

#[test]
fn test_interpret_region_info() {
    assert_eq!(interpret_region_info(0x7, 0), Ok(None));
    assert_eq!(
        interpret_region_info(0x7, 0x1000),
        Ok(Some(RegionParams { permissions: Permissions::ReadWrite, is_mappable: true }))
    );
    assert_eq!(
        interpret_region_info(0x1, 0x1000),
        Ok(Some(RegionParams { permissions: Permissions::Read, is_mappable: false }))
    );
    assert_eq!(interpret_region_info(0x4, 0x1000), Err(PciError::DeviceIo));
}

#[test]
fn test_interpret_config_region_info() {
    assert_eq!(interpret_config_region_info(0x3, 0x1000), Ok(()));
    assert_eq!(interpret_config_region_info(0x3, 0), Err(PciError::DeviceIo));
    assert_eq!(interpret_config_region_info(0x1, 0x1000), Err(PciError::DeviceIo));
}

#[test]
fn test_encode_dma_map_flags() {
    assert_eq!(encode_dma_map_flags(Permissions::Read), 1);
    assert_eq!(encode_dma_map_flags(Permissions::Write), 2);
    assert_eq!(encode_dma_map_flags(Permissions::ReadWrite), 3);
}

#[test]
fn test_validate_map_request() {
    // The range is clamped to the region before mapping.
    assert_eq!(
        validate_map_request(0x4000, 0x100, 0x1000, 0x9000, Permissions::ReadWrite,
            Permissions::Read, true),
        Ok(MapPlan { offset: 0x1100, length: 0x3000 })
    );
    // An unmappable region always fails.
    assert_eq!(
        validate_map_request(0x4000, 0x100, 0, 0x1000, Permissions::ReadWrite,
            Permissions::Read, false),
        Err(PciError::InvalidInput)
    );
    // Requested permissions must not exceed the region's own.
    assert_eq!(
        validate_map_request(0x4000, 0x100, 0, 0x1000, Permissions::Read,
            Permissions::ReadWrite, true),
        Err(PciError::InvalidInput)
    );
    assert_eq!(
        validate_map_request(0x4000, 0, 0, 0x1000, Permissions::Read, Permissions::Read, true),
        Ok(MapPlan { offset: 0, length: 0x1000 })
    );
}

#[test]
fn test_iommu_alignment() {
    assert_eq!(iommu_alignment(0, 0x1000), Err(PciError::DeviceIo));
    assert_eq!(iommu_alignment(1, 0), Err(PciError::DeviceIo));
    assert_eq!(iommu_alignment(1, 0x1000), Ok(0x1000));
    // The smallest supported page size wins.
    assert_eq!(iommu_alignment(1, 0x5000), Ok(0x1000));
    assert_eq!(iommu_alignment(1, 0x3), Ok(0x1));
}

/// An IOMMU info reply with page sizes `0x1000`, the IOVA ranges
/// `[0x0, 0x1000)` and `[0x2000, 0x3000)`, and 65535 available mappings.
fn build_iommu_info_reply() -> Vec<u8> {
    let mut buf = vec![0u8; 84];
    put_u32(&mut buf, 0, 84);  // argsz
    put_u32(&mut buf, 4, 1);  // flags: page sizes valid
    put_u64(&mut buf, 8, 0x1000);  // page-size mask
    put_u32(&mut buf, 16, 24);  // first capability offset

    // IOVA-range capability at 24, linking to 72.
    put_u16(&mut buf, 24, 1);  // id
    put_u16(&mut buf, 26, 1);  // version
    put_u32(&mut buf, 28, 72);  // next
    put_u32(&mut buf, 32, 2);  // nr_iovas
    put_u64(&mut buf, 40, 0x0);  // range 0 start
    put_u64(&mut buf, 48, 0x1000);  // range 0 end
    put_u64(&mut buf, 56, 0x2000);  // range 1 start
    put_u64(&mut buf, 64, 0x3000);  // range 1 end

    // DMA-availability capability at 72, ending the list.
    put_u16(&mut buf, 72, 3);  // id
    put_u16(&mut buf, 74, 1);  // version
    put_u32(&mut buf, 76, 0);  // next
    put_u32(&mut buf, 80, 65535);  // avail

    buf
}

#[test]
fn test_interpret_iommu_info() {
    let info = interpret_iommu_info(&build_iommu_info_reply()).unwrap();
    assert_eq!(info.iova_alignment, 0x1000);
    assert_eq!(info.max_num_mappings, 65535);
    // The zero range was exhausted by reserving IOVA 0 and dropped.
    assert_eq!(info.valid_iova_ranges, vec![IovaRange { start: 0x2000, end: 0x3000 }]);
}

#[test]
fn test_interpret_iommu_info_no_pgsizes() {
    let mut buf = build_iommu_info_reply();
    put_u32(&mut buf, 4, 0);
    assert_eq!(interpret_iommu_info(&buf).map(|_| ()), Err(PciError::DeviceIo));
}

#[test]
fn test_interpret_iommu_info_no_capabilities() {
    let mut buf = build_iommu_info_reply();
    put_u32(&mut buf, 0, 24);  // argsz: only the fixed part
    assert_eq!(interpret_iommu_info(&buf).map(|_| ()), Err(PciError::DeviceIo));
}

#[test]
fn test_interpret_iommu_info_missing_capability() {
    let mut buf = build_iommu_info_reply();
    put_u16(&mut buf, 72, 5);  // not the DMA-availability capability
    assert_eq!(interpret_iommu_info(&buf).map(|_| ()), Err(PciError::DeviceIo));
}

#[test]
fn test_interpret_iommu_info_truncated() {
    assert_eq!(interpret_iommu_info(&vec![0u8; 16]).map(|_| ()), Err(PciError::DeviceIo));
}

#[test]
fn test_container_setup_happy_path() {
    let num_groups = 2;
    let noiommu = false;
    let mut phase = container_setup_start(num_groups);
    assert_eq!(phase, ContainerSetupPhase::OpeningGroups { next_group: 0 });
    assert_eq!(
        container_setup_action(phase),
        Some(ContainerSetupAction::QueryGroupStatus { group: 0 })
    );

    phase = container_setup_step(phase, num_groups, noiommu,
        ContainerSetupEvent::GroupStatus { flags: 0x3 });
    assert_eq!(phase, ContainerSetupPhase::OpeningGroups { next_group: 1 });
    phase = container_setup_step(phase, num_groups, noiommu,
        ContainerSetupEvent::GroupStatus { flags: 0x1 });
    assert_eq!(phase, ContainerSetupPhase::CheckingApi);
    phase = container_setup_step(phase, num_groups, noiommu,
        ContainerSetupEvent::ApiVersion { version: 0 });
    assert_eq!(phase, ContainerSetupPhase::CheckingExtension);
    phase = container_setup_step(phase, num_groups, noiommu,
        ContainerSetupEvent::ExtensionSupported { result: 1 });
    assert_eq!(phase, ContainerSetupPhase::AttachingGroups { next_group: 0 });
    phase = container_setup_step(phase, num_groups, noiommu,
        ContainerSetupEvent::GroupAttached);
    assert_eq!(phase, ContainerSetupPhase::AttachingGroups { next_group: 1 });
    phase = container_setup_step(phase, num_groups, noiommu,
        ContainerSetupEvent::GroupAttached);
    assert_eq!(phase, ContainerSetupPhase::ActivatingIommu);
    assert_eq!(container_setup_action(phase), Some(ContainerSetupAction::ActivateIommu));
    phase = container_setup_step(phase, num_groups, noiommu,
        ContainerSetupEvent::IommuActivated);
    assert_eq!(phase, ContainerSetupPhase::QueryingGeometry);
    phase = container_setup_step(phase, num_groups, noiommu,
        ContainerSetupEvent::GeometryReady);
    assert_eq!(phase, ContainerSetupPhase::Ready);
    assert_eq!(container_setup_action(phase), None);
}

#[test]
fn test_container_setup_nonviable_group_blocks_activation() {
    let num_groups = 2;
    let noiommu = false;
    let mut phase = container_setup_start(num_groups);

    // The kernel does not report the first group viable.
    phase = container_setup_step(phase, num_groups, noiommu,
        ContainerSetupEvent::GroupStatus { flags: 0x0 });
    assert_eq!(phase, ContainerSetupPhase::Failed(PciError::DeviceIo));
    // Setup is over: no action — in particular no IOMMU activation — runs.
    assert_eq!(container_setup_action(phase), None);

    // The failure is absorbing, whatever arrives afterwards.
    phase = container_setup_step(phase, num_groups, noiommu,
        ContainerSetupEvent::IommuActivated);
    assert_eq!(phase, ContainerSetupPhase::Failed(PciError::DeviceIo));
}

#[test]
fn test_container_setup_wrong_api_version() {
    let mut phase = container_setup_start(0);
    assert_eq!(phase, ContainerSetupPhase::CheckingApi);
    phase = container_setup_step(phase, 0, false,
        ContainerSetupEvent::ApiVersion { version: 1 });
    assert_eq!(phase, ContainerSetupPhase::Failed(PciError::Unsupported));
}

#[test]
fn test_container_setup_unsupported_extension() {
    let mut phase = container_setup_start(0);
    phase = container_setup_step(phase, 0, false,
        ContainerSetupEvent::ApiVersion { version: 0 });
    phase = container_setup_step(phase, 0, false,
        ContainerSetupEvent::ExtensionSupported { result: 0 });
    assert_eq!(phase, ContainerSetupPhase::Failed(PciError::Unsupported));
}

#[test]
fn test_container_setup_noiommu_skips_geometry() {
    let mut phase = container_setup_start(0);
    phase = container_setup_step(phase, 0, true,
        ContainerSetupEvent::ApiVersion { version: 0 });
    phase = container_setup_step(phase, 0, true,
        ContainerSetupEvent::ExtensionSupported { result: 1 });
    assert_eq!(phase, ContainerSetupPhase::ActivatingIommu);
    phase = container_setup_step(phase, 0, true,
        ContainerSetupEvent::IommuActivated);
    assert_eq!(phase, ContainerSetupPhase::Ready);
}
