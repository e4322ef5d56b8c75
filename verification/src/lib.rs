//! A library for building user-space PCI and PCIe drivers on top of an
//! IOMMU-isolated device-passthrough kernel interface.
//!
//! The library is organised around a byte-addressable region model:
//!
//! 1. [`regions`] turns raw device memory into bounds-checked, composable
//!    views ([`regions::PciMemoryRegion`], [`regions::PciSubregion`]) and
//!    offers structured register and bit-field access with PCI read/write
//!    semantics ([`regions::structured`]).
//! 2. [`config`] interprets a configuration-space region: well-known
//!    registers, and discovery of the capability and extended-capability
//!    linked lists.
//! 3. [`iommu`] holds IOMMU geometry (alignment, valid IOVA ranges, mapping
//!    quota) and validates and normalises what the kernel reports.
//! 4. [`vfio`] contains the computational half of the VFIO backend: parsing
//!    kernel replies, encoding requests, and the container-setup state
//!    machine.  The raw ioctl/mmap transport lives outside the library.

pub mod config;
pub mod errors;
pub mod iommu;
pub mod regions;
pub mod vfio;
