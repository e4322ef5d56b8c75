//! Access to the configuration space of a PCI device: the well-known
//! registers of the common header, and discovery of the capability and
//! extended-capability linked lists.

use vstd::prelude::*;

use crate::errors::PciError;
use crate::regions::structured::{
    PciBitReadClear, PciBitReadOnly, PciBitReadWrite, PciBitsReadOnly, PciRegisterRo,
    PciRegisterRw, PciRegisterWidth,
};
use crate::regions::{PciMemoryRegion, PciSubregion};

pub mod caps;
pub mod ext_caps;

verus! {

/// The write mask of the "Command" register: all ones except the
/// write-1-to-clear "Interrupt Disable" bit at position 10.
pub const PCI_COMMAND_WRITE_MASK: u32 = 0xfbff;

/// The write mask of the "Status" register: all ones except the
/// reserved-zero bits at positions 1, 2 and 6 and the write-1-to-clear bits
/// at positions 8 and 11 through 15.
pub const PCI_STATUS_WRITE_MASK: u32 = 0x06b9;

/// The write mask of the "BIST" register: every bit, since the register has
/// no write-1-to-clear and no reserved-zero bits.
pub const PCI_BIST_WRITE_MASK: u32 = 0xff;

/// Lets you interact with the configuration space (conventional or
/// extended) of a PCI device.
///
/// A value is a window over a region holding the configuration space; each
/// register accessor narrows the window to the register's offset.  The
/// window deliberately has no fixed length, so that the capability scans
/// can see the whole of the configuration space.
#[derive(Clone, Copy, Debug, PartialEq, Eq, Structural)]
pub struct PciConfig {
    /// The window holding the configuration space.
    pub window: PciSubregion,
}

impl PciConfig {
    /// The window does not wrap around the address space.
    pub open spec fn spec_wf(self) -> bool {
        self.window.spec_wf()
    }

    /// The configuration space held by the given window.
    pub fn backed_by(window: PciSubregion) -> (r: PciConfig)
        ensures
            r == (PciConfig { window }),
    {
        PciConfig { window }
    }

    /// The read-only "Vendor ID" register.
    pub fn vendor_id(&self) -> (r: PciRegisterRo)
        requires
            self.spec_wf(),
        ensures
            r.width == PciRegisterWidth::W16,
            r.offset == self.window.spec_subregion(0x00, u64::MAX).offset,
            self.window.length >= 0x40 ==> r.offset == self.window.offset + 0x00,
    {
        PciRegisterRo::backed_by(self.window.subregion(0x00, u64::MAX), PciRegisterWidth::W16)
    }

    /// The read-only "Device ID" register.
    pub fn device_id(&self) -> (r: PciRegisterRo)
        requires
            self.spec_wf(),
        ensures
            r.width == PciRegisterWidth::W16,
            r.offset == self.window.spec_subregion(0x02, u64::MAX).offset,
            self.window.length >= 0x40 ==> r.offset == self.window.offset + 0x02,
    {
        PciRegisterRo::backed_by(self.window.subregion(0x02, u64::MAX), PciRegisterWidth::W16)
    }

    /// The "Command" register.
    pub fn command(&self) -> (r: PciCommand)
        requires
            self.spec_wf(),
        ensures
            r.offset == self.window.spec_subregion(0x04, u64::MAX).offset,
            self.window.length >= 0x40 ==> r.offset == self.window.offset + 0x04,
    {
        PciCommand::backed_by(self.window.subregion(0x04, u64::MAX))
    }

    /// The "Status" register.
    pub fn status(&self) -> (r: PciStatus)
        requires
            self.spec_wf(),
        ensures
            r.offset == self.window.spec_subregion(0x06, u64::MAX).offset,
            self.window.length >= 0x40 ==> r.offset == self.window.offset + 0x06,
    {
        PciStatus::backed_by(self.window.subregion(0x06, u64::MAX))
    }

    /// The read-only "Revision ID" register.
    pub fn revision_id(&self) -> (r: PciRegisterRo)
        requires
            self.spec_wf(),
        ensures
            r.width == PciRegisterWidth::W8,
            r.offset == self.window.spec_subregion(0x08, u64::MAX).offset,
            self.window.length >= 0x40 ==> r.offset == self.window.offset + 0x08,
    {
        PciRegisterRo::backed_by(self.window.subregion(0x08, u64::MAX), PciRegisterWidth::W8)
    }

    /// The "Class Code" register group.
    pub fn class_code(&self) -> (r: PciClassCode)
        requires
            self.spec_wf(),
        ensures
            r.window == self.window.spec_subregion(0x09, u64::MAX).spec_subregion(0x00, 0x03),
            self.window.length >= 0x40 ==> r.window == (PciSubregion {
                offset: (self.window.offset + 0x09) as u64,
                length: 0x03,
            }),
    {
        PciClassCode::backed_by(self.window.subregion(0x09, u64::MAX))
    }

    /// The read-write "Cache Line Size" register.
    pub fn cache_line_size(&self) -> (r: PciRegisterRw)
        requires
            self.spec_wf(),
        ensures
            r.width == PciRegisterWidth::W8,
            r.offset == self.window.spec_subregion(0x0c, u64::MAX).offset,
            self.window.length >= 0x40 ==> r.offset == self.window.offset + 0x0c,
    {
        PciRegisterRw::backed_by(self.window.subregion(0x0c, u64::MAX), PciRegisterWidth::W8)
    }

    /// The read-only "Latency Timer" register.
    pub fn latency_timer(&self) -> (r: PciRegisterRo)
        requires
            self.spec_wf(),
        ensures
            r.width == PciRegisterWidth::W8,
            r.offset == self.window.spec_subregion(0x0d, u64::MAX).offset,
            self.window.length >= 0x40 ==> r.offset == self.window.offset + 0x0d,
    {
        PciRegisterRo::backed_by(self.window.subregion(0x0d, u64::MAX), PciRegisterWidth::W8)
    }

    /// The "Header Type" register.
    pub fn header_type(&self) -> (r: PciHeaderType)
        requires
            self.spec_wf(),
        ensures
            r.offset == self.window.spec_subregion(0x0e, u64::MAX).offset,
            self.window.length >= 0x40 ==> r.offset == self.window.offset + 0x0e,
    {
        PciHeaderType::backed_by(self.window.subregion(0x0e, u64::MAX))
    }

    /// The "BIST" register.
    pub fn bist(&self) -> (r: PciBist)
        requires
            self.spec_wf(),
        ensures
            r.offset == self.window.spec_subregion(0x0f, u64::MAX).offset,
            self.window.length >= 0x40 ==> r.offset == self.window.offset + 0x0f,
    {
        PciBist::backed_by(self.window.subregion(0x0f, u64::MAX))
    }

    /// The read-only "CardBus CIS Pointer" register.
    pub fn cardbus_cis_pointer(&self) -> (r: PciRegisterRo)
        requires
            self.spec_wf(),
        ensures
            r.width == PciRegisterWidth::W32,
            r.offset == self.window.spec_subregion(0x28, u64::MAX).offset,
            self.window.length >= 0x40 ==> r.offset == self.window.offset + 0x28,
    {
        PciRegisterRo::backed_by(self.window.subregion(0x28, u64::MAX), PciRegisterWidth::W32)
    }

    /// The read-only "Subsystem Vendor ID" register.
    pub fn subsystem_vendor_id(&self) -> (r: PciRegisterRo)
        requires
            self.spec_wf(),
        ensures
            r.width == PciRegisterWidth::W16,
            r.offset == self.window.spec_subregion(0x2c, u64::MAX).offset,
            self.window.length >= 0x40 ==> r.offset == self.window.offset + 0x2c,
    {
        PciRegisterRo::backed_by(self.window.subregion(0x2c, u64::MAX), PciRegisterWidth::W16)
    }

    /// The read-only "Subsystem ID" register.
    pub fn subsystem_id(&self) -> (r: PciRegisterRo)
        requires
            self.spec_wf(),
        ensures
            r.width == PciRegisterWidth::W16,
            r.offset == self.window.spec_subregion(0x2e, u64::MAX).offset,
            self.window.length >= 0x40 ==> r.offset == self.window.offset + 0x2e,
    {
        PciRegisterRo::backed_by(self.window.subregion(0x2e, u64::MAX), PciRegisterWidth::W16)
    }

    /// The read-write "Interrupt Line" register.
    pub fn interrupt_line(&self) -> (r: PciRegisterRw)
        requires
            self.spec_wf(),
        ensures
            r.width == PciRegisterWidth::W8,
            r.offset == self.window.spec_subregion(0x3c, u64::MAX).offset,
            self.window.length >= 0x40 ==> r.offset == self.window.offset + 0x3c,
    {
        PciRegisterRw::backed_by(self.window.subregion(0x3c, u64::MAX), PciRegisterWidth::W8)
    }

    /// The read-only "Interrupt Pin" register.
    pub fn interrupt_pin(&self) -> (r: PciRegisterRo)
        requires
            self.spec_wf(),
        ensures
            r.width == PciRegisterWidth::W8,
            r.offset == self.window.spec_subregion(0x3d, u64::MAX).offset,
            self.window.length >= 0x40 ==> r.offset == self.window.offset + 0x3d,
    {
        PciRegisterRo::backed_by(self.window.subregion(0x3d, u64::MAX), PciRegisterWidth::W8)
    }

    /// The read-only "Min_Gnt" register.
    pub fn min_gnt(&self) -> (r: PciRegisterRo)
        requires
            self.spec_wf(),
        ensures
            r.width == PciRegisterWidth::W8,
            r.offset == self.window.spec_subregion(0x3e, u64::MAX).offset,
            self.window.length >= 0x40 ==> r.offset == self.window.offset + 0x3e,
    {
        PciRegisterRo::backed_by(self.window.subregion(0x3e, u64::MAX), PciRegisterWidth::W8)
    }

    /// Returns a thing that lets you access the PCI Capabilities.
    ///
    /// Calling this will (re)scan all Capabilities, which is why it can
    /// fail; the contract is that of
    /// [`caps::PciCapabilities::backed_by`].
    pub fn capabilities(&self, region: &PciMemoryRegion) -> (r: Result<
        caps::PciCapabilities,
        PciError,
    >)
        requires
            self.spec_wf(),
        ensures
            self.window.length < 0x100 ==> r == Err::<caps::PciCapabilities, PciError>(
                PciError::InvalidInput,
            ),
            r matches Ok(c) ==> c.spec_wf(),
            ({
                let b = region@;
                let c = self.window.offset as int;
                self.window.length >= 0x100 && self.window.spec_valid_for(b.len() as int) && c % 2
                    == 0 ==> {
                    if !caps::spec_caps_present(b, c) {
                        r matches Ok(cs) && cs.spec_windows() == Seq::<PciSubregion>::empty()
                    } else {
                        match caps::spec_cap_chain(b, c, caps::spec_cap_start(b, c), 192) {
                            Some(offs) => r matches Ok(cs) && cs.spec_windows()
                                == caps::spec_cap_windows(c, offs),
                            None => r == Err::<caps::PciCapabilities, PciError>(
                                PciError::InvalidInput,
                            ),
                        }
                    }
                }
            }),
    {
        caps::PciCapabilities::backed_by(region, *self)
    }

    /// Returns a thing that lets you access the PCI Extended Capabilities.
    ///
    /// Calling this will (re)scan all Extended Capabilities, which is why
    /// it can fail; the contract is that of
    /// [`ext_caps::PciExtendedCapabilities::backed_by`].
    pub fn extended_capabilities(&self, region: &PciMemoryRegion) -> (r: Result<
        ext_caps::PciExtendedCapabilities,
        PciError,
    >)
        requires
            self.spec_wf(),
        ensures
            self.window.length < 0x1000 ==> r == Err::<
                ext_caps::PciExtendedCapabilities,
                PciError,
            >(PciError::InvalidInput),
            r matches Ok(c) ==> c.spec_wf(),
            ({
                let b = region@;
                let c = self.window.offset as int;
                self.window.length >= 0x1000 && self.window.spec_valid_for(b.len() as int) && c % 4
                    == 0 ==> {
                    if caps::spec_caps_present(b, c) && caps::spec_cap_chain(
                        b,
                        c,
                        caps::spec_cap_start(b, c),
                        192,
                    ) is None {
                        r == Err::<ext_caps::PciExtendedCapabilities, PciError>(
                            PciError::InvalidInput,
                        )
                    } else if !ext_caps::spec_has_pcie(b, c) {
                        r matches Ok(cs) && cs.spec_windows() == Seq::<PciSubregion>::empty()
                    } else {
                        match ext_caps::spec_ext_cap_chain(b, c, 0x100, 1920) {
                            Some(offs) => r matches Ok(cs) && cs.spec_windows()
                                == ext_caps::spec_ext_cap_windows(c, offs),
                            None => r == Err::<ext_caps::PciExtendedCapabilities, PciError>(
                                PciError::InvalidInput,
                            ),
                        }
                    }
                }
            }),
    {
        ext_caps::PciExtendedCapabilities::backed_by(region, *self)
    }

    /// The read-only "Max_Lat" register.
    pub fn max_lat(&self) -> (r: PciRegisterRo)
        requires
            self.spec_wf(),
        ensures
            r.width == PciRegisterWidth::W8,
            r.offset == self.window.spec_subregion(0x3f, u64::MAX).offset,
            self.window.length >= 0x40 ==> r.offset == self.window.offset + 0x3f,
    {
        PciRegisterRo::backed_by(self.window.subregion(0x3f, u64::MAX), PciRegisterWidth::W8)
    }
}

// 7.5.1.1.3 Command Register

/// The "Command" register of the configuration-space header: a 16-bit
/// read-write bit field.
#[derive(Clone, Copy, Debug, PartialEq, Eq, Structural)]
pub struct PciCommand {
    /// Offset of the register in the region.
    pub offset: u64,
}

impl PciCommand {
    /// The "Command" register at the start of the given window.
    pub fn backed_by(window: PciSubregion) -> (r: PciCommand)
        ensures
            r == (PciCommand { offset: window.offset }),
    {
        PciCommand { offset: window.offset }
    }

    /// The read-write "I/O Space Enable" bit.
    pub fn io_space_enable(&self) -> (r: PciBitReadWrite)
        ensures
            r == (PciBitReadWrite {
                offset: self.offset,
                width: PciRegisterWidth::W16,
                mask: 0x1u32,
                write_mask: PCI_COMMAND_WRITE_MASK,
            }),
            r.spec_wf(),
    {
        PciBitReadWrite::backed_by(self.offset, PciRegisterWidth::W16, 0x1u32, PCI_COMMAND_WRITE_MASK)
    }

    /// The read-write "Memory Space Enable" bit.
    pub fn memory_space_enable(&self) -> (r: PciBitReadWrite)
        ensures
            r == (PciBitReadWrite {
                offset: self.offset,
                width: PciRegisterWidth::W16,
                mask: 0x2u32,
                write_mask: PCI_COMMAND_WRITE_MASK,
            }),
            r.spec_wf(),
    {
        PciBitReadWrite::backed_by(self.offset, PciRegisterWidth::W16, 0x2u32, PCI_COMMAND_WRITE_MASK)
    }

    /// The read-write "Bus Master Enable" bit.
    pub fn bus_master_enable(&self) -> (r: PciBitReadWrite)
        ensures
            r == (PciBitReadWrite {
                offset: self.offset,
                width: PciRegisterWidth::W16,
                mask: 0x4u32,
                write_mask: PCI_COMMAND_WRITE_MASK,
            }),
            r.spec_wf(),
    {
        PciBitReadWrite::backed_by(self.offset, PciRegisterWidth::W16, 0x4u32, PCI_COMMAND_WRITE_MASK)
    }

    /// The read-only "Special Cycle Enable" bit.
    pub fn special_cycle_enable(&self) -> (r: PciBitReadOnly)
        ensures
            r == (PciBitReadOnly {
                offset: self.offset,
                width: PciRegisterWidth::W16,
                mask: 0x8u32,
            }),
    {
        PciBitReadOnly::backed_by(self.offset, PciRegisterWidth::W16, 0x8u32)
    }

    /// The read-only "Memory Write and Invalidate" bit.
    pub fn memory_write_and_invalidate(&self) -> (r: PciBitReadOnly)
        ensures
            r == (PciBitReadOnly {
                offset: self.offset,
                width: PciRegisterWidth::W16,
                mask: 0x10u32,
            }),
    {
        PciBitReadOnly::backed_by(self.offset, PciRegisterWidth::W16, 0x10u32)
    }

    /// The read-only "VGA Palette Snoop" bit.
    pub fn vga_palette_snoop(&self) -> (r: PciBitReadOnly)
        ensures
            r == (PciBitReadOnly {
                offset: self.offset,
                width: PciRegisterWidth::W16,
                mask: 0x20u32,
            }),
    {
        PciBitReadOnly::backed_by(self.offset, PciRegisterWidth::W16, 0x20u32)
    }

    /// The read-write "Parity Error Response" bit.
    pub fn parity_error_response(&self) -> (r: PciBitReadWrite)
        ensures
            r == (PciBitReadWrite {
                offset: self.offset,
                width: PciRegisterWidth::W16,
                mask: 0x40u32,
                write_mask: PCI_COMMAND_WRITE_MASK,
            }),
            r.spec_wf(),
    {
        PciBitReadWrite::backed_by(self.offset, PciRegisterWidth::W16, 0x40u32, PCI_COMMAND_WRITE_MASK)
    }

    /// The read-only "IDSEL Stepping/Wait Cycle Control" bit.
    pub fn idsel_stepping_wait_cycle_control(&self) -> (r: PciBitReadOnly)
        ensures
            r == (PciBitReadOnly {
                offset: self.offset,
                width: PciRegisterWidth::W16,
                mask: 0x80u32,
            }),
    {
        PciBitReadOnly::backed_by(self.offset, PciRegisterWidth::W16, 0x80u32)
    }

    /// The read-write "SERR# Enable" bit.
    pub fn serr_enable(&self) -> (r: PciBitReadWrite)
        ensures
            r == (PciBitReadWrite {
                offset: self.offset,
                width: PciRegisterWidth::W16,
                mask: 0x100u32,
                write_mask: PCI_COMMAND_WRITE_MASK,
            }),
            r.spec_wf(),
    {
        PciBitReadWrite::backed_by(self.offset, PciRegisterWidth::W16, 0x100u32, PCI_COMMAND_WRITE_MASK)
    }

    /// The read-only "Fast Back-to-Back Transactions Enable" bit.
    pub fn fast_back_to_back_transactions_enable(&self) -> (r: PciBitReadOnly)
        ensures
            r == (PciBitReadOnly {
                offset: self.offset,
                width: PciRegisterWidth::W16,
                mask: 0x200u32,
            }),
    {
        PciBitReadOnly::backed_by(self.offset, PciRegisterWidth::W16, 0x200u32)
    }

    /// The write-1-to-clear "Interrupt Disable" bit.
    pub fn interrupt_disable(&self) -> (r: PciBitReadClear)
        ensures
            r == (PciBitReadClear {
                rw: PciBitReadWrite {
                    offset: self.offset,
                    width: PciRegisterWidth::W16,
                    mask: 0x400u32,
                    write_mask: PCI_COMMAND_WRITE_MASK,
                },
            }),
            r.spec_wf(),
    {
        PciBitReadClear::backed_by(self.offset, PciRegisterWidth::W16, 0x400u32, PCI_COMMAND_WRITE_MASK)
    }
}

// 7.5.1.1.4 Status Register

/// The "Status" register of the configuration-space header: a 16-bit
/// read-write bit field, most of whose writable bits are write-1-to-clear.
#[derive(Clone, Copy, Debug, PartialEq, Eq, Structural)]
pub struct PciStatus {
    /// Offset of the register in the region.
    pub offset: u64,
}

impl PciStatus {
    /// The "Status" register at the start of the given window.
    pub fn backed_by(window: PciSubregion) -> (r: PciStatus)
        ensures
            r == (PciStatus { offset: window.offset }),
    {
        PciStatus { offset: window.offset }
    }

    /// The read-only "Immediate Readiness" bit.
    pub fn immediate_readiness(&self) -> (r: PciBitReadOnly)
        ensures
            r == (PciBitReadOnly {
                offset: self.offset,
                width: PciRegisterWidth::W16,
                mask: 0x1u32,
            }),
    {
        PciBitReadOnly::backed_by(self.offset, PciRegisterWidth::W16, 0x1u32)
    }

    /// The read-only "Interrupt Status" bit.
    pub fn interrupt_status(&self) -> (r: PciBitReadOnly)
        ensures
            r == (PciBitReadOnly {
                offset: self.offset,
                width: PciRegisterWidth::W16,
                mask: 0x8u32,
            }),
    {
        PciBitReadOnly::backed_by(self.offset, PciRegisterWidth::W16, 0x8u32)
    }

    /// The read-only "Capabilities List" bit: whether the device has a
    /// capability list at all.
    pub fn capabilities_list(&self) -> (r: PciBitReadOnly)
        ensures
            r == (PciBitReadOnly {
                offset: self.offset,
                width: PciRegisterWidth::W16,
                mask: 0x10u32,
            }),
    {
        PciBitReadOnly::backed_by(self.offset, PciRegisterWidth::W16, 0x10u32)
    }

    /// The read-only "66 MHz Capable" bit.
    pub fn mhz_66_capable(&self) -> (r: PciBitReadOnly)
        ensures
            r == (PciBitReadOnly {
                offset: self.offset,
                width: PciRegisterWidth::W16,
                mask: 0x20u32,
            }),
    {
        PciBitReadOnly::backed_by(self.offset, PciRegisterWidth::W16, 0x20u32)
    }

    /// The read-only "Fast Back-to-Back Transactions Capable" bit.
    pub fn fast_back_to_back_transactions_capable(&self) -> (r: PciBitReadOnly)
        ensures
            r == (PciBitReadOnly {
                offset: self.offset,
                width: PciRegisterWidth::W16,
                mask: 0x80u32,
            }),
    {
        PciBitReadOnly::backed_by(self.offset, PciRegisterWidth::W16, 0x80u32)
    }

    /// The write-1-to-clear "Master Data Parity Error" bit.
    pub fn master_data_parity_error(&self) -> (r: PciBitReadClear)
        ensures
            r == (PciBitReadClear {
                rw: PciBitReadWrite {
                    offset: self.offset,
                    width: PciRegisterWidth::W16,
                    mask: 0x100u32,
                    write_mask: PCI_STATUS_WRITE_MASK,
                },
            }),
            r.spec_wf(),
    {
        PciBitReadClear::backed_by(self.offset, PciRegisterWidth::W16, 0x100u32, PCI_STATUS_WRITE_MASK)
    }

    /// The read-only "DEVSEL Timing" bits at positions 9 and 10.
    pub fn devsel_timing(&self) -> (r: PciBitsReadOnly)
        ensures
            r == (PciBitsReadOnly {
                offset: self.offset,
                width: PciRegisterWidth::W16,
                mask: 0x600u32,
                shift: 9,
            }),
            r.spec_wf(),
    {
        PciBitsReadOnly::backed_by(self.offset, PciRegisterWidth::W16, 0x600u32, 9)
    }

    /// The write-1-to-clear "Signaled Target Abort" bit.
    pub fn signaled_target_abort(&self) -> (r: PciBitReadClear)
        ensures
            r == (PciBitReadClear {
                rw: PciBitReadWrite {
                    offset: self.offset,
                    width: PciRegisterWidth::W16,
                    mask: 0x800u32,
                    write_mask: PCI_STATUS_WRITE_MASK,
                },
            }),
            r.spec_wf(),
    {
        PciBitReadClear::backed_by(self.offset, PciRegisterWidth::W16, 0x800u32, PCI_STATUS_WRITE_MASK)
    }

    /// The write-1-to-clear "Received Target Abort" bit.
    pub fn received_target_abort(&self) -> (r: PciBitReadClear)
        ensures
            r == (PciBitReadClear {
                rw: PciBitReadWrite {
                    offset: self.offset,
                    width: PciRegisterWidth::W16,
                    mask: 0x1000u32,
                    write_mask: PCI_STATUS_WRITE_MASK,
                },
            }),
            r.spec_wf(),
    {
        PciBitReadClear::backed_by(self.offset, PciRegisterWidth::W16, 0x1000u32, PCI_STATUS_WRITE_MASK)
    }

    /// The write-1-to-clear "Received Master Abort" bit.
    pub fn received_master_abort(&self) -> (r: PciBitReadClear)
        ensures
            r == (PciBitReadClear {
                rw: PciBitReadWrite {
                    offset: self.offset,
                    width: PciRegisterWidth::W16,
                    mask: 0x2000u32,
                    write_mask: PCI_STATUS_WRITE_MASK,
                },
            }),
            r.spec_wf(),
    {
        PciBitReadClear::backed_by(self.offset, PciRegisterWidth::W16, 0x2000u32, PCI_STATUS_WRITE_MASK)
    }

    /// The write-1-to-clear "Signaled System Error" bit.
    pub fn signaled_system_error(&self) -> (r: PciBitReadClear)
        ensures
            r == (PciBitReadClear {
                rw: PciBitReadWrite {
                    offset: self.offset,
                    width: PciRegisterWidth::W16,
                    mask: 0x4000u32,
                    write_mask: PCI_STATUS_WRITE_MASK,
                },
            }),
            r.spec_wf(),
    {
        PciBitReadClear::backed_by(self.offset, PciRegisterWidth::W16, 0x4000u32, PCI_STATUS_WRITE_MASK)
    }

    /// The write-1-to-clear "Detected Parity Error" bit.
    pub fn detected_parity_error(&self) -> (r: PciBitReadClear)
        ensures
            r == (PciBitReadClear {
                rw: PciBitReadWrite {
                    offset: self.offset,
                    width: PciRegisterWidth::W16,
                    mask: 0x8000u32,
                    write_mask: PCI_STATUS_WRITE_MASK,
                },
            }),
            r.spec_wf(),
    {
        PciBitReadClear::backed_by(self.offset, PciRegisterWidth::W16, 0x8000u32, PCI_STATUS_WRITE_MASK)
    }
}

// 7.5.1.1.6 Class Code Register

/// The "Class Code" register group: three consecutive read-only 8-bit
/// registers.
#[derive(Clone, Copy, Debug, PartialEq, Eq, Structural)]
pub struct PciClassCode {
    /// The window holding the three registers.
    pub window: PciSubregion,
}

impl PciClassCode {
    /// The window does not wrap around the address space.
    pub open spec fn spec_wf(self) -> bool {
        self.window.spec_wf()
    }

    /// The "Class Code" group at the start of the given window, narrowed to
    /// its three bytes.
    pub fn backed_by(window: PciSubregion) -> (r: PciClassCode)
        requires
            window.spec_wf(),
        ensures
            r == (PciClassCode { window: window.spec_subregion(0x00, 0x03) }),
            r.spec_wf(),
    {
        PciClassCode { window: window.subregion(0x00, 0x03) }
    }

    /// The read-only "Base Class Code" register.
    pub fn base_class_code(&self) -> (r: PciRegisterRo)
        requires
            self.spec_wf(),
        ensures
            r.width == PciRegisterWidth::W8,
            r.offset == self.window.spec_subregion(0x00, u64::MAX).offset,
    {
        PciRegisterRo::backed_by(self.window.subregion(0x00, u64::MAX), PciRegisterWidth::W8)
    }

    /// The read-only "Sub-Class Code" register.
    pub fn sub_class_code(&self) -> (r: PciRegisterRo)
        requires
            self.spec_wf(),
        ensures
            r.width == PciRegisterWidth::W8,
            r.offset == self.window.spec_subregion(0x01, u64::MAX).offset,
    {
        PciRegisterRo::backed_by(self.window.subregion(0x01, u64::MAX), PciRegisterWidth::W8)
    }

    /// The read-only "Programming Interface" register.
    pub fn programming_interface(&self) -> (r: PciRegisterRo)
        requires
            self.spec_wf(),
        ensures
            r.width == PciRegisterWidth::W8,
            r.offset == self.window.spec_subregion(0x02, u64::MAX).offset,
    {
        PciRegisterRo::backed_by(self.window.subregion(0x02, u64::MAX), PciRegisterWidth::W8)
    }
}

// 7.5.1.1.9 Header Type Register

/// The "Header Type" register: an 8-bit read-only bit field.
#[derive(Clone, Copy, Debug, PartialEq, Eq, Structural)]
pub struct PciHeaderType {
    /// Offset of the register in the region.
    pub offset: u64,
}

impl PciHeaderType {
    /// The "Header Type" register at the start of the given window.
    pub fn backed_by(window: PciSubregion) -> (r: PciHeaderType)
        ensures
            r == (PciHeaderType { offset: window.offset }),
    {
        PciHeaderType { offset: window.offset }
    }

    /// The read-only "Header Layout" bits at positions 0 through 6.
    pub fn header_layout(&self) -> (r: PciBitsReadOnly)
        ensures
            r == (PciBitsReadOnly {
                offset: self.offset,
                width: PciRegisterWidth::W8,
                mask: 0x7f,
                shift: 0,
            }),
            r.spec_wf(),
    {
        PciBitsReadOnly::backed_by(self.offset, PciRegisterWidth::W8, 0x7f, 0)
    }

    /// The read-only "Multi-Function Device" bit.
    pub fn multi_function_device(&self) -> (r: PciBitReadOnly)
        ensures
            r == (PciBitReadOnly {
                offset: self.offset,
                width: PciRegisterWidth::W8,
                mask: 0x80u32,
            }),
    {
        PciBitReadOnly::backed_by(self.offset, PciRegisterWidth::W8, 0x80u32)
    }
}

// 7.5.1.1.10 BIST Register

/// The "BIST" register: an 8-bit read-write bit field.
#[derive(Clone, Copy, Debug, PartialEq, Eq, Structural)]
pub struct PciBist {
    /// Offset of the register in the region.
    pub offset: u64,
}

impl PciBist {
    /// The "BIST" register at the start of the given window.
    pub fn backed_by(window: PciSubregion) -> (r: PciBist)
        ensures
            r == (PciBist { offset: window.offset }),
    {
        PciBist { offset: window.offset }
    }

    /// The read-only "Completion Code" bits at positions 0 through 3.
    pub fn completion_code(&self) -> (r: PciBitsReadOnly)
        ensures
            r == (PciBitsReadOnly {
                offset: self.offset,
                width: PciRegisterWidth::W8,
                mask: 0x0f,
                shift: 0,
            }),
            r.spec_wf(),
    {
        PciBitsReadOnly::backed_by(self.offset, PciRegisterWidth::W8, 0x0f, 0)
    }

    /// The read-write "Start BIST" bit.
    pub fn start_bist(&self) -> (r: PciBitReadWrite)
        ensures
            r == (PciBitReadWrite {
                offset: self.offset,
                width: PciRegisterWidth::W8,
                mask: 0x40u32,
                write_mask: PCI_BIST_WRITE_MASK,
            }),
            r.spec_wf(),
    {
        PciBitReadWrite::backed_by(self.offset, PciRegisterWidth::W8, 0x40u32, PCI_BIST_WRITE_MASK)
    }

    /// The read-only "BIST Capable" bit.
    pub fn bist_capable(&self) -> (r: PciBitReadOnly)
        ensures
            r == (PciBitReadOnly {
                offset: self.offset,
                width: PciRegisterWidth::W8,
                mask: 0x80u32,
            }),
    {
        PciBitReadOnly::backed_by(self.offset, PciRegisterWidth::W8, 0x80u32)
    }
}

} // verus!
