//! Discovery of the Extended Capabilities described in the PCI
//! configuration space.
//!
//! Extended Capabilities live in the window `[0x100, 0x1000)` of the
//! extended configuration space and form a singly linked list of 32-bit
//! headers, the first one fixed at `0x100`.  Only PCI Express devices have
//! extended capabilities, so the scan first looks for the PCI Express
//! capability in the legacy list and yields an empty result otherwise,
//! rather than misreading whatever sits at `0x100`.  As with the legacy
//! list, every offset is checked and the walk is bounded by the number of
//! minimally-sized entries the window can hold, failing with
//! [`PciError::InvalidInput`] either way.
//!
//! For plain old non-extended Capabilities, see [`crate::config::caps`].

use vstd::prelude::*;

use crate::config::caps::{
    lemma_matching_caps_nonempty, spec_cap_chain, spec_cap_start, spec_cap_window,
    spec_cap_windows, spec_caps_present, spec_matching_caps, Capability, PciCapabilities,
    PciExpressCapability,
};
use crate::config::PciConfig;
use crate::errors::PciError;
use crate::regions::structured::{spec_register_value, PciBitsReadOnly, PciRegisterWidth};
use crate::regions::{PciMemoryRegion, PciSubregion};

verus! {

/// The number of entries the extended capability window can hold at most:
/// one per two bytes of `[0x100, 0x1000)`.  A walk that visits more entries
/// than this must have revisited one, i.e. the list has a cycle.
pub const EXT_CAP_ITERATIONS_UPPER_BOUND: usize = (0x1000 - 0x100) / 2;

/// The 32-bit extended capability header at `c + cur`.
pub open spec fn spec_ext_cap_header(bytes: Seq<u8>, c: int, cur: u16) -> u32 {
    spec_register_value(bytes, (c + cur) as u64, PciRegisterWidth::W32)
}

/// The "next capability" offset of the extended capability at `cur`: bits
/// 20 through 31 of its header, masked to a multiple of four.
pub open spec fn spec_ext_cap_next(bytes: Seq<u8>, c: int, cur: u16) -> u16 {
    ((((spec_ext_cap_header(bytes, c, cur) & 0xfff0_0000) >> 20) & 0xfffc)) as u16
}

/// The offsets the extended capability list walk visits from `cur` on, or
/// `None` if the walk leaves the legal window `[0x100, 0x1000)`, visits an
/// odd offset, or does not end within `fuel` entries.
pub open spec fn spec_ext_cap_chain(bytes: Seq<u8>, c: int, cur: u16, fuel: nat) -> Option<
    Seq<u16>,
>
    decreases fuel,
{
    if cur == 0 {
        Some(Seq::empty())
    } else if cur < 0x100 || cur >= 0x1000 {
        None
    } else if cur % 2 != 0 {
        None
    } else if fuel == 0 {
        None
    } else {
        match spec_ext_cap_chain(bytes, c, spec_ext_cap_next(bytes, c, cur), (fuel - 1) as nat) {
            Some(rest) => Some(seq![cur] + rest),
            None => None,
        }
    }
}

/// The window of the extended capability at offset `o` of a configuration
/// space starting at `c`: from the entry to the end of the extended window.
pub open spec fn spec_ext_cap_window(c: int, o: u16) -> PciSubregion {
    PciSubregion { offset: (c + o) as u64, length: (0x1000 - o) as u64 }
}

/// The windows of the extended capabilities at the offsets `offs` of a
/// configuration space starting at `c`.
pub open spec fn spec_ext_cap_windows(c: int, offs: Seq<u16>) -> Seq<PciSubregion> {
    offs.map_values(|o: u16| spec_ext_cap_window(c, o))
}

/// Whether the legacy capability list of the configuration space starting
/// at `c` contains the PCI Express capability, i.e. whether the device is a
/// PCI Express device.
pub open spec fn spec_has_pcie(bytes: Seq<u8>, c: int) -> bool {
    if !spec_caps_present(bytes, c) {
        false
    } else {
        match spec_cap_chain(bytes, c, spec_cap_start(bytes, c), 192) {
            Some(offs) => exists|i: int|
                0 <= i < offs.len() && bytes[c + #[trigger] offs[i]] == 0x10,
            None => false,
        }
    }
}

/// The header of an Extended Capability: a 32-bit read-only bit field
/// holding the capability ID, its version, and the link to the next
/// capability.
#[derive(Clone, Copy, Debug, PartialEq, Eq, Structural)]
pub struct ExtendedCapabilityHeader {
    /// Offset of the header in the region.
    pub offset: u64,
}

impl ExtendedCapabilityHeader {
    /// The extended capability header at the start of the given window.
    pub fn backed_by(window: PciSubregion) -> (r: ExtendedCapabilityHeader)
        ensures
            r == (ExtendedCapabilityHeader { offset: window.offset }),
    {
        ExtendedCapabilityHeader { offset: window.offset }
    }

    /// The read-only "Capability ID" bits at positions 0 through 15.
    pub fn capability_id(&self) -> (r: PciBitsReadOnly)
        ensures
            r == (PciBitsReadOnly {
                offset: self.offset,
                width: PciRegisterWidth::W32,
                mask: 0xffff,
                shift: 0,
            }),
            r.spec_wf(),
    {
        PciBitsReadOnly::backed_by(self.offset, PciRegisterWidth::W32, 0xffff, 0)
    }

    /// The read-only "Capability Version" bits at positions 16 through 19.
    pub fn capability_version(&self) -> (r: PciBitsReadOnly)
        ensures
            r == (PciBitsReadOnly {
                offset: self.offset,
                width: PciRegisterWidth::W32,
                mask: 0xf_0000,
                shift: 16,
            }),
            r.spec_wf(),
    {
        PciBitsReadOnly::backed_by(self.offset, PciRegisterWidth::W32, 0xf_0000, 16)
    }

    /// The read-only "Next Capability Offset" bits at positions 20 through
    /// 31.
    ///
    /// This need not be used directly: [`PciExtendedCapabilities`] iterates
    /// over the extended capability list.
    pub fn next_capability_offset(&self) -> (r: PciBitsReadOnly)
        ensures
            r == (PciBitsReadOnly {
                offset: self.offset,
                width: PciRegisterWidth::W32,
                mask: 0xfff0_0000,
                shift: 20,
            }),
            r.spec_wf(),
    {
        PciBitsReadOnly::backed_by(self.offset, PciRegisterWidth::W32, 0xfff0_0000, 20)
    }
}

/// Some specific type of PCI Extended Capability: a value of an
/// implementing type is a typed view of one matching extended capability
/// entry.
pub trait ExtendedCapability: Sized + Copy {
    /// The window the typed capability occupies, narrowed to its true
    /// length.
    spec fn spec_window(&self) -> PciSubregion;

    /// Whether the extended capability entry whose window is `w` matches
    /// this type: its capability ID and minimum version, and for some types
    /// a further discriminator read from the entry itself.
    spec fn spec_matches(bytes: Seq<u8>, w: PciSubregion) -> bool;

    /// The true length of a matching entry.
    spec fn spec_length(bytes: Seq<u8>, w: PciSubregion) -> u64;

    /// Whether every field that matching and sizing must probe can be read.
    spec fn spec_probes_ok(bytes: Seq<u8>, w: PciSubregion) -> bool;

    /// Tries to create a typed view of the extended capability entry whose
    /// window is `window`.  A non-matching entry yields `Ok(None)`; only a
    /// failure to read a probed field is an error.
    fn backed_by(region: &PciMemoryRegion, window: PciSubregion) -> (r: Result<
        Option<Self>,
        PciError,
    >)
        requires
            window.spec_wf(),
        ensures
            Self::spec_probes_ok(region@, window) ==> (match r {
                Ok(Some(c)) => Self::spec_matches(region@, window) && c.spec_window()
                    == window.spec_subregion(0, Self::spec_length(region@, window))
                    && c.spec_window().spec_wf(),
                Ok(None) => !Self::spec_matches(region@, window),
                Err(_) => false,
            }),
    ;

    /// Returns the window the typed capability occupies.
    fn as_subregion(&self) -> (w: PciSubregion)
        ensures
            w == self.spec_window(),
    ;

    /// The header of the Extended Capability.
    fn header(&self) -> (h: ExtendedCapabilityHeader)
        ensures
            h == (ExtendedCapabilityHeader { offset: self.spec_window().offset }),
    ;
}

/// Lets you inspect and manipulate the PCI Extended Capabilities defined in
/// the configuration space of some PCI device.
#[derive(Clone, Debug)]
pub struct PciExtendedCapabilities {
    cap_subregions: Vec<PciSubregion>,
}

impl PciExtendedCapabilities {
    /// The windows of the discovered extended capabilities, in discovery
    /// order.
    pub closed spec fn spec_windows(&self) -> Seq<PciSubregion> {
        self.cap_subregions@
    }

    /// Every discovered window is well formed.
    pub open spec fn spec_wf(&self) -> bool {
        forall|i: int|
            0 <= i < self.spec_windows().len() ==> (#[trigger] self.spec_windows()[i]).spec_wf()
    }

    /// Walks the extended capability list of the given configuration space
    /// and records one window per discovered capability.
    ///
    /// A configuration space shorter than `0x1000` bytes is rejected; a
    /// device without the PCI Express capability in its legacy list yields
    /// an empty result; a list entry outside `[0x100, 0x1000)`, an odd
    /// entry offset, or a walk that exceeds
    /// [`EXT_CAP_ITERATIONS_UPPER_BOUND`] entries (a cycle) is an error.
    pub fn backed_by(region: &PciMemoryRegion, config_space: PciConfig) -> (r: Result<
        PciExtendedCapabilities,
        PciError,
    >)
        requires
            config_space.spec_wf(),
        ensures
            config_space.window.length < 0x1000 ==> r == Err::<PciExtendedCapabilities, PciError>(
                PciError::InvalidInput,
            ),
            r matches Ok(caps) ==> caps.spec_wf(),
            ({
                let b = region@;
                let c = config_space.window.offset as int;
                config_space.window.length >= 0x1000 && config_space.window.spec_valid_for(
                    b.len() as int,
                ) && c % 4 == 0 ==> {
                    if spec_caps_present(b, c) && spec_cap_chain(b, c, spec_cap_start(b, c), 192)
                        is None {
                        r == Err::<PciExtendedCapabilities, PciError>(PciError::InvalidInput)
                    } else if !spec_has_pcie(b, c) {
                        r matches Ok(caps) && caps.spec_windows() == Seq::<PciSubregion>::empty()
                    } else {
                        match spec_ext_cap_chain(b, c, 0x100, 1920) {
                            Some(offs) => r matches Ok(caps) && caps.spec_windows()
                                == spec_ext_cap_windows(c, offs),
                            None => r == Err::<PciExtendedCapabilities, PciError>(
                                PciError::InvalidInput,
                            ),
                        }
                    }
                }
            }),
    {
        let ghost b = region@;
        let ghost c = config_space.window.offset as int;
        let ghost guard = config_space.window.length >= 0x1000
            && config_space.window.spec_valid_for(b.len() as int) && c % 4 == 0;

        if config_space.window.len() < 0x1000 {
            return Err(PciError::InvalidInput);
        }

        // Scanning the legacy list is somewhat expensive, but ensures we
        // don't give unexpected results when the device is not PCI Express.
        let legacy = match PciCapabilities::backed_by(region, config_space) {
            Ok(l) => l,
            Err(e) => {
                return Err(e);
            },
        };
        proof {
            if guard {
                assert forall|i: int| 0 <= i < legacy.spec_windows().len()
                    implies PciExpressCapability::spec_probes_ok(
                    b,
                    #[trigger] legacy.spec_windows()[i],
                ) by {
                    if spec_caps_present(b, c) {
                        match spec_cap_chain(b, c, spec_cap_start(b, c), 192) {
                            Some(offs) => {
                                assert(legacy.spec_windows()[i] == spec_cap_window(c, offs[i]));
                            },
                            None => {},
                        }
                    }
                }
            }
        }
        let mut pcie_iter = match legacy.of_type::<PciExpressCapability>(region) {
            Ok(it) => it,
            Err(e) => {
                proof {
                    if guard {
                        assert(false);
                    }
                }
                return Err(e);
            },
        };
        let has_pcie = pcie_iter.next().is_some();
        proof {
            if guard {
                lemma_matching_caps_nonempty::<PciExpressCapability>(
                    b,
                    legacy.spec_windows(),
                    legacy.spec_windows().len() as int,
                );
                assert(has_pcie == (pcie_iter.spec_caps().len() > 0));
                assert(pcie_iter.spec_caps().len() == spec_matching_caps::<PciExpressCapability>(
                    b,
                    legacy.spec_windows(),
                    legacy.spec_windows().len() as int,
                ).len());
                if spec_caps_present(b, c) {
                    match spec_cap_chain(b, c, spec_cap_start(b, c), 192) {
                        Some(offs) => {
                            assert(legacy.spec_windows() == spec_cap_windows(c, offs));
                            assert(has_pcie == spec_has_pcie(b, c)) by {
                                if exists|i: int|
                                    0 <= i < legacy.spec_windows().len()
                                        && PciExpressCapability::spec_matches(
                                        b,
                                        #[trigger] legacy.spec_windows()[i],
                                    ) {
                                    let i = choose|i: int|
                                        0 <= i < legacy.spec_windows().len()
                                            && PciExpressCapability::spec_matches(
                                            b,
                                            #[trigger] legacy.spec_windows()[i],
                                        );
                                    assert(legacy.spec_windows()[i] == spec_cap_window(c, offs[i]));
                                    assert(b[c + offs[i]] == 0x10);
                                }
                                if exists|i: int|
                                    0 <= i < offs.len() && b[c + #[trigger] offs[i]] == 0x10 {
                                    let i = choose|i: int|
                                        0 <= i < offs.len() && b[c + #[trigger] offs[i]] == 0x10;
                                    assert(legacy.spec_windows()[i] == spec_cap_window(c, offs[i]));
                                    assert(PciExpressCapability::spec_matches(
                                        b,
                                        legacy.spec_windows()[i],
                                    ));
                                }
                            }
                        },
                        None => {},
                    }
                } else {
                    assert(legacy.spec_windows() =~= Seq::<PciSubregion>::empty());
                    assert(spec_matching_caps::<PciExpressCapability>(
                        b,
                        legacy.spec_windows(),
                        0,
                    ).len() == 0);
                    assert(!has_pcie);
                }
            }
        }
        if !has_pcie {
            return Ok(PciExtendedCapabilities { cap_subregions: Vec::new() });
        }

        let mut next_cap_offset: u16 = 0x100;  // there's always at least one extended capability
        let ghost start: u16 = 0x100;

        let mut cap_subregions: Vec<PciSubregion> = Vec::new();
        let ghost mut offs: Seq<u16> = Seq::empty();

        proof {
            if guard {
                match spec_ext_cap_chain(b, c, start, 1920) {
                    Some(rest) => {
                        assert(offs + rest =~= rest);
                    },
                    None => {},
                }
            }
            assert(cap_subregions@ =~= spec_ext_cap_windows(c, offs));
        }

        while next_cap_offset != 0x000
            invariant
                config_space.spec_wf(),
                b == region@,
                c == config_space.window.offset as int,
                guard == (config_space.window.length >= 0x1000
                    && config_space.window.spec_valid_for(b.len() as int) && c % 4 == 0),
                config_space.window.length >= 0x1000,
                guard ==> spec_has_pcie(b, c),
                guard ==> !(spec_caps_present(b, c) && spec_cap_chain(
                    b,
                    c,
                    spec_cap_start(b, c),
                    192,
                ) is None),
                start == 0x100,
                next_cap_offset % 4 == 0,
                cap_subregions@.len() == offs.len(),
                cap_subregions@.len() <= 1920,
                cap_subregions@ == spec_ext_cap_windows(c, offs),
                forall|i: int|
                    0 <= i < cap_subregions@.len() ==> (
                    #[trigger] cap_subregions@[i]).spec_wf(),
                guard ==> spec_ext_cap_chain(b, c, start, 1920) == (match spec_ext_cap_chain(
                    b,
                    c,
                    next_cap_offset,
                    (1920 - cap_subregions@.len()) as nat,
                ) {
                    Some(rest) => Some(offs + rest),
                    None => None::<Seq<u16>>,
                }),
            decreases 1921 - cap_subregions@.len(),
        {
            let ghost fuel = (1920 - cap_subregions@.len()) as nat;
            if next_cap_offset < 0x100 || next_cap_offset >= 0x1000 {
                return Err(PciError::InvalidInput);
            }
            if next_cap_offset % 2 != 0 {
                return Err(PciError::InvalidInput);
            }
            if cap_subregions.len() == EXT_CAP_ITERATIONS_UPPER_BOUND {
                proof {
                    assert(guard ==> spec_ext_cap_chain(b, c, start, 1920) is None);
                }
                return Err(PciError::InvalidInput);
            }
            let cap_subregion = config_space.window.subregion(next_cap_offset as u64, 0x1000);
            let cap_header = ExtendedCapabilityHeader::backed_by(cap_subregion);

            cap_subregions.push(cap_subregion);
            let ghost cur = next_cap_offset;
            proof {
                assert(cap_subregion == spec_ext_cap_window(c, cur));
                offs = offs.push(cur);
                assert(cap_subregions@ =~= spec_ext_cap_windows(c, offs));
            }

            let next_value = match cap_header.next_capability_offset().read(region) {
                Ok(v) => v,
                Err(e) => {
                    proof {
                        if guard {
                            assert(c + cur + 4 <= b.len());
                            assert((c + cur) % 4 == 0);
                            assert(false);
                        }
                    }
                    return Err(e);
                },
            };
            let masked: u32 = next_value & 0xfffc;
            proof {
                let y = next_value;
                assert((y & 0xfffc) % 4 == 0 && (y & 0xfffc) <= 0xfffc) by (bit_vector);
            }
            next_cap_offset = masked as u16;
            proof {
                if guard {
                    assert(c + cur + 4 <= b.len());
                    assert((c + cur) % 4 == 0);
                    assert(next_value == ((spec_ext_cap_header(b, c, cur) & 0xfff0_0000) >> 20));
                    assert(next_cap_offset == spec_ext_cap_next(b, c, cur));
                    match spec_ext_cap_chain(b, c, next_cap_offset, (fuel - 1) as nat) {
                        Some(rest) => {
                            assert(spec_ext_cap_chain(b, c, cur, fuel) == Some(seq![cur] + rest));
                            assert(offs.drop_last() + (seq![cur] + rest) =~= offs + rest);
                        },
                        None => {
                            assert(spec_ext_cap_chain(b, c, cur, fuel) is None);
                        },
                    }
                }
            }
        }
        proof {
            if guard {
                assert(spec_ext_cap_chain(b, c, 0, (1920 - cap_subregions@.len()) as nat)
                    == Some(Seq::<u16>::empty()));
                assert(offs + Seq::<u16>::empty() =~= offs);
            }
        }
        Ok(PciExtendedCapabilities { cap_subregions })
    }

    /// Returns an iterator over all extended capabilities.
    pub fn iter(&self, region: &PciMemoryRegion) -> (r: PciExtendedCapabilitiesIter<
        UnspecifiedExtendedCapability,
    >)
        requires
            self.spec_wf(),
        ensures
            r.spec_pos() == 0,
            r.spec_caps().map_values(|cc: UnspecifiedExtendedCapability| cc.spec_window())
                == spec_matching_ext_caps::<UnspecifiedExtendedCapability>(
                region@,
                self.spec_windows(),
                self.spec_windows().len() as int,
            ),
            forall|k: int|
                0 <= k < r.spec_caps().len() ==> (
                #[trigger] r.spec_caps()[k]).spec_window().spec_wf(),
    {
        match self.of_type::<UnspecifiedExtendedCapability>(region) {
            Ok(it) => it,
            Err(_) => vstd::pervasive::unreached(),
        }
    }

    /// Returns an iterator over the extended capabilities that can be
    /// represented by `C`, by trying [`ExtendedCapability::backed_by`] on
    /// every discovered entry.
    pub fn of_type<C: ExtendedCapability>(&self, region: &PciMemoryRegion) -> (r: Result<
        PciExtendedCapabilitiesIter<C>,
        PciError,
    >)
        requires
            self.spec_wf(),
        ensures
            (forall|i: int|
                0 <= i < self.spec_windows().len() ==> C::spec_probes_ok(
                    region@,
                    #[trigger] self.spec_windows()[i],
                )) ==> (r matches Ok(it) && it.spec_pos() == 0 && it.spec_caps().map_values(
                |cc: C| cc.spec_window(),
            ) == spec_matching_ext_caps::<C>(
                region@,
                self.spec_windows(),
                self.spec_windows().len() as int,
            ) && (forall|k: int|
                0 <= k < it.spec_caps().len() ==> (
                #[trigger] it.spec_caps()[k]).spec_window().spec_wf())),
            r is Err ==> !(forall|i: int|
                0 <= i < self.spec_windows().len() ==> C::spec_probes_ok(
                    region@,
                    #[trigger] self.spec_windows()[i],
                )),
    {
        let mut caps: Vec<C> = Vec::new();
        let n = self.cap_subregions.len();
        proof {
            assert(caps@.map_values(|cc: C| cc.spec_window()) =~= spec_matching_ext_caps::<C>(
                region@,
                self.spec_windows(),
                0,
            ));
        }
        for i in 0..n
            invariant
                n == self.spec_windows().len(),
                self.spec_wf(),
                (forall|j: int|
                    0 <= j < i ==> C::spec_probes_ok(region@, #[trigger] self.spec_windows()[j]))
                    ==> {
                    &&& caps@.map_values(|cc: C| cc.spec_window()) == spec_matching_ext_caps::<C>(
                        region@,
                        self.spec_windows(),
                        i as int,
                    )
                    &&& forall|k: int|
                        0 <= k < caps@.len() ==> (#[trigger] caps@[k]).spec_window().spec_wf()
                },
        {
            let w = self.cap_subregions[i];
            let ghost caps0 = caps@;
            match C::backed_by(region, w) {
                Ok(Some(c)) => {
                    caps.push(c);
                    proof {
                        if forall|j: int|
                            0 <= j <= i ==> C::spec_probes_ok(
                                region@,
                                #[trigger] self.spec_windows()[j],
                            ) {
                            assert(C::spec_probes_ok(region@, self.spec_windows()[i as int]));
                            assert(caps@.map_values(|cc: C| cc.spec_window())
                                =~= caps0.map_values(|cc: C| cc.spec_window()).push(
                                c.spec_window(),
                            ));
                            assert(caps@.map_values(|cc: C| cc.spec_window())
                                =~= spec_matching_ext_caps::<C>(
                                region@,
                                self.spec_windows(),
                                i + 1,
                            ));
                        }
                    }
                },
                Ok(None) => {
                    proof {
                        if forall|j: int|
                            0 <= j <= i ==> C::spec_probes_ok(
                                region@,
                                #[trigger] self.spec_windows()[j],
                            ) {
                            assert(C::spec_probes_ok(region@, self.spec_windows()[i as int]));
                            assert(caps@.map_values(|cc: C| cc.spec_window())
                                =~= spec_matching_ext_caps::<C>(
                                region@,
                                self.spec_windows(),
                                i + 1,
                            ));
                        }
                    }
                },
                Err(e) => {
                    proof {
                        if C::spec_probes_ok(region@, w) {
                            assert(false);
                        }
                    }
                    return Err(e);
                },
            }
        }
        Ok(PciExtendedCapabilitiesIter { caps, pos: 0 })
    }

    /// Consumes the list, yielding an iterator over all extended
    /// capabilities.
    pub fn into_iter(self) -> (r: PciExtendedCapabilitiesIntoIter)
        requires
            self.spec_wf(),
        ensures
            r.spec_windows() == self.spec_windows(),
            r.spec_pos() == 0,
            r.spec_wf(),
    {
        PciExtendedCapabilitiesIntoIter { windows: self.cap_subregions, pos: 0 }
    }
}

/// The narrowed windows of the entries among the first `n` of `windows`
/// that match the extended capability type `C`, in discovery order.
pub open spec fn spec_matching_ext_caps<C: ExtendedCapability>(
    bytes: Seq<u8>,
    windows: Seq<PciSubregion>,
    n: int,
) -> Seq<PciSubregion>
    decreases n,
{
    if n <= 0 {
        Seq::empty()
    } else {
        let prev = spec_matching_ext_caps::<C>(bytes, windows, n - 1);
        let w = windows[n - 1];
        if C::spec_matches(bytes, w) {
            prev.push(w.spec_subregion(0, C::spec_length(bytes, w)))
        } else {
            prev
        }
    }
}

/// An iterator over all PCI Extended Capabilities of a device.
pub struct PciExtendedCapabilitiesIntoIter {
    windows: Vec<PciSubregion>,
    pos: usize,
}

impl PciExtendedCapabilitiesIntoIter {
    /// The windows of the extended capabilities being iterated over.
    pub closed spec fn spec_windows(&self) -> Seq<PciSubregion> {
        self.windows@
    }

    /// How many extended capabilities have been yielded so far.
    pub closed spec fn spec_pos(&self) -> int {
        self.pos as int
    }

    /// Every window is well formed.
    pub open spec fn spec_wf(&self) -> bool {
        forall|i: int|
            0 <= i < self.spec_windows().len() ==> (#[trigger] self.spec_windows()[i]).spec_wf()
    }

    /// The next extended capability, or `None` after the last one.
    pub fn next(&mut self) -> (r: Option<UnspecifiedExtendedCapability>)
        requires
            old(self).spec_wf(),
        ensures
            final(self).spec_windows() == old(self).spec_windows(),
            final(self).spec_wf(),
            old(self).spec_pos() < old(self).spec_windows().len() ==> {
                &&& final(self).spec_pos() == old(self).spec_pos() + 1
                &&& r matches Some(c) && c.spec_window() == old(self).spec_windows()[old(
                    self,
                ).spec_pos()].spec_subregion(0, 4)
            },
            old(self).spec_pos() >= old(self).spec_windows().len() ==> {
                &&& final(self).spec_pos() == old(self).spec_pos()
                &&& r is None
            },
    {
        if self.pos < self.windows.len() {
            let w = self.windows[self.pos];
            self.pos = self.pos + 1;
            Some(UnspecifiedExtendedCapability { window: w.subregion(0, 0x004) })
        } else {
            None
        }
    }
}

/// An iterator over a device's PCI Extended Capabilities of a certain
/// type.
pub struct PciExtendedCapabilitiesIter<C: ExtendedCapability> {
    caps: Vec<C>,
    pos: usize,
}

impl<C: ExtendedCapability> PciExtendedCapabilitiesIter<C> {
    /// The typed extended capabilities being iterated over.
    pub closed spec fn spec_caps(&self) -> Seq<C> {
        self.caps@
    }

    /// How many extended capabilities have been yielded so far.
    pub closed spec fn spec_pos(&self) -> int {
        self.pos as int
    }

    /// The next extended capability, or `None` after the last one.
    pub fn next(&mut self) -> (r: Option<C>)
        ensures
            final(self).spec_caps() == old(self).spec_caps(),
            old(self).spec_pos() < old(self).spec_caps().len() ==> {
                &&& final(self).spec_pos() == old(self).spec_pos() + 1
                &&& r == Some(old(self).spec_caps()[old(self).spec_pos()])
            },
            old(self).spec_pos() >= old(self).spec_caps().len() ==> {
                &&& final(self).spec_pos() == old(self).spec_pos()
                &&& r is None
            },
    {
        if self.pos < self.caps.len() {
            let c = self.caps[self.pos];
            self.pos = self.pos + 1;
            Some(c)
        } else {
            None
        }
    }

    /// How many extended capabilities are left to yield.
    pub fn remaining(&self) -> (n: usize)
        ensures
            n == self.spec_caps().len() - self.spec_pos() || (self.spec_pos()
                > self.spec_caps().len() && n == 0),
    {
        if self.pos <= self.caps.len() {
            self.caps.len() - self.pos
        } else {
            0
        }
    }
}

/// The capability ID of the extended capability whose window is `w`: bits
/// 0 through 15 of its header.
pub open spec fn spec_ext_id(bytes: Seq<u8>, w: PciSubregion) -> u32 {
    spec_register_value(bytes, w.offset, PciRegisterWidth::W32) & 0xffff
}

/// The capability version of the extended capability whose window is `w`:
/// bits 16 through 19 of its header.
pub open spec fn spec_ext_version(bytes: Seq<u8>, w: PciSubregion) -> u32 {
    (spec_register_value(bytes, w.offset, PciRegisterWidth::W32) & 0xf_0000) >> 16
}

/// Whether the header of the extended capability whose window is `w` can
/// be read.
pub open spec fn spec_ext_header_probe_ok(bytes: Seq<u8>, w: PciSubregion) -> bool {
    w.offset + 4 <= bytes.len() && w.offset % 4 == 0
}

/// Some/any PCI Extended Capability, seen only through its header.
#[derive(Clone, Copy, Debug)]
pub struct UnspecifiedExtendedCapability {
    window: PciSubregion,
}

impl ExtendedCapability for UnspecifiedExtendedCapability {
    closed spec fn spec_window(&self) -> PciSubregion {
        self.window
    }

    open spec fn spec_matches(bytes: Seq<u8>, w: PciSubregion) -> bool {
        true
    }

    open spec fn spec_length(bytes: Seq<u8>, w: PciSubregion) -> u64 {
        0x004
    }

    open spec fn spec_probes_ok(bytes: Seq<u8>, w: PciSubregion) -> bool {
        true
    }

    fn backed_by(region: &PciMemoryRegion, window: PciSubregion) -> (r: Result<
        Option<Self>,
        PciError,
    >) {
        Ok(Some(UnspecifiedExtendedCapability { window: window.subregion(0, 0x004) }))
    }

    fn as_subregion(&self) -> (w: PciSubregion) {
        self.window
    }

    fn header(&self) -> (h: ExtendedCapabilityHeader) {
        ExtendedCapabilityHeader::backed_by(self.window)
    }
}

// 7.9.5 Vendor-Specific Extended Capability

/// The "VSEC Length" field of the Vendor-Specific Extended Capability
/// whose window is `w`: bits 20 through 31 of the vendor-specific header
/// four bytes in.
pub open spec fn spec_vsec_length(bytes: Seq<u8>, w: PciSubregion) -> u32 {
    (spec_register_value(bytes, (w.offset + 4) as u64, PciRegisterWidth::W32) & 0xfff0_0000) >> 20
}

/// The vendor-specific header of a Vendor-Specific Extended Capability: a
/// 32-bit read-only bit field four bytes into the capability.
#[derive(Clone, Copy, Debug, PartialEq, Eq, Structural)]
pub struct VendorSpecificHeader {
    /// Offset of the register in the region.
    pub offset: u64,
}

impl VendorSpecificHeader {
    /// The vendor-specific header at the start of the given window.
    pub fn backed_by(window: PciSubregion) -> (r: VendorSpecificHeader)
        ensures
            r == (VendorSpecificHeader { offset: window.offset }),
    {
        VendorSpecificHeader { offset: window.offset }
    }

    /// The read-only "VSEC ID" bits at positions 0 through 15.
    pub fn vsec_id(&self) -> (r: PciBitsReadOnly)
        ensures
            r == (PciBitsReadOnly {
                offset: self.offset,
                width: PciRegisterWidth::W32,
                mask: 0xffff,
                shift: 0,
            }),
            r.spec_wf(),
    {
        PciBitsReadOnly::backed_by(self.offset, PciRegisterWidth::W32, 0xffff, 0)
    }

    /// The read-only "VSEC Rev" bits at positions 16 through 19.
    pub fn vsec_rev(&self) -> (r: PciBitsReadOnly)
        ensures
            r == (PciBitsReadOnly {
                offset: self.offset,
                width: PciRegisterWidth::W32,
                mask: 0xf_0000,
                shift: 16,
            }),
            r.spec_wf(),
    {
        PciBitsReadOnly::backed_by(self.offset, PciRegisterWidth::W32, 0xf_0000, 16)
    }

    /// The read-only "VSEC Length" bits at positions 20 through 31.
    pub fn vsec_length(&self) -> (r: PciBitsReadOnly)
        ensures
            r == (PciBitsReadOnly {
                offset: self.offset,
                width: PciRegisterWidth::W32,
                mask: 0xfff0_0000,
                shift: 20,
            }),
            r.spec_wf(),
    {
        PciBitsReadOnly::backed_by(self.offset, PciRegisterWidth::W32, 0xfff0_0000, 20)
    }
}

/// The Vendor-Specific Extended Capability (ID `0x000b`), whose length is
/// its own "VSEC Length" field.
#[derive(Clone, Copy, Debug)]
pub struct VendorSpecificExtendedCapability {
    window: PciSubregion,
}

impl VendorSpecificExtendedCapability {
    /// The vendor-specific header of this capability.
    pub fn vendor_specific_header(&self) -> (r: VendorSpecificHeader)
        requires
            self.spec_window().spec_wf(),
        ensures
            r.offset == self.spec_window().spec_subregion(0x004, u64::MAX).offset,
            self.spec_window().length >= 4 ==> r.offset == self.spec_window().offset + 4,
    {
        VendorSpecificHeader::backed_by(self.window.subregion(0x004, u64::MAX))
    }
}

impl ExtendedCapability for VendorSpecificExtendedCapability {
    closed spec fn spec_window(&self) -> PciSubregion {
        self.window
    }

    open spec fn spec_matches(bytes: Seq<u8>, w: PciSubregion) -> bool {
        spec_ext_id(bytes, w) == 0x000b && spec_ext_version(bytes, w) >= 0x1
    }

    open spec fn spec_length(bytes: Seq<u8>, w: PciSubregion) -> u64 {
        spec_vsec_length(bytes, w) as u64
    }

    open spec fn spec_probes_ok(bytes: Seq<u8>, w: PciSubregion) -> bool {
        &&& spec_ext_header_probe_ok(bytes, w)
        &&& (Self::spec_matches(bytes, w) ==> (4 <= w.length && w.offset + 8 <= bytes.len()))
    }

    fn backed_by(region: &PciMemoryRegion, window: PciSubregion) -> (r: Result<
        Option<Self>,
        PciError,
    >) {
        let hdr = ExtendedCapabilityHeader::backed_by(window);
        let id = hdr.capability_id().read(region)?;
        proof {
            let h = spec_register_value(region@, window.offset, PciRegisterWidth::W32);
            assert((h & 0xffff) >> 0u32 == h & 0xffff) by (bit_vector);
        }
        if id != 0x000b {
            return Ok(None);
        }
        let version = hdr.capability_version().read(region)?;
        if version < 0x1 {
            return Ok(None);
        }
        let cap = VendorSpecificExtendedCapability { window };
        let length = cap.vendor_specific_header().vsec_length().read(region)?;
        Ok(Some(VendorSpecificExtendedCapability { window: window.subregion(0, length as u64) }))
    }

    fn as_subregion(&self) -> (w: PciSubregion) {
        self.window
    }

    fn header(&self) -> (h: ExtendedCapabilityHeader) {
        ExtendedCapabilityHeader::backed_by(self.window)
    }
}

// 7.9.28 Null Extended Capability

/// The Null Extended Capability: a placeholder entry with no content.
#[derive(Clone, Copy, Debug)]
pub struct NullExtendedCapability {
    window: PciSubregion,
}

impl ExtendedCapability for NullExtendedCapability {
    closed spec fn spec_window(&self) -> PciSubregion {
        self.window
    }

    open spec fn spec_matches(bytes: Seq<u8>, w: PciSubregion) -> bool {
        spec_ext_id(bytes, w) == 0x000b
    }

    open spec fn spec_length(bytes: Seq<u8>, w: PciSubregion) -> u64 {
        0x004
    }

    open spec fn spec_probes_ok(bytes: Seq<u8>, w: PciSubregion) -> bool {
        spec_ext_header_probe_ok(bytes, w)
    }

    fn backed_by(region: &PciMemoryRegion, window: PciSubregion) -> (r: Result<
        Option<Self>,
        PciError,
    >) {
        let hdr = ExtendedCapabilityHeader::backed_by(window);
        let id = hdr.capability_id().read(region)?;
        proof {
            let h = spec_register_value(region@, window.offset, PciRegisterWidth::W32);
            assert((h & 0xffff) >> 0u32 == h & 0xffff) by (bit_vector);
        }
        if id != 0x000b {
            return Ok(None);
        }
        Ok(Some(NullExtendedCapability { window: window.subregion(0, 0x004) }))
    }

    fn as_subregion(&self) -> (w: PciSubregion) {
        self.window
    }

    fn header(&self) -> (h: ExtendedCapabilityHeader) {
        ExtendedCapabilityHeader::backed_by(self.window)
    }
}

} // verus!
