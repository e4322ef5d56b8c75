//! Discovery of the Capabilities described in the PCI configuration space.
//!
//! Capabilities live in the window `[0x40, 0x100)` of configuration space
//! and form a singly linked list: a byte at `0x34` (masked to a multiple of
//! four) points at the first entry, and each entry's second byte points at
//! the next, `0` ending the list.  A malformed or adversarial device can
//! make that list leave the legal window or loop back on itself, so the
//! scan checks every offset and bounds the walk by the number of
//! minimally-sized entries the window can hold, failing with
//! [`PciError::InvalidInput`] either way.
//!
//! For Extended Capabilities, see [`crate::config::ext_caps`].

use vstd::prelude::*;

use crate::config::PciConfig;
use crate::errors::PciError;
use crate::regions::structured::{
    spec_register_value, PciBitReadOnly, PciRegisterRo, PciRegisterRw, PciRegisterWidth,
};
use crate::regions::{PciMemoryRegion, PciSubregion};

verus! {

/// The number of entries the legacy capability window can hold at most: one
/// per byte of `[0x40, 0x100)`.  A walk that visits more entries than this
/// must have revisited one, i.e. the list has a cycle.
pub const CAP_ITERATIONS_UPPER_BOUND: usize = 0x100 - 0x40;

/// The "next capability" pointer of the capability at `cur`, masked to a
/// multiple of four, for a configuration space starting at `c` in `bytes`.
pub open spec fn spec_cap_next(bytes: Seq<u8>, c: int, cur: u8) -> u8 {
    (bytes[c + cur + 1] & 0xfc) as u8
}

/// The offset of the first capability: the byte at `0x34`, masked to a
/// multiple of four.
pub open spec fn spec_cap_start(bytes: Seq<u8>, c: int) -> u8 {
    (bytes[c + 0x34] & 0xfc) as u8
}

/// Whether the "Capabilities List" status bit says the device has a
/// capability list at all.
pub open spec fn spec_caps_present(bytes: Seq<u8>, c: int) -> bool {
    spec_register_value(bytes, (c + 0x06) as u64, PciRegisterWidth::W16) & 0x10 != 0
}

/// The offsets the capability list walk visits from `cur` on, or `None` if
/// the walk leaves the legal window `[0x40, 0x100)` or does not end within
/// `fuel` entries.
pub open spec fn spec_cap_chain(bytes: Seq<u8>, c: int, cur: u8, fuel: nat) -> Option<Seq<u8>>
    decreases fuel,
{
    if cur == 0 {
        Some(Seq::empty())
    } else if cur < 0x40 {
        None
    } else if fuel == 0 {
        None
    } else {
        match spec_cap_chain(bytes, c, spec_cap_next(bytes, c, cur), (fuel - 1) as nat) {
            Some(rest) => Some(seq![cur] + rest),
            None => None,
        }
    }
}

/// The window of the capability at offset `o` of a configuration space
/// starting at `c`: from the entry to the end of the legacy window, the
/// entry's true length being unknown during the walk.
pub open spec fn spec_cap_window(c: int, o: u8) -> PciSubregion {
    PciSubregion { offset: (c + o) as u64, length: (0x100 - o) as u64 }
}

/// The windows of the capabilities at the offsets `offs` of a configuration
/// space starting at `c`.
pub open spec fn spec_cap_windows(c: int, offs: Seq<u8>) -> Seq<PciSubregion> {
    offs.map_values(|o: u8| spec_cap_window(c, o))
}

/// The header common to all Capabilities: the capability ID and the link to
/// the next capability.
#[derive(Clone, Copy, Debug, PartialEq, Eq, Structural)]
pub struct CapabilityHeader {
    /// The two-byte window holding the header.
    pub window: PciSubregion,
}

impl CapabilityHeader {
    /// The window does not wrap around the address space.
    pub open spec fn spec_wf(self) -> bool {
        self.window.spec_wf()
    }

    /// The capability header at the start of the given window, narrowed to
    /// its two bytes.
    pub fn backed_by(window: PciSubregion) -> (r: CapabilityHeader)
        requires
            window.spec_wf(),
        ensures
            r == (CapabilityHeader { window: window.spec_subregion(0x00, 0x02) }),
            r.spec_wf(),
    {
        CapabilityHeader { window: window.subregion(0x00, 0x02) }
    }

    /// The read-only "Capability ID" register.
    pub fn capability_id(&self) -> (r: PciRegisterRo)
        requires
            self.spec_wf(),
        ensures
            r.width == PciRegisterWidth::W8,
            r.offset == self.window.spec_subregion(0x00, u64::MAX).offset,
            self.window.length >= 1 ==> r.offset == self.window.offset,
    {
        PciRegisterRo::backed_by(self.window.subregion(0x00, u64::MAX), PciRegisterWidth::W8)
    }

    /// The read-only "Next Capability Pointer" register.
    ///
    /// This need not be used directly: [`PciCapabilities`] iterates over
    /// the capability list.
    pub fn next_capability_pointer(&self) -> (r: PciRegisterRo)
        requires
            self.spec_wf(),
        ensures
            r.width == PciRegisterWidth::W8,
            r.offset == self.window.spec_subregion(0x01, u64::MAX).offset,
            self.window.length >= 1 ==> r.offset == self.window.offset + 1,
    {
        PciRegisterRo::backed_by(self.window.subregion(0x01, u64::MAX), PciRegisterWidth::W8)
    }
}

/// Reads the capability ID of the entry whose window is `window`.
fn read_cap_id(region: &PciMemoryRegion, window: PciSubregion) -> (r: Result<u8, PciError>)
    requires
        window.spec_wf(),
    ensures
        window.offset + 1 <= region@.len() ==> r == Ok::<u8, PciError>(
            region@[window.offset as int],
        ),
        window.offset + 1 > region@.len() ==> r == Err::<u8, PciError>(PciError::OutOfBounds),
{
    let hdr = CapabilityHeader::backed_by(window);
    let v = hdr.capability_id().read(region)?;
    Ok(v as u8)
}

/// Some specific type of PCI Capability: a value of an implementing type is
/// a typed view of one matching capability entry.
pub trait Capability: Sized + Copy {
    /// The window the typed capability occupies, narrowed to its true
    /// length.
    spec fn spec_window(&self) -> PciSubregion;

    /// Whether the capability entry whose window is `w` matches this type:
    /// its capability ID, and for some types a further discriminator read
    /// from the entry itself.
    spec fn spec_matches(bytes: Seq<u8>, w: PciSubregion) -> bool;

    /// The true length of a matching entry: a fixed constant, a length
    /// byte, or the extent of a variable-length entry table.
    spec fn spec_length(bytes: Seq<u8>, w: PciSubregion) -> u64;

    /// Whether every field that matching and sizing must probe can be read.
    spec fn spec_probes_ok(bytes: Seq<u8>, w: PciSubregion) -> bool;

    /// Tries to create a typed view of the capability entry whose window is
    /// `window`.  A non-matching entry yields `Ok(None)`; only a failure to
    /// read a probed field is an error.
    fn backed_by(region: &PciMemoryRegion, window: PciSubregion) -> (r: Result<
        Option<Self>,
        PciError,
    >)
        requires
            window.spec_wf(),
        ensures
            Self::spec_probes_ok(region@, window) ==> (match r {
                Ok(Some(c)) => Self::spec_matches(region@, window) && c.spec_window()
                    == window.spec_subregion(0, Self::spec_length(region@, window))
                    && c.spec_window().spec_wf(),
                Ok(None) => !Self::spec_matches(region@, window),
                Err(_) => false,
            }),
    ;

    /// Returns the window the typed capability occupies.
    fn as_subregion(&self) -> (w: PciSubregion)
        ensures
            w == self.spec_window(),
    ;

    /// The two fields common to all Capabilities.
    fn header(&self) -> (h: CapabilityHeader)
        requires
            self.spec_window().spec_wf(),
        ensures
            h == (CapabilityHeader { window: self.spec_window().spec_subregion(0x00, 0x02) }),
            h.spec_wf(),
    ;
}

/// Lets you inspect and manipulate the PCI Capabilities defined in the
/// configuration space of some PCI device.
#[derive(Clone, Debug)]
pub struct PciCapabilities {
    cap_subregions: Vec<PciSubregion>,
}

impl PciCapabilities {
    /// The windows of the discovered capabilities, in discovery order.
    pub closed spec fn spec_windows(&self) -> Seq<PciSubregion> {
        self.cap_subregions@
    }

    /// Every discovered window is well formed.
    pub open spec fn spec_wf(&self) -> bool {
        forall|i: int|
            0 <= i < self.spec_windows().len() ==> (#[trigger] self.spec_windows()[i]).spec_wf()
    }

    /// Walks the capability list of the given configuration space and
    /// records one window per discovered capability.
    ///
    /// A configuration space shorter than `0x100` bytes is rejected; a
    /// device without the "Capabilities List" status bit yields an empty
    /// list; a list entry outside `[0x40, 0x100)` or a walk that exceeds
    /// [`CAP_ITERATIONS_UPPER_BOUND`] entries (a cycle) is an error.
    pub fn backed_by(region: &PciMemoryRegion, config_space: PciConfig) -> (r: Result<
        PciCapabilities,
        PciError,
    >)
        requires
            config_space.spec_wf(),
        ensures
            config_space.window.length < 0x100 ==> r == Err::<PciCapabilities, PciError>(
                PciError::InvalidInput,
            ),
            r matches Ok(caps) ==> caps.spec_wf(),
            ({
                let b = region@;
                let c = config_space.window.offset as int;
                config_space.window.length >= 0x100 && config_space.window.spec_valid_for(
                    b.len() as int,
                ) && c % 2 == 0 ==> {
                    if !spec_caps_present(b, c) {
                        r matches Ok(caps) && caps.spec_windows() == Seq::<PciSubregion>::empty()
                    } else {
                        match spec_cap_chain(b, c, spec_cap_start(b, c), 192) {
                            Some(offs) => r matches Ok(caps) && caps.spec_windows()
                                == spec_cap_windows(c, offs),
                            None => r == Err::<PciCapabilities, PciError>(PciError::InvalidInput),
                        }
                    }
                }
            }),
    {
        let ghost b = region@;
        let ghost c = config_space.window.offset as int;
        let ghost guard = config_space.window.length >= 0x100
            && config_space.window.spec_valid_for(b.len() as int) && c % 2 == 0;

        if config_space.window.len() < 0x100 {
            return Err(PciError::InvalidInput);
        }
        let has_caps = match config_space.status().capabilities_list().read(region) {
            Ok(v) => v,
            Err(e) => {
                return Err(e);
            },
        };
        if !has_caps {
            return Ok(PciCapabilities { cap_subregions: Vec::new() });
        }
        let start_byte = match config_space.window.read_u8(region, 0x34) {
            Ok(v) => v,
            Err(e) => {
                return Err(e);
            },
        };
        let mut next_cap_offset: u8 = start_byte & 0xfc;
        proof {
            let y = start_byte;
            assert((y & 0xfc) % 4 == 0) by (bit_vector);
        }
        let ghost start = next_cap_offset;

        let mut cap_subregions: Vec<PciSubregion> = Vec::new();
        let ghost mut offs: Seq<u8> = Seq::empty();

        proof {
            if guard {
                match spec_cap_chain(b, c, start, 192) {
                    Some(rest) => {
                        assert(offs + rest =~= rest);
                    },
                    None => {},
                }
            }
            assert(cap_subregions@ =~= spec_cap_windows(c, offs));
        }

        while next_cap_offset != 0x00
            invariant
                config_space.spec_wf(),
                b == region@,
                c == config_space.window.offset as int,
                guard == (config_space.window.length >= 0x100
                    && config_space.window.spec_valid_for(b.len() as int) && c % 2 == 0),
                config_space.window.length >= 0x100,
                guard ==> spec_caps_present(b, c),
                guard ==> start == spec_cap_start(b, c),
                next_cap_offset % 4 == 0,
                cap_subregions@.len() == offs.len(),
                cap_subregions@.len() <= 192,
                cap_subregions@ == spec_cap_windows(c, offs),
                forall|i: int|
                    0 <= i < cap_subregions@.len() ==> (
                    #[trigger] cap_subregions@[i]).spec_wf(),
                guard ==> spec_cap_chain(b, c, start, 192) == (match spec_cap_chain(
                    b,
                    c,
                    next_cap_offset,
                    (192 - cap_subregions@.len()) as nat,
                ) {
                    Some(rest) => Some(offs + rest),
                    None => None::<Seq<u8>>,
                }),
            decreases 193 - cap_subregions@.len(),
        {
            let ghost fuel = (192 - cap_subregions@.len()) as nat;
            if next_cap_offset < 0x40 {
                return Err(PciError::InvalidInput);
            }
            if cap_subregions.len() == CAP_ITERATIONS_UPPER_BOUND {
                proof {
                    assert(guard ==> spec_cap_chain(b, c, start, 192) is None);
                }
                return Err(PciError::InvalidInput);
            }
            let cap_subregion = config_space.window.subregion(next_cap_offset as u64, 0x100);
            let cap_header = CapabilityHeader::backed_by(cap_subregion);

            cap_subregions.push(cap_subregion);
            let ghost cur = next_cap_offset;
            proof {
                assert(cap_subregion == spec_cap_window(c, cur));
                offs = offs.push(cur);
                assert(cap_subregions@ =~= spec_cap_windows(c, offs));
            }

            let next_value = match cap_header.next_capability_pointer().read(region) {
                Ok(v) => v,
                Err(e) => {
                    proof {
                        if guard {
                            assert(c + cur + 2 <= b.len());
                            assert(false);
                        }
                    }
                    return Err(e);
                },
            };
            next_cap_offset = (next_value as u8) & 0xfc;
            proof {
                let y = next_value as u8;
                assert((y & 0xfc) % 4 == 0) by (bit_vector);
                if guard {
                    assert(c + cur + 2 <= b.len());
                    assert(next_value == b[c + cur + 1]);
                    assert(next_cap_offset == spec_cap_next(b, c, cur));
                    match spec_cap_chain(b, c, next_cap_offset, (fuel - 1) as nat) {
                        Some(rest) => {
                            assert(spec_cap_chain(b, c, cur, fuel) == Some(seq![cur] + rest));
                            assert(offs.drop_last() + (seq![cur] + rest) =~= offs + rest);
                        },
                        None => {
                            assert(spec_cap_chain(b, c, cur, fuel) is None);
                        },
                    }
                }
            }
        }
        proof {
            if guard {
                assert(spec_cap_chain(b, c, 0, (192 - cap_subregions@.len()) as nat)
                    == Some(Seq::<u8>::empty()));
                assert(offs + Seq::<u8>::empty() =~= offs);
            }
        }
        Ok(PciCapabilities { cap_subregions })
    }

    /// Returns an iterator over all capabilities.
    pub fn iter(&self, region: &PciMemoryRegion) -> (r: PciCapabilitiesIter<
        UnspecifiedCapability,
    >)
        requires
            self.spec_wf(),
        ensures
            r.spec_pos() == 0,
            r.spec_caps().map_values(|cc: UnspecifiedCapability| cc.spec_window())
                == spec_matching_caps::<UnspecifiedCapability>(
                region@,
                self.spec_windows(),
                self.spec_windows().len() as int,
            ),
            forall|k: int|
                0 <= k < r.spec_caps().len() ==> (#[trigger] r.spec_caps()[k]).spec_window().spec_wf(),
    {
        match self.of_type::<UnspecifiedCapability>(region) {
            Ok(it) => it,
            Err(_) => vstd::pervasive::unreached(),
        }
    }

    /// Returns an iterator over the capabilities that can be represented by
    /// `C`, by trying [`Capability::backed_by`] on every discovered entry.
    pub fn of_type<C: Capability>(&self, region: &PciMemoryRegion) -> (r: Result<
        PciCapabilitiesIter<C>,
        PciError,
    >)
        requires
            self.spec_wf(),
        ensures
            (forall|i: int|
                0 <= i < self.spec_windows().len() ==> C::spec_probes_ok(
                    region@,
                    #[trigger] self.spec_windows()[i],
                )) ==> (r matches Ok(it) && it.spec_pos() == 0 && it.spec_caps().map_values(
                |cc: C| cc.spec_window(),
            ) == spec_matching_caps::<C>(
                region@,
                self.spec_windows(),
                self.spec_windows().len() as int,
            ) && (forall|k: int|
                0 <= k < it.spec_caps().len() ==> (
                #[trigger] it.spec_caps()[k]).spec_window().spec_wf())),
            r is Err ==> !(forall|i: int|
                0 <= i < self.spec_windows().len() ==> C::spec_probes_ok(
                    region@,
                    #[trigger] self.spec_windows()[i],
                )),
    {
        let mut caps: Vec<C> = Vec::new();
        let n = self.cap_subregions.len();
        proof {
            assert(caps@.map_values(|cc: C| cc.spec_window()) =~= spec_matching_caps::<C>(
                region@,
                self.spec_windows(),
                0,
            ));
        }
        for i in 0..n
            invariant
                n == self.spec_windows().len(),
                self.spec_wf(),
                (forall|j: int|
                    0 <= j < i ==> C::spec_probes_ok(region@, #[trigger] self.spec_windows()[j]))
                    ==> {
                    &&& caps@.map_values(|cc: C| cc.spec_window()) == spec_matching_caps::<C>(
                        region@,
                        self.spec_windows(),
                        i as int,
                    )
                    &&& forall|k: int|
                        0 <= k < caps@.len() ==> (#[trigger] caps@[k]).spec_window().spec_wf()
                },
        {
            let w = self.cap_subregions[i];
            let ghost caps0 = caps@;
            match C::backed_by(region, w) {
                Ok(Some(c)) => {
                    caps.push(c);
                    proof {
                        if forall|j: int|
                            0 <= j <= i ==> C::spec_probes_ok(
                                region@,
                                #[trigger] self.spec_windows()[j],
                            ) {
                            assert(C::spec_probes_ok(region@, self.spec_windows()[i as int]));
                            assert(caps@.map_values(|cc: C| cc.spec_window())
                                =~= caps0.map_values(|cc: C| cc.spec_window()).push(
                                c.spec_window(),
                            ));
                            assert(caps@.map_values(|cc: C| cc.spec_window())
                                =~= spec_matching_caps::<C>(region@, self.spec_windows(), i + 1));
                        }
                    }
                },
                Ok(None) => {
                    proof {
                        if forall|j: int|
                            0 <= j <= i ==> C::spec_probes_ok(
                                region@,
                                #[trigger] self.spec_windows()[j],
                            ) {
                            assert(C::spec_probes_ok(region@, self.spec_windows()[i as int]));
                            assert(caps@.map_values(|cc: C| cc.spec_window())
                                =~= spec_matching_caps::<C>(region@, self.spec_windows(), i + 1));
                        }
                    }
                },
                Err(e) => {
                    proof {
                        if C::spec_probes_ok(region@, w) {
                            assert(false);
                        }
                    }
                    return Err(e);
                },
            }
        }
        Ok(PciCapabilitiesIter { caps, pos: 0 })
    }

    /// Consumes the list, yielding an iterator over all capabilities.
    pub fn into_iter(self) -> (r: PciCapabilitiesIntoIter)
        requires
            self.spec_wf(),
        ensures
            r.spec_windows() == self.spec_windows(),
            r.spec_pos() == 0,
            r.spec_wf(),
    {
        PciCapabilitiesIntoIter { windows: self.cap_subregions, pos: 0 }
    }
}

/// The narrowed windows of the entries among the first `n` of `windows`
/// that match the capability type `C`, in discovery order.
pub open spec fn spec_matching_caps<C: Capability>(
    bytes: Seq<u8>,
    windows: Seq<PciSubregion>,
    n: int,
) -> Seq<PciSubregion>
    decreases n,
{
    if n <= 0 {
        Seq::empty()
    } else {
        let prev = spec_matching_caps::<C>(bytes, windows, n - 1);
        let w = windows[n - 1];
        if C::spec_matches(bytes, w) {
            prev.push(w.spec_subregion(0, C::spec_length(bytes, w)))
        } else {
            prev
        }
    }
}

/// A typed capability lookup finds something exactly when one of the
/// entries matches: the result of filtering the first `n` windows for the
/// capability type `C` is non-empty if and only if some window among them
/// matches `C`.
pub proof fn lemma_matching_caps_nonempty<C: Capability>(
    bytes: Seq<u8>,
    windows: Seq<PciSubregion>,
    n: int,
)
    ensures
        (spec_matching_caps::<C>(bytes, windows, n).len() > 0) <==> (exists|i: int|
            0 <= i < n && C::spec_matches(bytes, #[trigger] windows[i])),
    decreases n,
{
    if n > 0 {
        lemma_matching_caps_nonempty::<C>(bytes, windows, n - 1);
    }
}

/// An iterator over all PCI Capabilities of a device.
pub struct PciCapabilitiesIntoIter {
    windows: Vec<PciSubregion>,
    pos: usize,
}

impl PciCapabilitiesIntoIter {
    /// The windows of the capabilities being iterated over.
    pub closed spec fn spec_windows(&self) -> Seq<PciSubregion> {
        self.windows@
    }

    /// How many capabilities have been yielded so far.
    pub closed spec fn spec_pos(&self) -> int {
        self.pos as int
    }

    /// Every window is well formed.
    pub open spec fn spec_wf(&self) -> bool {
        forall|i: int|
            0 <= i < self.spec_windows().len() ==> (#[trigger] self.spec_windows()[i]).spec_wf()
    }

    /// The next capability, or `None` after the last one.
    pub fn next(&mut self) -> (r: Option<UnspecifiedCapability>)
        requires
            old(self).spec_wf(),
        ensures
            final(self).spec_windows() == old(self).spec_windows(),
            final(self).spec_wf(),
            old(self).spec_pos() < old(self).spec_windows().len() ==> {
                &&& final(self).spec_pos() == old(self).spec_pos() + 1
                &&& r matches Some(c) && c.spec_window() == old(self).spec_windows()[old(
                    self,
                ).spec_pos()].spec_subregion(0, 2)
            },
            old(self).spec_pos() >= old(self).spec_windows().len() ==> {
                &&& final(self).spec_pos() == old(self).spec_pos()
                &&& r is None
            },
    {
        if self.pos < self.windows.len() {
            let w = self.windows[self.pos];
            self.pos = self.pos + 1;
            Some(UnspecifiedCapability { window: w.subregion(0, 0x02) })
        } else {
            None
        }
    }
}

/// An iterator over a device's PCI Capabilities of a certain type.
pub struct PciCapabilitiesIter<C: Capability> {
    caps: Vec<C>,
    pos: usize,
}

impl<C: Capability> PciCapabilitiesIter<C> {
    /// The typed capabilities being iterated over.
    pub closed spec fn spec_caps(&self) -> Seq<C> {
        self.caps@
    }

    /// How many capabilities have been yielded so far.
    pub closed spec fn spec_pos(&self) -> int {
        self.pos as int
    }

    /// The next capability, or `None` after the last one.
    pub fn next(&mut self) -> (r: Option<C>)
        ensures
            final(self).spec_caps() == old(self).spec_caps(),
            old(self).spec_pos() < old(self).spec_caps().len() ==> {
                &&& final(self).spec_pos() == old(self).spec_pos() + 1
                &&& r == Some(old(self).spec_caps()[old(self).spec_pos()])
            },
            old(self).spec_pos() >= old(self).spec_caps().len() ==> {
                &&& final(self).spec_pos() == old(self).spec_pos()
                &&& r is None
            },
    {
        if self.pos < self.caps.len() {
            let c = self.caps[self.pos];
            self.pos = self.pos + 1;
            Some(c)
        } else {
            None
        }
    }

    /// How many capabilities are left to yield.
    pub fn remaining(&self) -> (n: usize)
        ensures
            n == self.spec_caps().len() - self.spec_pos() || (self.spec_pos()
                > self.spec_caps().len() && n == 0),
    {
        if self.pos <= self.caps.len() {
            self.caps.len() - self.pos
        } else {
            0
        }
    }
}

/// Some/any PCI Capability, seen only through its header.
#[derive(Clone, Copy, Debug)]
pub struct UnspecifiedCapability {
    window: PciSubregion,
}

impl Capability for UnspecifiedCapability {
    closed spec fn spec_window(&self) -> PciSubregion {
        self.window
    }

    open spec fn spec_matches(bytes: Seq<u8>, w: PciSubregion) -> bool {
        true
    }

    open spec fn spec_length(bytes: Seq<u8>, w: PciSubregion) -> u64 {
        0x02
    }

    open spec fn spec_probes_ok(bytes: Seq<u8>, w: PciSubregion) -> bool {
        true
    }

    fn backed_by(region: &PciMemoryRegion, window: PciSubregion) -> (r: Result<
        Option<Self>,
        PciError,
    >) {
        Ok(Some(UnspecifiedCapability { window: window.subregion(0, 0x02) }))
    }

    fn as_subregion(&self) -> (w: PciSubregion) {
        self.window
    }

    fn header(&self) -> (h: CapabilityHeader) {
        CapabilityHeader::backed_by(self.window)
    }
}

// 7.5.2 PCI Power Management Capability Structure

/// The PCI Power Management Capability (ID `0x01`).
#[derive(Clone, Copy, Debug)]
pub struct PciPowerManagementCapability {
    window: PciSubregion,
}

impl Capability for PciPowerManagementCapability {
    closed spec fn spec_window(&self) -> PciSubregion {
        self.window
    }

    open spec fn spec_matches(bytes: Seq<u8>, w: PciSubregion) -> bool {
        bytes[w.offset as int] == 0x01
    }

    open spec fn spec_length(bytes: Seq<u8>, w: PciSubregion) -> u64 {
        0x08
    }

    open spec fn spec_probes_ok(bytes: Seq<u8>, w: PciSubregion) -> bool {
        w.offset + 1 <= bytes.len()
    }

    fn backed_by(region: &PciMemoryRegion, window: PciSubregion) -> (r: Result<
        Option<Self>,
        PciError,
    >) {
        let id = read_cap_id(region, window)?;
        if id != 0x01 {
            return Ok(None);
        }
        Ok(Some(PciPowerManagementCapability { window: window.subregion(0, 0x08) }))
    }

    fn as_subregion(&self) -> (w: PciSubregion) {
        self.window
    }

    fn header(&self) -> (h: CapabilityHeader) {
        CapabilityHeader::backed_by(self.window)
    }
}

// 7.5.3 PCI Express Capability Structure

/// The PCI Express Capability (ID `0x10`); its presence marks a PCI
/// Express device.
#[derive(Clone, Copy, Debug)]
pub struct PciExpressCapability {
    window: PciSubregion,
}

impl Capability for PciExpressCapability {
    closed spec fn spec_window(&self) -> PciSubregion {
        self.window
    }

    open spec fn spec_matches(bytes: Seq<u8>, w: PciSubregion) -> bool {
        bytes[w.offset as int] == 0x10
    }

    open spec fn spec_length(bytes: Seq<u8>, w: PciSubregion) -> u64 {
        0x3c
    }

    open spec fn spec_probes_ok(bytes: Seq<u8>, w: PciSubregion) -> bool {
        w.offset + 1 <= bytes.len()
    }

    fn backed_by(region: &PciMemoryRegion, window: PciSubregion) -> (r: Result<
        Option<Self>,
        PciError,
    >) {
        let id = read_cap_id(region, window)?;
        if id != 0x10 {
            return Ok(None);
        }
        Ok(Some(PciExpressCapability { window: window.subregion(0, 0x3c) }))
    }

    fn as_subregion(&self) -> (w: PciSubregion) {
        self.window
    }

    fn header(&self) -> (h: CapabilityHeader) {
        CapabilityHeader::backed_by(self.window)
    }
}

// 7.7.1 MSI Capability Structures

/// The write mask of the MSI "Message Control" register: every bit, since
/// the register has no write-1-to-clear and no reserved-zero bits.
pub const MSI_MESSAGE_CONTROL_WRITE_MASK: u32 = 0xffff;

/// The MSI "Message Control" register: a 16-bit read-write bit field two
/// bytes into the MSI capability.
#[derive(Clone, Copy, Debug, PartialEq, Eq, Structural)]
pub struct MsiMessageControl {
    /// Offset of the register in the region.
    pub offset: u64,
}

impl MsiMessageControl {
    /// The "Message Control" register at the start of the given window.
    pub fn backed_by(window: PciSubregion) -> (r: MsiMessageControl)
        ensures
            r == (MsiMessageControl { offset: window.offset }),
    {
        MsiMessageControl { offset: window.offset }
    }

    /// The read-write "MSI Enable" bit.
    pub fn msi_enable(&self) -> (r: crate::regions::structured::PciBitReadWrite)
        ensures
            r == (crate::regions::structured::PciBitReadWrite {
                offset: self.offset,
                width: PciRegisterWidth::W16,
                mask: 0x1u32,
                write_mask: MSI_MESSAGE_CONTROL_WRITE_MASK,
            }),
            r.spec_wf(),
    {
        crate::regions::structured::PciBitReadWrite::backed_by(
            self.offset,
            PciRegisterWidth::W16,
            0x1u32,
            MSI_MESSAGE_CONTROL_WRITE_MASK,
        )
    }

    /// The read-only "64 Bit Address Capable" bit.
    pub fn bit_64_address_capable(&self) -> (r: PciBitReadOnly)
        ensures
            r == (PciBitReadOnly {
                offset: self.offset,
                width: PciRegisterWidth::W16,
                mask: 0x80u32,
            }),
    {
        PciBitReadOnly::backed_by(self.offset, PciRegisterWidth::W16, 0x80u32)
    }

    /// The read-only "Per-Vector Masking Capable" bit.
    pub fn per_vector_masking_capable(&self) -> (r: PciBitReadOnly)
        ensures
            r == (PciBitReadOnly {
                offset: self.offset,
                width: PciRegisterWidth::W16,
                mask: 0x100u32,
            }),
    {
        PciBitReadOnly::backed_by(self.offset, PciRegisterWidth::W16, 0x100u32)
    }
}

/// The value of the MSI "Message Control" register of the MSI capability
/// whose window is `w`.
pub open spec fn spec_msi_message_control(bytes: Seq<u8>, w: PciSubregion) -> u32 {
    spec_register_value(bytes, (w.offset + 2) as u64, PciRegisterWidth::W16)
}

/// The "64 Bit Address Capable" bit of the MSI capability whose window is
/// `w`.
pub open spec fn spec_msi_bit64(bytes: Seq<u8>, w: PciSubregion) -> bool {
    spec_msi_message_control(bytes, w) & 0x80 != 0
}

/// The "Per-Vector Masking Capable" bit of the MSI capability whose window
/// is `w`.
pub open spec fn spec_msi_pvm(bytes: Seq<u8>, w: PciSubregion) -> bool {
    spec_msi_message_control(bytes, w) & 0x100 != 0
}

/// Whether the fields the MSI capability types probe can be read: the ID
/// byte always, and for a matching ID also the "Message Control" register.
pub open spec fn spec_msi_probes_ok(bytes: Seq<u8>, w: PciSubregion) -> bool {
    &&& w.offset + 1 <= bytes.len()
    &&& (bytes[w.offset as int] == 0x05 ==> (2 <= w.length && w.offset + 4 <= bytes.len() && (
    w.offset + 2) % 2 == 0))
}

/// The length of an MSI capability, decided by its "64 Bit Address
/// Capable" and "Per-Vector Masking Capable" bits.
pub open spec fn spec_msi_length(bytes: Seq<u8>, w: PciSubregion) -> u64 {
    match (spec_msi_bit64(bytes, w), spec_msi_pvm(bytes, w)) {
        (false, false) => 0x0c,
        (true, false) => 0x10,
        (false, true) => 0x14,
        (true, true) => 0x18,
    }
}

/// The MSI Capability (ID `0x05`), of any of its four layouts.
#[derive(Clone, Copy, Debug)]
pub struct MsiCapability {
    window: PciSubregion,
}

impl MsiCapability {
    /// The MSI "Message Control" register of this capability.
    pub fn message_control(&self) -> (r: MsiMessageControl)
        requires
            self.spec_window().spec_wf(),
        ensures
            r.offset == self.spec_window().spec_subregion(0x02, u64::MAX).offset,
            self.spec_window().length >= 2 ==> r.offset == self.spec_window().offset + 2,
    {
        MsiMessageControl::backed_by(self.window.subregion(0x02, u64::MAX))
    }
}

impl Capability for MsiCapability {
    closed spec fn spec_window(&self) -> PciSubregion {
        self.window
    }

    open spec fn spec_matches(bytes: Seq<u8>, w: PciSubregion) -> bool {
        bytes[w.offset as int] == 0x05
    }

    open spec fn spec_length(bytes: Seq<u8>, w: PciSubregion) -> u64 {
        spec_msi_length(bytes, w)
    }

    open spec fn spec_probes_ok(bytes: Seq<u8>, w: PciSubregion) -> bool {
        spec_msi_probes_ok(bytes, w)
    }

    fn backed_by(region: &PciMemoryRegion, window: PciSubregion) -> (r: Result<
        Option<Self>,
        PciError,
    >) {
        let id = read_cap_id(region, window)?;
        if id != 0x05 {
            return Ok(None);
        }
        let cap = MsiCapability { window };
        let mc = cap.message_control();
        let bit_64 = mc.bit_64_address_capable().read(region)?;
        let pvm = mc.per_vector_masking_capable().read(region)?;
        let length: u64 = match (bit_64, pvm) {
            (false, false) => 0x0c,
            (true, false) => 0x10,
            (false, true) => 0x14,
            (true, true) => 0x18,
        };
        Ok(Some(MsiCapability { window: window.subregion(0, length) }))
    }

    fn as_subregion(&self) -> (w: PciSubregion) {
        self.window
    }

    fn header(&self) -> (h: CapabilityHeader) {
        CapabilityHeader::backed_by(self.window)
    }
}

/// The MSI Capability in its 32-bit layout without per-vector masking.
#[derive(Clone, Copy, Debug)]
pub struct Msi32BitCapability {
    window: PciSubregion,
}

impl Msi32BitCapability {
    /// The MSI "Message Control" register of this capability.
    pub fn message_control(&self) -> (r: MsiMessageControl)
        requires
            self.spec_window().spec_wf(),
        ensures
            r.offset == self.spec_window().spec_subregion(0x02, u64::MAX).offset,
            self.spec_window().length >= 2 ==> r.offset == self.spec_window().offset + 2,
    {
        MsiMessageControl::backed_by(self.window.subregion(0x02, u64::MAX))
    }
}

impl Capability for Msi32BitCapability {
    closed spec fn spec_window(&self) -> PciSubregion {
        self.window
    }

    open spec fn spec_matches(bytes: Seq<u8>, w: PciSubregion) -> bool {
        bytes[w.offset as int] == 0x05 && !spec_msi_bit64(bytes, w) && !spec_msi_pvm(bytes, w)
    }

    open spec fn spec_length(bytes: Seq<u8>, w: PciSubregion) -> u64 {
        0x0c
    }

    open spec fn spec_probes_ok(bytes: Seq<u8>, w: PciSubregion) -> bool {
        spec_msi_probes_ok(bytes, w)
    }

    fn backed_by(region: &PciMemoryRegion, window: PciSubregion) -> (r: Result<
        Option<Self>,
        PciError,
    >) {
        let id = read_cap_id(region, window)?;
        if id != 0x05 {
            return Ok(None);
        }
        let cap = Msi32BitCapability { window };
        let mc = cap.message_control();
        let bit_64 = mc.bit_64_address_capable().read(region)?;
        let pvm = mc.per_vector_masking_capable().read(region)?;
        if bit_64 || pvm {
            return Ok(None);
        }
        Ok(Some(Msi32BitCapability { window: window.subregion(0, 0x0c) }))
    }

    fn as_subregion(&self) -> (w: PciSubregion) {
        self.window
    }

    fn header(&self) -> (h: CapabilityHeader) {
        CapabilityHeader::backed_by(self.window)
    }
}

/// The MSI Capability in its 64-bit layout without per-vector masking.
#[derive(Clone, Copy, Debug)]
pub struct Msi64BitCapability {
    window: PciSubregion,
}

impl Msi64BitCapability {
    /// The MSI "Message Control" register of this capability.
    pub fn message_control(&self) -> (r: MsiMessageControl)
        requires
            self.spec_window().spec_wf(),
        ensures
            r.offset == self.spec_window().spec_subregion(0x02, u64::MAX).offset,
            self.spec_window().length >= 2 ==> r.offset == self.spec_window().offset + 2,
    {
        MsiMessageControl::backed_by(self.window.subregion(0x02, u64::MAX))
    }
}

impl Capability for Msi64BitCapability {
    closed spec fn spec_window(&self) -> PciSubregion {
        self.window
    }

    open spec fn spec_matches(bytes: Seq<u8>, w: PciSubregion) -> bool {
        bytes[w.offset as int] == 0x05 && spec_msi_bit64(bytes, w) && !spec_msi_pvm(bytes, w)
    }

    open spec fn spec_length(bytes: Seq<u8>, w: PciSubregion) -> u64 {
        0x10
    }

    open spec fn spec_probes_ok(bytes: Seq<u8>, w: PciSubregion) -> bool {
        spec_msi_probes_ok(bytes, w)
    }

    fn backed_by(region: &PciMemoryRegion, window: PciSubregion) -> (r: Result<
        Option<Self>,
        PciError,
    >) {
        let id = read_cap_id(region, window)?;
        if id != 0x05 {
            return Ok(None);
        }
        let cap = Msi64BitCapability { window };
        let mc = cap.message_control();
        let bit_64 = mc.bit_64_address_capable().read(region)?;
        let pvm = mc.per_vector_masking_capable().read(region)?;
        if !bit_64 || pvm {
            return Ok(None);
        }
        Ok(Some(Msi64BitCapability { window: window.subregion(0, 0x10) }))
    }

    fn as_subregion(&self) -> (w: PciSubregion) {
        self.window
    }

    fn header(&self) -> (h: CapabilityHeader) {
        CapabilityHeader::backed_by(self.window)
    }
}

/// The MSI Capability in its 32-bit layout with per-vector masking.
#[derive(Clone, Copy, Debug)]
pub struct Msi32BitPvmCapability {
    window: PciSubregion,
}

impl Msi32BitPvmCapability {
    /// The MSI "Message Control" register of this capability.
    pub fn message_control(&self) -> (r: MsiMessageControl)
        requires
            self.spec_window().spec_wf(),
        ensures
            r.offset == self.spec_window().spec_subregion(0x02, u64::MAX).offset,
            self.spec_window().length >= 2 ==> r.offset == self.spec_window().offset + 2,
    {
        MsiMessageControl::backed_by(self.window.subregion(0x02, u64::MAX))
    }
}

impl Capability for Msi32BitPvmCapability {
    closed spec fn spec_window(&self) -> PciSubregion {
        self.window
    }

    open spec fn spec_matches(bytes: Seq<u8>, w: PciSubregion) -> bool {
        bytes[w.offset as int] == 0x05 && !spec_msi_bit64(bytes, w) && spec_msi_pvm(bytes, w)
    }

    open spec fn spec_length(bytes: Seq<u8>, w: PciSubregion) -> u64 {
        0x14
    }

    open spec fn spec_probes_ok(bytes: Seq<u8>, w: PciSubregion) -> bool {
        spec_msi_probes_ok(bytes, w)
    }

    fn backed_by(region: &PciMemoryRegion, window: PciSubregion) -> (r: Result<
        Option<Self>,
        PciError,
    >) {
        let id = read_cap_id(region, window)?;
        if id != 0x05 {
            return Ok(None);
        }
        let cap = Msi32BitPvmCapability { window };
        let mc = cap.message_control();
        let bit_64 = mc.bit_64_address_capable().read(region)?;
        let pvm = mc.per_vector_masking_capable().read(region)?;
        if bit_64 || !pvm {
            return Ok(None);
        }
        Ok(Some(Msi32BitPvmCapability { window: window.subregion(0, 0x14) }))
    }

    fn as_subregion(&self) -> (w: PciSubregion) {
        self.window
    }

    fn header(&self) -> (h: CapabilityHeader) {
        CapabilityHeader::backed_by(self.window)
    }
}

/// The MSI Capability in its 64-bit layout with per-vector masking.
#[derive(Clone, Copy, Debug)]
pub struct Msi64BitPvmCapability {
    window: PciSubregion,
}

impl Msi64BitPvmCapability {
    /// The MSI "Message Control" register of this capability.
    pub fn message_control(&self) -> (r: MsiMessageControl)
        requires
            self.spec_window().spec_wf(),
        ensures
            r.offset == self.spec_window().spec_subregion(0x02, u64::MAX).offset,
            self.spec_window().length >= 2 ==> r.offset == self.spec_window().offset + 2,
    {
        MsiMessageControl::backed_by(self.window.subregion(0x02, u64::MAX))
    }
}

impl Capability for Msi64BitPvmCapability {
    closed spec fn spec_window(&self) -> PciSubregion {
        self.window
    }

    open spec fn spec_matches(bytes: Seq<u8>, w: PciSubregion) -> bool {
        bytes[w.offset as int] == 0x05 && spec_msi_bit64(bytes, w) && spec_msi_pvm(bytes, w)
    }

    open spec fn spec_length(bytes: Seq<u8>, w: PciSubregion) -> u64 {
        0x18
    }

    open spec fn spec_probes_ok(bytes: Seq<u8>, w: PciSubregion) -> bool {
        spec_msi_probes_ok(bytes, w)
    }

    fn backed_by(region: &PciMemoryRegion, window: PciSubregion) -> (r: Result<
        Option<Self>,
        PciError,
    >) {
        let id = read_cap_id(region, window)?;
        if id != 0x05 {
            return Ok(None);
        }
        let cap = Msi64BitPvmCapability { window };
        let mc = cap.message_control();
        let bit_64 = mc.bit_64_address_capable().read(region)?;
        let pvm = mc.per_vector_masking_capable().read(region)?;
        if !bit_64 || !pvm {
            return Ok(None);
        }
        Ok(Some(Msi64BitPvmCapability { window: window.subregion(0, 0x18) }))
    }

    fn as_subregion(&self) -> (w: PciSubregion) {
        self.window
    }

    fn header(&self) -> (h: CapabilityHeader) {
        CapabilityHeader::backed_by(self.window)
    }
}

// 7.7.2 MSI-X Capability and Table Structure

/// The MSI-X Capability (ID `0x11`).
#[derive(Clone, Copy, Debug)]
pub struct MsiXCapability {
    window: PciSubregion,
}

impl Capability for MsiXCapability {
    closed spec fn spec_window(&self) -> PciSubregion {
        self.window
    }

    open spec fn spec_matches(bytes: Seq<u8>, w: PciSubregion) -> bool {
        bytes[w.offset as int] == 0x11
    }

    open spec fn spec_length(bytes: Seq<u8>, w: PciSubregion) -> u64 {
        0x0c
    }

    open spec fn spec_probes_ok(bytes: Seq<u8>, w: PciSubregion) -> bool {
        w.offset + 1 <= bytes.len()
    }

    fn backed_by(region: &PciMemoryRegion, window: PciSubregion) -> (r: Result<
        Option<Self>,
        PciError,
    >) {
        let id = read_cap_id(region, window)?;
        if id != 0x11 {
            return Ok(None);
        }
        Ok(Some(MsiXCapability { window: window.subregion(0, 0x0c) }))
    }

    fn as_subregion(&self) -> (w: PciSubregion) {
        self.window
    }

    fn header(&self) -> (h: CapabilityHeader) {
        CapabilityHeader::backed_by(self.window)
    }
}

// 7.8.5 Enhanced Allocation Capability Structure (EA)

/// One step per entry of the Enhanced Allocation entry table: starting at
/// byte `cursor` of the window, each entry's first byte holds the entry's
/// further size in its low three bits.  `None` when a probed byte cannot
/// be read.
pub open spec fn spec_ea_walk(bytes: Seq<u8>, w: PciSubregion, n: nat, cursor: u64) -> Option<u64>
    decreases n,
{
    if n == 0 {
        Some(cursor)
    } else if cursor + 1 > w.length || w.offset + cursor + 1 > bytes.len() {
        None
    } else {
        spec_ea_walk(
            bytes,
            w,
            (n - 1) as nat,
            (cursor + 1 + (bytes[w.offset + cursor] & 0x07)) as u64,
        )
    }
}

/// The number of entries of the Enhanced Allocation capability whose
/// window is `w`.
pub open spec fn spec_ea_num_entries(bytes: Seq<u8>, w: PciSubregion) -> nat {
    (bytes[w.offset + 2] & 0x3f) as nat
}

/// The length of the Enhanced Allocation capability whose window is `w`:
/// where its entry table ends.
pub open spec fn spec_ea_length(bytes: Seq<u8>, w: PciSubregion) -> u64 {
    match spec_ea_walk(bytes, w, spec_ea_num_entries(bytes, w), 0x04) {
        Some(l) => l,
        None => 0,
    }
}

/// Whether the fields the Enhanced Allocation capability probes can be
/// read: the ID byte always, and for a matching ID also the entry count
/// and every visited entry's first byte.
pub open spec fn spec_ea_probes_ok(bytes: Seq<u8>, w: PciSubregion) -> bool {
    &&& w.offset + 1 <= bytes.len()
    &&& (bytes[w.offset as int] == 0x14 ==> (3 <= w.length && w.offset + 3 <= bytes.len()
        && spec_ea_walk(bytes, w, spec_ea_num_entries(bytes, w), 0x04) is Some))
}

/// Walks the Enhanced Allocation entry table and returns the capability's
/// length.
fn ea_length(region: &PciMemoryRegion, window: PciSubregion) -> (r: Result<u64, PciError>)
    requires
        window.spec_wf(),
    ensures
        (3 <= window.length && window.offset + 3 <= region@.len() && spec_ea_walk(
            region@,
            window,
            spec_ea_num_entries(region@, window),
            0x04,
        ) is Some) ==> r == Ok::<u64, PciError>(spec_ea_length(region@, window)),
        r is Err ==> !(3 <= window.length && window.offset + 3 <= region@.len() && spec_ea_walk(
            region@,
            window,
            spec_ea_num_entries(region@, window),
            0x04,
        ) is Some),
{
    let ghost b = region@;
    let num_entries_byte = window.read_u8(region, 0x02)?;
    let num_entries: u8 = num_entries_byte & 0x3f;
    proof {
        let y = num_entries_byte;
        assert((y & 0x3f) < 64) by (bit_vector);
    }
    let mut cursor: u64 = 0x04;
    for i in 0..num_entries
        invariant
            b == region@,
            window.spec_wf(),
            window.offset + 3 <= b.len() && 3 <= window.length ==> num_entries
                == spec_ea_num_entries(b, window),
            num_entries < 64,
            cursor <= 4 + 8 * i,
            spec_ea_walk(b, window, (num_entries - i) as nat, cursor) == spec_ea_walk(
                b,
                window,
                num_entries as nat,
                0x04,
            ),
    {
        let entry_byte = match window.read_u8(region, cursor) {
            Ok(v) => v,
            Err(e) => {
                proof {
                    assert(spec_ea_walk(b, window, (num_entries - i) as nat, cursor) is None);
                }
                return Err(e);
            },
        };
        let entry_size: u8 = entry_byte & 0x07;
        proof {
            let y = entry_byte;
            assert((y & 0x07) < 8) by (bit_vector);
            assert(spec_ea_walk(b, window, (num_entries - i) as nat, cursor) == spec_ea_walk(
                b,
                window,
                (num_entries - i - 1) as nat,
                (cursor + 1 + entry_size) as u64,
            ));
        }
        cursor = cursor + 1 + entry_size as u64;
    }
    Ok(cursor)
}

/// The Enhanced Allocation Capability (ID `0x14`), whose length is the
/// extent of its variable-length entry table.
#[derive(Clone, Copy, Debug)]
pub struct EnhancedAllocationCapability {
    window: PciSubregion,
}

impl Capability for EnhancedAllocationCapability {
    closed spec fn spec_window(&self) -> PciSubregion {
        self.window
    }

    open spec fn spec_matches(bytes: Seq<u8>, w: PciSubregion) -> bool {
        bytes[w.offset as int] == 0x14
    }

    open spec fn spec_length(bytes: Seq<u8>, w: PciSubregion) -> u64 {
        spec_ea_length(bytes, w)
    }

    open spec fn spec_probes_ok(bytes: Seq<u8>, w: PciSubregion) -> bool {
        spec_ea_probes_ok(bytes, w)
    }

    fn backed_by(region: &PciMemoryRegion, window: PciSubregion) -> (r: Result<
        Option<Self>,
        PciError,
    >) {
        let id = read_cap_id(region, window)?;
        if id != 0x14 {
            return Ok(None);
        }
        let length = ea_length(region, window)?;
        Ok(Some(EnhancedAllocationCapability { window: window.subregion(0, length) }))
    }

    fn as_subregion(&self) -> (w: PciSubregion) {
        self.window
    }

    fn header(&self) -> (h: CapabilityHeader) {
        CapabilityHeader::backed_by(self.window)
    }
}

// 7.9.4 Vendor-Specific Capability

/// The Vendor-Specific Capability (ID `0x09`), whose length is its own
/// "Capability Length" byte.
#[derive(Clone, Copy, Debug)]
pub struct VendorSpecificCapability {
    window: PciSubregion,
}

impl VendorSpecificCapability {
    /// The read-only "Capability Length" register.
    pub fn capability_length(&self) -> (r: PciRegisterRo)
        requires
            self.spec_window().spec_wf(),
        ensures
            r.width == PciRegisterWidth::W8,
            r.offset == self.spec_window().spec_subregion(0x02, u64::MAX).offset,
            self.spec_window().length >= 2 ==> r.offset == self.spec_window().offset + 2,
    {
        PciRegisterRo::backed_by(self.window.subregion(0x02, u64::MAX), PciRegisterWidth::W8)
    }
}

impl Capability for VendorSpecificCapability {
    closed spec fn spec_window(&self) -> PciSubregion {
        self.window
    }

    open spec fn spec_matches(bytes: Seq<u8>, w: PciSubregion) -> bool {
        bytes[w.offset as int] == 0x09
    }

    open spec fn spec_length(bytes: Seq<u8>, w: PciSubregion) -> u64 {
        bytes[w.offset + 2] as u64
    }

    open spec fn spec_probes_ok(bytes: Seq<u8>, w: PciSubregion) -> bool {
        &&& w.offset + 1 <= bytes.len()
        &&& (bytes[w.offset as int] == 0x09 ==> (2 <= w.length && w.offset + 3 <= bytes.len()))
    }

    fn backed_by(region: &PciMemoryRegion, window: PciSubregion) -> (r: Result<
        Option<Self>,
        PciError,
    >) {
        let id = read_cap_id(region, window)?;
        if id != 0x09 {
            return Ok(None);
        }
        let cap = VendorSpecificCapability { window };
        let length = cap.capability_length().read(region)?;
        Ok(Some(VendorSpecificCapability { window: window.subregion(0, length as u64) }))
    }

    fn as_subregion(&self) -> (w: PciSubregion) {
        self.window
    }

    fn header(&self) -> (h: CapabilityHeader) {
        CapabilityHeader::backed_by(self.window)
    }
}

// 7.9.18 Vital Product Data Capability (VPD Capability)

/// The Vital Product Data Capability (ID `0x03`).
#[derive(Clone, Copy, Debug)]
pub struct VitalProductDataCapability {
    window: PciSubregion,
}

impl VitalProductDataCapability {
    /// The read-write "VPD Data Register".
    pub fn vpd_data_register(&self) -> (r: PciRegisterRw)
        requires
            self.spec_window().spec_wf(),
        ensures
            r.width == PciRegisterWidth::W32,
            r.offset == self.spec_window().spec_subregion(0x04, u64::MAX).offset,
            self.spec_window().length >= 4 ==> r.offset == self.spec_window().offset + 4,
    {
        PciRegisterRw::backed_by(self.window.subregion(0x04, u64::MAX), PciRegisterWidth::W32)
    }
}

impl Capability for VitalProductDataCapability {
    closed spec fn spec_window(&self) -> PciSubregion {
        self.window
    }

    open spec fn spec_matches(bytes: Seq<u8>, w: PciSubregion) -> bool {
        bytes[w.offset as int] == 0x03
    }

    open spec fn spec_length(bytes: Seq<u8>, w: PciSubregion) -> u64 {
        0x08
    }

    open spec fn spec_probes_ok(bytes: Seq<u8>, w: PciSubregion) -> bool {
        w.offset + 1 <= bytes.len()
    }

    fn backed_by(region: &PciMemoryRegion, window: PciSubregion) -> (r: Result<
        Option<Self>,
        PciError,
    >) {
        let id = read_cap_id(region, window)?;
        if id != 0x03 {
            return Ok(None);
        }
        Ok(Some(VitalProductDataCapability { window: window.subregion(0, 0x08) }))
    }

    fn as_subregion(&self) -> (w: PciSubregion) {
        self.window
    }

    fn header(&self) -> (h: CapabilityHeader) {
        CapabilityHeader::backed_by(self.window)
    }
}

// 7.9.21 Conventional PCI Advanced Features Capability (AF)

/// The Conventional PCI Advanced Features Capability (ID `0x13`).
#[derive(Clone, Copy, Debug)]
pub struct ConventionalPciAdvancedFeaturesCapability {
    window: PciSubregion,
}

impl Capability for ConventionalPciAdvancedFeaturesCapability {
    closed spec fn spec_window(&self) -> PciSubregion {
        self.window
    }

    open spec fn spec_matches(bytes: Seq<u8>, w: PciSubregion) -> bool {
        bytes[w.offset as int] == 0x13
    }

    open spec fn spec_length(bytes: Seq<u8>, w: PciSubregion) -> u64 {
        0x06
    }

    open spec fn spec_probes_ok(bytes: Seq<u8>, w: PciSubregion) -> bool {
        w.offset + 1 <= bytes.len()
    }

    fn backed_by(region: &PciMemoryRegion, window: PciSubregion) -> (r: Result<
        Option<Self>,
        PciError,
    >) {
        let id = read_cap_id(region, window)?;
        if id != 0x13 {
            return Ok(None);
        }
        Ok(Some(ConventionalPciAdvancedFeaturesCapability { window: window.subregion(0, 0x06) }))
    }

    fn as_subregion(&self) -> (w: PciSubregion) {
        self.window
    }

    fn header(&self) -> (h: CapabilityHeader) {
        CapabilityHeader::backed_by(self.window)
    }
}

// 7.9.27 Null Capability

/// The Null Capability (ID `0x00`): a placeholder entry with no content.
#[derive(Clone, Copy, Debug)]
pub struct NullCapability {
    window: PciSubregion,
}

impl Capability for NullCapability {
    closed spec fn spec_window(&self) -> PciSubregion {
        self.window
    }

    open spec fn spec_matches(bytes: Seq<u8>, w: PciSubregion) -> bool {
        bytes[w.offset as int] == 0x00
    }

    open spec fn spec_length(bytes: Seq<u8>, w: PciSubregion) -> u64 {
        0x02
    }

    open spec fn spec_probes_ok(bytes: Seq<u8>, w: PciSubregion) -> bool {
        w.offset + 1 <= bytes.len()
    }

    fn backed_by(region: &PciMemoryRegion, window: PciSubregion) -> (r: Result<
        Option<Self>,
        PciError,
    >) {
        let id = read_cap_id(region, window)?;
        if id != 0x00 {
            return Ok(None);
        }
        Ok(Some(NullCapability { window: window.subregion(0, 0x02) }))
    }

    fn as_subregion(&self) -> (w: PciSubregion) {
        self.window
    }

    fn header(&self) -> (h: CapabilityHeader) {
        CapabilityHeader::backed_by(self.window)
    }
}

} // verus!
