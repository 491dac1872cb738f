//! The Ethernet header overlay and the classification of frames by the
//! Ethernet type field.

use vstd::prelude::*;

use crate::wire::{be16, read_be16};

verus! {

/// Size of the Ethernet header on the wire, in bytes.
pub const MAC_HEADER_SIZE: usize = 14;

/// The Ethernet type value of IPv4.
pub const ETYPE_IPV4: u16 = 0x0800;

/// The Ethernet type value of ARP.
pub const ETYPE_ARP: u16 = 0x0806;

/// The fixed classification outcomes: one group per branch of the
/// pipeline.
#[derive(PartialEq, Eq, Structural, Clone, Copy, Debug)]
pub enum Group {
    /// Ethernet type 0x0800: handled by the UDP-export branch.
    Ipv4,
    /// Ethernet type 0x0806: handled by the ARP-responder branch.
    Arp,
    /// Every other Ethernet type: passed through unmodified.
    Other,
}

/// A typed view over one Ethernet header's bytes: destination 0..6,
/// source 6..12, Ethernet type 12..14 (big-endian).
pub struct MacHeader {
    bytes: Vec<u8>,
}

impl View for MacHeader {
    type V = Seq<u8>;

    /// The stored (network-order) bytes of the header window.
    closed spec fn view(&self) -> Seq<u8> {
        self.bytes@
    }
}

impl MacHeader {
    /// The header view is exactly one Ethernet header wide.
    pub open spec fn wf(self) -> bool {
        self@.len() == 14
    }

    /// Ethernet type, host order.
    pub open spec fn etype_spec(self) -> u16 {
        be16(self@, 12)
    }

    /// Construct a view over the 14 bytes of `frame` starting at `offset`.
    ///
    /// Fails (returns `None`, so the caller drops the packet) when fewer
    /// than 14 bytes remain at the cursor; never panics.
    pub fn parse(frame: &Vec<u8>, offset: usize) -> (r: Option<MacHeader>)
        ensures
            offset + 14 <= frame@.len() ==> (r matches Some(h) && h.wf() && h@
                == frame@.subrange(offset as int, offset + 14)),
            offset + 14 > frame@.len() ==> r is None,
    {
        if offset > frame.len() || frame.len() - offset < 14 {
            return None;
        }
        let mut bytes: Vec<u8> = Vec::new();
        let mut i: usize = 0;
        while i < 14
            invariant
                i <= 14,
                offset + 14 <= frame.len(),
                bytes@ == frame@.subrange(offset as int, offset + i),
            decreases 14 - i,
        {
            bytes.push(frame[offset + i]);
            proof {
                assert(frame@.subrange(offset as int, offset + i + 1) == frame@.subrange(
                    offset as int,
                    offset + i,
                ).push(frame@[offset + i]));
            }
            i = i + 1;
        }
        Some(MacHeader { bytes })
    }

    /// Ethernet type, converted from network to host order.
    pub fn etype(&self) -> (r: u16)
        requires
            self.wf(),
        ensures
            r == self.etype_spec(),
    {
        read_be16(&self.bytes, 12)
    }

    /// Fixed on-wire size of the Ethernet header.
    pub fn size() -> (r: usize)
        ensures
            r == 14,
    {
        MAC_HEADER_SIZE
    }
}

/// The group an Ethernet type value selects.
pub open spec fn group_of_etype(etype: u16) -> Group {
    if etype == 0x0800 {
        Group::Ipv4
    } else if etype == 0x0806 {
        Group::Arp
    } else {
        Group::Other
    }
}

/// The classification of a whole frame: `None` when the frame is too
/// short to carry an Ethernet header (such a frame is dropped at parse),
/// otherwise the group its Ethernet type selects.
pub open spec fn frame_group(f: Seq<u8>) -> Option<Group> {
    if f.len() < 14 {
        None
    } else {
        Some(group_of_etype(be16(f, 12)))
    }
}

/// Classify one Ethernet type value.
pub fn classify_etype(etype: u16) -> (g: Group)
    ensures
        g == group_of_etype(etype),
{
    if etype == ETYPE_IPV4 {
        Group::Ipv4
    } else if etype == ETYPE_ARP {
        Group::Arp
    } else {
        Group::Other
    }
}

/// Classify one frame: parse the Ethernet header, then key on its type
/// field alone.
pub fn classify_frame(frame: &Vec<u8>) -> (g: Option<Group>)
    ensures
        g == frame_group(frame@),
{
    match MacHeader::parse(frame, 0) {
        Some(h) => Some(classify_etype(h.etype())),
        None => None,
    }
}

/// Classification is a pure function of the Ethernet type field: two
/// frames whose bytes agree on the type field (and that both carry a whole
/// Ethernet header) are assigned the identical group, whatever the rest of
/// their bytes hold.
pub proof fn lemma_classification_pure(a: Seq<u8>, b: Seq<u8>)
    requires
        a.len() >= 14,
        b.len() >= 14,
        a.subrange(12, 14) == b.subrange(12, 14),
    ensures
        frame_group(a) == frame_group(b),
{
    assert(a[12] == a.subrange(12, 14)[0]);
    assert(a[13] == a.subrange(12, 14)[1]);
    assert(b[12] == b.subrange(12, 14)[0]);
    assert(b[13] == b.subrange(12, 14)[1]);
}

} // verus!
