//! The ARP header overlay: a typed, size-checked view over the 28 bytes
//! that follow the Ethernet header, with network-byte-order accessors.
//!
//! The view owns a copy of its 28-byte window. `parse` constructs it only
//! when enough bytes remain at the cursor; `store` writes the (possibly
//! mutated) window back in place, leaving every byte outside the window
//! untouched.

use vstd::prelude::*;

use crate::wire::{be16, be32, read_be16, read_be32, write_be16, write_be32};

verus! {

/// Size of the ARP header on the wire, in bytes.
pub const ARP_HEADER_SIZE: usize = 28;

/// A typed view over one ARP header's bytes.
///
/// Field layout (offsets within the 28-byte window, all multi-byte fields
/// big-endian): hardware type 0..2, protocol type 2..4, hardware address
/// length 4, protocol address length 5, operation 6..8, sender hardware
/// address 8..14, sender protocol address 14..18, target hardware address
/// 18..24, target protocol address 24..28.
pub struct ArpHeader {
    bytes: Vec<u8>,
}

impl View for ArpHeader {
    type V = Seq<u8>;

    /// The stored (network-order) bytes of the header window.
    closed spec fn view(&self) -> Seq<u8> {
        self.bytes@
    }
}

impl ArpHeader {
    /// The header view is exactly one ARP header wide.
    pub open spec fn wf(self) -> bool {
        self@.len() == 28
    }

    /// Hardware type, host order.
    pub open spec fn htype_spec(self) -> u16 {
        be16(self@, 0)
    }

    /// Protocol type, host order.
    pub open spec fn ptype_spec(self) -> u16 {
        be16(self@, 2)
    }

    /// Hardware address length.
    pub open spec fn hlen_spec(self) -> u8 {
        self@[4]
    }

    /// Protocol address length.
    pub open spec fn plen_spec(self) -> u8 {
        self@[5]
    }

    /// Operation code, host order.
    pub open spec fn oper_spec(self) -> u16 {
        be16(self@, 6)
    }

    /// Sender hardware address (6 bytes).
    pub open spec fn sha_spec(self) -> Seq<u8> {
        self@.subrange(8, 14)
    }

    /// Sender protocol address, host order.
    pub open spec fn spa_spec(self) -> u32 {
        be32(self@, 14)
    }

    /// Target hardware address (6 bytes).
    pub open spec fn tha_spec(self) -> Seq<u8> {
        self@.subrange(18, 24)
    }

    /// Target protocol address, host order.
    pub open spec fn tpa_spec(self) -> u32 {
        be32(self@, 24)
    }

    /// Construct a view over the 28 bytes of `frame` starting at `offset`.
    ///
    /// Fails (returns `None`, so the caller drops the packet) when fewer
    /// than 28 bytes remain at the cursor; never panics.
    pub fn parse(frame: &Vec<u8>, offset: usize) -> (r: Option<ArpHeader>)
        ensures
            offset + 28 <= frame@.len() ==> (r matches Some(h) && h.wf() && h@
                == frame@.subrange(offset as int, offset + 28)),
            offset + 28 > frame@.len() ==> r is None,
    {
        if offset > frame.len() || frame.len() - offset < 28 {
            return None;
        }
        let mut bytes: Vec<u8> = Vec::new();
        let mut i: usize = 0;
        while i < 28
            invariant
                i <= 28,
                offset + 28 <= frame.len(),
                bytes@ == frame@.subrange(offset as int, offset + i),
            decreases 28 - i,
        {
            bytes.push(frame[offset + i]);
            proof {
                assert(frame@.subrange(offset as int, offset + i + 1) == frame@.subrange(
                    offset as int,
                    offset + i,
                ).push(frame@[offset + i]));
            }
            i = i + 1;
        }
        Some(ArpHeader { bytes })
    }

    /// Write the header window back into `frame` at `offset`, in place:
    /// bytes outside the window are unchanged and the frame keeps its
    /// length.
    pub fn store(&self, frame: &mut Vec<u8>, offset: usize)
        requires
            self.wf(),
            offset + 28 <= old(frame).len(),
        ensures
            final(frame)@.len() == old(frame)@.len(),
            final(frame)@ == old(frame)@.subrange(0, offset as int) + self@
                + old(frame)@.subrange(offset + 28, old(frame)@.len() as int),
    {
        let mut i: usize = 0;
        while i < 28
            invariant
                i <= 28,
                self.wf(),
                offset + 28 <= frame.len(),
                frame@.len() == old(frame)@.len(),
                forall|j: int| 0 <= j < i ==> frame@[offset + j] == self.bytes@[j],
                forall|j: int|
                    0 <= j < frame@.len() && !(offset <= j < offset + i) ==> frame@[j] == old(
                        frame,
                    )@[j],
            decreases 28 - i,
        {
            frame.set(offset + i, self.bytes[i]);
            i = i + 1;
        }
        proof {
            assert(frame@ =~= old(frame)@.subrange(0, offset as int) + self.bytes@ + old(
                frame,
            )@.subrange(offset + 28, old(frame)@.len() as int));
        }
    }

    /// Hardware type, converted from network to host order.
    pub fn htype(&self) -> (r: u16)
        requires
            self.wf(),
        ensures
            r == self.htype_spec(),
    {
        read_be16(&self.bytes, 0)
    }

    /// Protocol type, converted from network to host order.
    pub fn ptype(&self) -> (r: u16)
        requires
            self.wf(),
        ensures
            r == self.ptype_spec(),
    {
        read_be16(&self.bytes, 2)
    }

    /// Hardware address length.
    pub fn hlen(&self) -> (r: u8)
        requires
            self.wf(),
        ensures
            r == self.hlen_spec(),
    {
        self.bytes[4]
    }

    /// Protocol address length.
    pub fn plen(&self) -> (r: u8)
        requires
            self.wf(),
        ensures
            r == self.plen_spec(),
    {
        self.bytes[5]
    }

    /// Operation code, converted from network to host order.
    pub fn oper(&self) -> (r: u16)
        requires
            self.wf(),
        ensures
            r == self.oper_spec(),
    {
        read_be16(&self.bytes, 6)
    }

    /// Set the operation code; the value is stored in network order and
    /// reads back unchanged, and no other field moves.
    pub fn set_oper(&mut self, oper: u16)
        requires
            old(self).wf(),
        ensures
            final(self).wf(),
            final(self).oper_spec() == oper,
            final(self)@[6] == (oper >> 8) as u8,
            final(self)@[7] == (oper & 0xff) as u8,
            forall|j: int|
                0 <= j < 28 && !(6 <= j < 8) ==> final(self)@[j] == old(
                    self,
                )@[j],
    {
        write_be16(&mut self.bytes, 6, oper)
    }

    /// Sender hardware address, as an owned 6-byte copy.
    pub fn sha(&self) -> (r: Vec<u8>)
        requires
            self.wf(),
        ensures
            r@ == self.sha_spec(),
    {
        self.field6(8)
    }

    /// Set the sender hardware address from a 6-byte value; no other field
    /// moves.
    pub fn set_sha(&mut self, a: &Vec<u8>)
        requires
            old(self).wf(),
            a@.len() == 6,
        ensures
            final(self).wf(),
            final(self).sha_spec() == a@,
            forall|j: int|
                0 <= j < 28 && !(8 <= j < 14) ==> final(self)@[j] == old(
                    self,
                )@[j],
    {
        self.set_field6(8, a)
    }

    /// Sender protocol address, converted from network to host order.
    pub fn spa(&self) -> (r: u32)
        requires
            self.wf(),
        ensures
            r == self.spa_spec(),
    {
        read_be32(&self.bytes, 14)
    }

    /// Set the sender protocol address; the value is stored in network
    /// order and reads back unchanged, and no other field moves.
    pub fn set_spa(&mut self, v: u32)
        requires
            old(self).wf(),
        ensures
            final(self).wf(),
            final(self).spa_spec() == v,
            forall|j: int|
                0 <= j < 28 && !(14 <= j < 18) ==> final(self)@[j] == old(
                    self,
                )@[j],
    {
        write_be32(&mut self.bytes, 14, v)
    }

    /// Target hardware address, as an owned 6-byte copy.
    pub fn tha(&self) -> (r: Vec<u8>)
        requires
            self.wf(),
        ensures
            r@ == self.tha_spec(),
    {
        self.field6(18)
    }

    /// Set the target hardware address from a 6-byte value; no other field
    /// moves.
    pub fn set_tha(&mut self, a: &Vec<u8>)
        requires
            old(self).wf(),
            a@.len() == 6,
        ensures
            final(self).wf(),
            final(self).tha_spec() == a@,
            forall|j: int|
                0 <= j < 28 && !(18 <= j < 24) ==> final(self)@[j] == old(
                    self,
                )@[j],
    {
        self.set_field6(18, a)
    }

    /// Target protocol address, converted from network to host order.
    pub fn tpa(&self) -> (r: u32)
        requires
            self.wf(),
        ensures
            r == self.tpa_spec(),
    {
        read_be32(&self.bytes, 24)
    }

    /// Set the target protocol address; the value is stored in network
    /// order and reads back unchanged, and no other field moves.
    pub fn set_tpa(&mut self, v: u32)
        requires
            old(self).wf(),
        ensures
            final(self).wf(),
            final(self).tpa_spec() == v,
            forall|j: int|
                0 <= j < 28 && !(24 <= j < 28) ==> final(self)@[j] == old(
                    self,
                )@[j],
    {
        write_be32(&mut self.bytes, 24, v)
    }

    /// Copy the 6-byte field at `off` out of the window.
    fn field6(&self, off: usize) -> (r: Vec<u8>)
        requires
            self.wf(),
            off + 6 <= 28,
        ensures
            r@ == self.bytes@.subrange(off as int, off + 6),
    {
        let mut r: Vec<u8> = Vec::new();
        let mut i: usize = 0;
        while i < 6
            invariant
                i <= 6,
                self.wf(),
                off + 6 <= 28,
                r@ == self.bytes@.subrange(off as int, off + i),
            decreases 6 - i,
        {
            r.push(self.bytes[off + i]);
            proof {
                assert(self.bytes@.subrange(off as int, off + i + 1) == self.bytes@.subrange(
                    off as int,
                    off + i,
                ).push(self.bytes@[off + i]));
            }
            i = i + 1;
        }
        r
    }

    /// Overwrite the 6-byte field at `off` with `a`.
    fn set_field6(&mut self, off: usize, a: &Vec<u8>)
        requires
            old(self).wf(),
            off + 6 <= 28,
            a@.len() == 6,
        ensures
            final(self).wf(),
            final(self).bytes@.subrange(off as int, off + 6) == a@,
            forall|j: int|
                0 <= j < 28 && !(off <= j < off + 6) ==> final(self).bytes@[j] == old(
                    self,
                ).bytes@[j],
    {
        let mut i: usize = 0;
        while i < 6
            invariant
                i <= 6,
                off + 6 <= 28,
                a@.len() == 6,
                self.bytes@.len() == 28,
                forall|j: int| 0 <= j < i ==> self.bytes@[off + j] == a@[j],
                forall|j: int|
                    0 <= j < 28 && !(off <= j < off + i) ==> self.bytes@[j] == old(
                        self,
                    ).bytes@[j],
            decreases 6 - i,
        {
            self.bytes.set(off + i, a[i]);
            i = i + 1;
        }
        proof {
            assert(self.bytes@.subrange(off as int, off + 6) =~= a@);
        }
    }

    /// Offset to the next header: the whole fixed-size ARP header.
    pub fn offset(&self) -> (r: usize)
        ensures
            r == 28,
    {
        28
    }

    /// Fixed on-wire size of the ARP header.
    pub fn size() -> (r: usize)
        ensures
            r == 28,
    {
        ARP_HEADER_SIZE
    }

    /// Bytes left for a payload out of `hint` bytes at the cursor; defined
    /// only when at least a whole header fits in `hint`.
    pub fn payload_size(&self, hint: usize) -> (r: usize)
        requires
            hint >= 28,
        ensures
            r == hint - 28,
    {
        hint - 28
    }

    /// Consistency check against the preceding Ethernet header. The ARP
    /// branch is selected by the Ethernet type field alone, so this view
    /// performs no further validation and always accepts.
    pub fn check_correct(&self, _prev: &crate::eth::MacHeader) -> (r: bool)
        ensures
            r == true,
    {
        true
    }
}

/// Whether a frame survives the ARP-responder branch: the header view can
/// be constructed after the Ethernet header, the operation is a request,
/// and the target protocol address is the one the responder answers for.
pub open spec fn arp_keep(f: Seq<u8>, responder_tpa: u32) -> bool {
    f.len() >= 42 && be16(f, 20) == 1 && be32(f, 38) == responder_tpa
}

/// The 28-byte ARP header window after the reply rewrite: operation set
/// to 2, sender/target hardware and protocol addresses exchanged, and the
/// sender hardware address then forced to the responder's own address
/// `mac`. Hardware type, protocol type and the two length fields keep
/// their bytes.
pub open spec fn arp_reply_header(h: Seq<u8>, mac: Seq<u8>) -> Seq<u8>
    recommends
        h.len() == 28,
        mac.len() == 6,
{
    h.subrange(0, 6) + seq![0u8, 2u8] + mac + h.subrange(24, 28) + h.subrange(8, 14) + h.subrange(
        14,
        18,
    )
}

/// A whole frame after the reply rewrite: only the ARP header window
/// changes; the Ethernet header and any trailing bytes stay in place, and
/// the frame keeps its length.
pub open spec fn arp_reply_frame(f: Seq<u8>, mac: Seq<u8>) -> Seq<u8>
    recommends
        f.len() >= 42,
        mac.len() == 6,
{
    f.subrange(0, 14) + arp_reply_header(f.subrange(14, 42), mac) + f.subrange(42, f.len() as int)
}

/// What the reply rewrite leaves in each field: the emitted frame has
/// operation 2, its sender and target hardware and protocol addresses
/// exchanged relative to the input, and its sender hardware address then
/// forced to the responder identity `mac`; every other byte — Ethernet
/// header, hardware/protocol types and lengths, trailing bytes — and the
/// frame's length are unchanged.
pub proof fn lemma_arp_reply_fields(f: Seq<u8>, mac: Seq<u8>)
    requires
        f.len() >= 42,
        mac.len() == 6,
    ensures
        ({
            let r = arp_reply_frame(f, mac);
            &&& r.len() == f.len()
            &&& r.subrange(0, 14) == f.subrange(0, 14)
            &&& be16(r, 14) == be16(f, 14)
            &&& be16(r, 16) == be16(f, 16)
            &&& r[18] == f[18]
            &&& r[19] == f[19]
            &&& be16(r, 20) == 2
            &&& r.subrange(22, 28) == mac
            &&& be32(r, 28) == be32(f, 38)
            &&& r.subrange(32, 38) == f.subrange(22, 28)
            &&& be32(r, 38) == be32(f, 28)
            &&& r.subrange(42, r.len() as int) == f.subrange(42, f.len() as int)
        }),
{
    let h = f.subrange(14, 42);
    let rh = arp_reply_header(h, mac);
    let r = arp_reply_frame(f, mac);
    assert(rh.len() == 28);
    assert forall|j: int| 0 <= j < 28 implies r[14 + j] == rh[j] by {}
    assert(r.subrange(0, 14) =~= f.subrange(0, 14));
    assert(r.subrange(22, 28) =~= mac);
    assert(r.subrange(32, 38) =~= f.subrange(22, 28));
    assert(r.subrange(42, r.len() as int) =~= f.subrange(42, f.len() as int));
    assert(r[20] == 0u8 && r[21] == 2u8);
    assert(be16(r, 20) == 2);
    assert(r[14] == f[14] && r[15] == f[15] && r[16] == f[16] && r[17] == f[17]);
    assert(r[28] == f[38] && r[29] == f[39] && r[30] == f[40] && r[31] == f[41]);
    assert(r[38] == f[28] && r[39] == f[29] && r[40] == f[30] && r[41] == f[31]);
}

/// Decide whether `frame` survives the ARP-responder branch; a frame too
/// short for the header view is dropped, never a fault.
pub fn arp_keep_exec(frame: &Vec<u8>, responder_tpa: u32) -> (r: bool)
    ensures
        r == arp_keep(frame@, responder_tpa),
{
    match ArpHeader::parse(frame, 14) {
        Some(h) => {
            proof {
                assert(h@[6] == frame@[20]);
                assert(h@[7] == frame@[21]);
                assert(h@[24] == frame@[38]);
                assert(h@[25] == frame@[39]);
                assert(h@[26] == frame@[40]);
                assert(h@[27] == frame@[41]);
            }
            h.oper() == 1 && h.tpa() == responder_tpa
        },
        None => false,
    }
}

/// Rewrite an ARP request into the reply, in place: set the operation to
/// 2, swap the sender and target hardware addresses, swap the sender and
/// target protocol addresses, and only then overwrite the sender hardware
/// address with the responder's own address — the swaps run first so that
/// the requester's address has already moved into the target slot. The
/// header keeps its size; no byte outside the header window changes.
#[verifier::rlimit(100)]
pub fn make_arp_reply(frame: &mut Vec<u8>, mac: &Vec<u8>)
    requires
        old(frame)@.len() >= 42,
        mac@.len() == 6,
    ensures
        final(frame)@ == arp_reply_frame(old(frame)@, mac@),
        final(frame)@.len() == old(frame)@.len(),
{
    let mut h = match ArpHeader::parse(frame, 14) {
        Some(h) => h,
        None => {
            proof {
                assert(false);
            }
            return ;
        },
    };
    let sha = h.sha();
    let tha = h.tha();
    let spa = h.spa();
    let tpa = h.tpa();
    h.set_oper(2);
    h.set_sha(&tha);
    h.set_tha(&sha);
    h.set_spa(tpa);
    h.set_tpa(spa);
    h.set_sha(mac);
    proof {
        let h0 = old(frame)@.subrange(14, 42);
        assert(h@.subrange(0, 6) =~= h0.subrange(0, 6));
        assert(h@[6] == 0u8 && h@[7] == 2u8);
        assert(h@.subrange(8, 14) =~= mac@);
        assert(h@.subrange(14, 18) =~= h0.subrange(24, 28));
        assert(h@.subrange(18, 24) =~= h0.subrange(8, 14));
        assert(h@.subrange(24, 28) =~= h0.subrange(14, 18));
        assert(h@ =~= arp_reply_header(h0, mac@));
    }
    h.store(frame, 14);
    proof {
        assert(frame@ =~= arp_reply_frame(old(frame)@, mac@));
    }
}

} // verus!
