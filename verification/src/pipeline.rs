//! The classify → filter/transform → merge pipeline: one batch is
//! partitioned by Ethernet type, the UDP branch filters to UDP packets and
//! exports their payloads through the handoff channel, the ARP branch
//! filters to requests for the configured address and rewrites them into
//! replies in place, the default branch passes through unmodified, and the
//! branch outputs are recombined into one outbound stream.

use vstd::prelude::*;

use crate::arp::{arp_keep, arp_keep_exec, arp_reply_frame, make_arp_reply};
use crate::batch::{
    group_seq, lemma_group_len, lemma_group_partition, lemma_views_push, unparsed_count, views,
};
use crate::channel::{after_enqueue, enqueue_drops, HandoffChannel};
use crate::eth::{classify_frame, frame_group, Group};
use crate::ipv4::{extract_udp_payload, ip_header_len, udp_keep, udp_keep_exec, udp_payload};

verus! {

/// The configuration the ARP responder answers with: the protocol address
/// it answers for, and the hardware address it writes into replies.
pub struct NfConfig {
    /// The target protocol address this responder answers requests for.
    pub responder_tpa: u32,
    /// The responder's own hardware address, written into every reply.
    pub responder_mac: Vec<u8>,
}

impl NfConfig {
    /// A hardware address fills the ARP header's 6-byte field exactly.
    pub open spec fn wf(self) -> bool {
        self.responder_mac@.len() == 6
    }

    /// Build a configuration from the responder's protocol and hardware
    /// addresses.
    pub fn new(responder_tpa: u32, responder_mac: Vec<u8>) -> (r: NfConfig)
        requires
            responder_mac@.len() == 6,
        ensures
            r.wf(),
            r.responder_tpa == responder_tpa,
            r.responder_mac@ == responder_mac@,
    {
        NfConfig { responder_tpa, responder_mac }
    }
}

/// The frames of `b` that survive the UDP-export branch, in input order.
pub open spec fn udp_seq(b: Seq<Seq<u8>>) -> Seq<Seq<u8>>
    decreases b.len(),
{
    if b.len() == 0 {
        Seq::empty()
    } else {
        udp_seq(b.drop_last()) + if udp_keep(b.last()) {
            seq![b.last()]
        } else {
            Seq::empty()
        }
    }
}

/// The payloads the UDP-export branch hands to the channel: one per
/// surviving frame, in input order.
pub open spec fn udp_payloads(b: Seq<Seq<u8>>) -> Seq<Seq<u8>>
    decreases b.len(),
{
    if b.len() == 0 {
        Seq::empty()
    } else {
        udp_payloads(b.drop_last()) + if udp_keep(b.last()) {
            seq![udp_payload(b.last())]
        } else {
            Seq::empty()
        }
    }
}

proof fn lemma_udp_seq_push(b: Seq<Seq<u8>>)
    requires
        b.len() > 0,
    ensures
        udp_keep(b.last()) ==> udp_seq(b) == udp_seq(b.drop_last()).push(b.last())
            && udp_payloads(b) == udp_payloads(b.drop_last()).push(udp_payload(b.last())),
        !udp_keep(b.last()) ==> udp_seq(b) == udp_seq(b.drop_last()) && udp_payloads(b)
            == udp_payloads(b.drop_last()),
{
    if udp_keep(b.last()) {
        assert(udp_seq(b.drop_last()) + seq![b.last()] =~= udp_seq(b.drop_last()).push(b.last()));
        assert(udp_payloads(b.drop_last()) + seq![udp_payload(b.last())] =~= udp_payloads(
            b.drop_last(),
        ).push(udp_payload(b.last())));
    } else {
        assert(udp_seq(b.drop_last()) + Seq::<Seq<u8>>::empty() =~= udp_seq(b.drop_last()));
        assert(udp_payloads(b.drop_last()) + Seq::<Seq<u8>>::empty() =~= udp_payloads(
            b.drop_last(),
        ));
    }
}

/// One payload reaches the channel per surviving frame.
pub proof fn lemma_udp_one_payload_each(b: Seq<Seq<u8>>)
    ensures
        udp_payloads(b).len() == udp_seq(b).len(),
        udp_seq(b).len() <= b.len(),
    decreases b.len(),
{
    if b.len() > 0 {
        lemma_udp_one_payload_each(b.drop_last());
    }
}

/// The frames the ARP-responder branch emits for input `b`: the reply
/// rewrite of each frame that is a request for `responder_tpa`, in input
/// order; every other frame is dropped.
pub open spec fn arp_seq(b: Seq<Seq<u8>>, responder_tpa: u32, mac: Seq<u8>) -> Seq<Seq<u8>>
    decreases b.len(),
{
    if b.len() == 0 {
        Seq::empty()
    } else {
        arp_seq(b.drop_last(), responder_tpa, mac) + if arp_keep(b.last(), responder_tpa) {
            seq![arp_reply_frame(b.last(), mac)]
        } else {
            Seq::empty()
        }
    }
}

proof fn lemma_arp_seq_push(b: Seq<Seq<u8>>, responder_tpa: u32, mac: Seq<u8>)
    requires
        b.len() > 0,
    ensures
        arp_keep(b.last(), responder_tpa) ==> arp_seq(b, responder_tpa, mac) == arp_seq(
            b.drop_last(),
            responder_tpa,
            mac,
        ).push(arp_reply_frame(b.last(), mac)),
        !arp_keep(b.last(), responder_tpa) ==> arp_seq(b, responder_tpa, mac) == arp_seq(
            b.drop_last(),
            responder_tpa,
            mac,
        ),
{
    if arp_keep(b.last(), responder_tpa) {
        assert(arp_seq(b.drop_last(), responder_tpa, mac) + seq![arp_reply_frame(b.last(), mac)]
            =~= arp_seq(b.drop_last(), responder_tpa, mac).push(arp_reply_frame(b.last(), mac)));
    } else {
        assert(arp_seq(b.drop_last(), responder_tpa, mac) + Seq::<Seq<u8>>::empty() =~= arp_seq(
            b.drop_last(),
            responder_tpa,
            mac,
        ));
    }
}

/// The branch keeps no more frames than it was handed.
pub proof fn lemma_arp_seq_len(b: Seq<Seq<u8>>, responder_tpa: u32, mac: Seq<u8>)
    ensures
        arp_seq(b, responder_tpa, mac).len() <= b.len(),
    decreases b.len(),
{
    if b.len() > 0 {
        lemma_arp_seq_len(b.drop_last(), responder_tpa, mac);
    }
}

/// The UDP-export branch: keep only frames whose IP protocol field is
/// UDP (dropping the rest, with no mutation of survivors), and hand an
/// owned copy of each survivor's UDP payload to the channel. A payload
/// the channel rejects is dropped and never retried; the branch
/// continues.
pub fn udp_branch(batch: Vec<Vec<u8>>, chan: &mut HandoffChannel) -> (out: Vec<Vec<u8>>)
    requires
        old(chan).dropped_spec() + batch@.len() < u64::MAX,
    ensures
        views(out@) == udp_seq(views(batch@)),
        final(chan)@ == after_enqueue(
            old(chan)@,
            old(chan).capacity_spec(),
            udp_payloads(views(batch@)),
        ),
        final(chan).capacity_spec() == old(chan).capacity_spec(),
        final(chan).dropped_spec() == old(chan).dropped_spec() + enqueue_drops(
            old(chan)@,
            old(chan).capacity_spec(),
            udp_payloads(views(batch@)),
        ),
{
    let ghost orig: Seq<Vec<u8>> = batch@;
    let ghost q0: Seq<Seq<u8>> = old(chan)@;
    let ghost cap: nat = old(chan).capacity_spec();
    let ghost d0: nat = old(chan).dropped_spec();
    let mut rest = batch;
    let mut out: Vec<Vec<u8>> = Vec::new();
    proof {
        assert(rest.len() == orig.len());
    }
    while rest.len() > 0
        invariant
            rest@.len() <= orig.len() <= usize::MAX,
            d0 + orig.len() < u64::MAX,
            rest@ == orig.subrange(orig.len() - rest@.len(), orig.len() as int),
            views(out@) == udp_seq(views(orig).take(orig.len() - rest@.len())),
            chan@ == after_enqueue(q0, cap, udp_payloads(views(orig).take(
                orig.len() - rest@.len(),
            ))),
            chan.capacity_spec() == cap,
            chan.dropped_spec() == d0 + enqueue_drops(q0, cap, udp_payloads(views(orig).take(
                orig.len() - rest@.len(),
            ))),
        decreases rest@.len(),
    {
        let ghost k: int = orig.len() - rest@.len();
        let ghost prefix: Seq<Seq<u8>> = views(orig).take(k);
        let f = rest.remove(0);
        proof {
            assert(f == orig[k]);
            assert(rest@ =~= orig.subrange(orig.len() - rest@.len(), orig.len() as int));
            assert(views(orig).take(k + 1).drop_last() =~= prefix);
            assert(views(orig).take(k + 1).last() == f@);
            lemma_udp_seq_push(views(orig).take(k + 1));
            lemma_drops_le(q0, cap, udp_payloads(views(orig).take(k + 1)));
            lemma_udp_one_payload_each(views(orig).take(k + 1));
        }
        if udp_keep_exec(&f) {
            let p = extract_udp_payload(&f);
            proof {
                assert(udp_payloads(views(orig).take(k + 1)).drop_last() == udp_payloads(prefix));
                assert(udp_payloads(views(orig).take(k + 1)).last() == p@);
            }
            let _ = chan.try_send(p);
            proof {
                lemma_views_push(out@, f);
            }
            out.push(f);
        }
    }
    proof {
        assert(views(orig).take(orig.len() as int) =~= views(orig));
    }
    out
}

/// No run of enqueue attempts drops more items than it attempts.
proof fn lemma_drops_le(q: Seq<Seq<u8>>, cap: nat, items: Seq<Seq<u8>>)
    ensures
        enqueue_drops(q, cap, items) <= items.len(),
    decreases items.len(),
{
    if items.len() > 0 {
        lemma_drops_le(q, cap, items.drop_last());
    }
}

/// The ARP-responder branch: keep only requests (operation 1) whose
/// target protocol address is the configured one, rewrite each survivor
/// into the reply in place, and drop everything else — including frames
/// too short for the ARP header view.
pub fn arp_branch(batch: Vec<Vec<u8>>, cfg: &NfConfig) -> (out: Vec<Vec<u8>>)
    requires
        cfg.wf(),
    ensures
        views(out@) == arp_seq(views(batch@), cfg.responder_tpa, cfg.responder_mac@),
{
    let ghost orig: Seq<Vec<u8>> = batch@;
    let mut rest = batch;
    let mut out: Vec<Vec<u8>> = Vec::new();
    proof {
        assert(rest.len() == orig.len());
    }
    while rest.len() > 0
        invariant
            cfg.wf(),
            rest@.len() <= orig.len() <= usize::MAX,
            rest@ == orig.subrange(orig.len() - rest@.len(), orig.len() as int),
            views(out@) == arp_seq(
                views(orig).take(orig.len() - rest@.len()),
                cfg.responder_tpa,
                cfg.responder_mac@,
            ),
        decreases rest@.len(),
    {
        let ghost k: int = orig.len() - rest@.len();
        let ghost prefix: Seq<Seq<u8>> = views(orig).take(k);
        let mut f = rest.remove(0);
        proof {
            assert(f == orig[k]);
            assert(rest@ =~= orig.subrange(orig.len() - rest@.len(), orig.len() as int));
            assert(views(orig).take(k + 1).drop_last() =~= prefix);
            assert(views(orig).take(k + 1).last() == f@);
            lemma_arp_seq_push(views(orig).take(k + 1), cfg.responder_tpa, cfg.responder_mac@);
        }
        if arp_keep_exec(&f, cfg.responder_tpa) {
            make_arp_reply(&mut f, &cfg.responder_mac);
            proof {
                lemma_views_push(out@, f);
            }
            out.push(f);
        }
    }
    proof {
        assert(views(orig).take(orig.len() as int) =~= views(orig));
    }
    out
}

/// Fan the branch outputs back into one stream. Order within each branch
/// is preserved; the branches follow one another, so no cross-branch
/// order is promised beyond that, and no packet that survived its branch
/// is lost or duplicated.
pub fn merge(first: Vec<Vec<u8>>, second: Vec<Vec<u8>>, third: Vec<Vec<u8>>) -> (out: Vec<
    Vec<u8>,
>)
    ensures
        out@ == first@ + second@ + third@,
{
    let mut out = first;
    let mut second = second;
    let mut third = third;
    out.append(&mut second);
    out.append(&mut third);
    out
}

/// For every batch, nothing is lost or duplicated: the packets the UDP,
/// ARP and default branches emit, plus the frames the header parses and
/// the branch filters dropped, add up exactly to the input batch.
pub proof fn lemma_packet_conservation(b: Seq<Seq<u8>>, responder_tpa: u32, mac: Seq<u8>)
    ensures
        ({
            let udp_out = udp_seq(group_seq(b, Group::Ipv4)).len();
            let arp_out = arp_seq(group_seq(b, Group::Arp), responder_tpa, mac).len();
            let def_out = group_seq(b, Group::Other).len();
            let filtered = (group_seq(b, Group::Ipv4).len() - udp_out) + (group_seq(
                b,
                Group::Arp,
            ).len() - arp_out) + unparsed_count(b);
            &&& udp_out <= group_seq(b, Group::Ipv4).len()
            &&& arp_out <= group_seq(b, Group::Arp).len()
            &&& udp_out + arp_out + def_out + filtered == b.len()
        }),
{
    lemma_group_partition(b);
    lemma_udp_one_payload_each(group_seq(b, Group::Ipv4));
    lemma_arp_seq_len(group_seq(b, Group::Arp), responder_tpa, mac);
}

/// An ARP-branch frame that is not a request (operation other than 1) or
/// whose target protocol address is not the configured one is dropped by
/// the branch filter and contributes nothing to the merged output.
pub proof fn lemma_arp_filter_drops(f: Seq<u8>, responder_tpa: u32, mac: Seq<u8>)
    requires
        !arp_keep(f, responder_tpa),
    ensures
        arp_seq(seq![f], responder_tpa, mac) == Seq::<Seq<u8>>::empty(),
{
    let b: Seq<Seq<u8>> = seq![f];
    assert(b.drop_last() =~= Seq::<Seq<u8>>::empty());
    assert(arp_seq(Seq::<Seq<u8>>::empty(), responder_tpa, mac) == Seq::<Seq<u8>>::empty());
    assert(arp_seq(b, responder_tpa, mac) =~= Seq::<Seq<u8>>::empty());
}

/// A frame classified into the ARP branch but shorter than a whole ARP
/// header after the Ethernet header fails header-view construction and is
/// dropped — a per-packet condition, never a fault.
pub proof fn lemma_short_arp_dropped(f: Seq<u8>, responder_tpa: u32, mac: Seq<u8>)
    requires
        f.len() < 42,
    ensures
        arp_seq(seq![f], responder_tpa, mac) == Seq::<Seq<u8>>::empty(),
{
    lemma_arp_filter_drops(f, responder_tpa, mac);
}

/// A surviving UDP frame with a payload of length L hands the channel
/// exactly one item, byte-identical to that payload (so of length L);
/// when the queue has a free slot the item is appended in FIFO order and
/// nothing is dropped.
pub proof fn lemma_udp_export_single(f: Seq<u8>, q: Seq<Seq<u8>>, cap: nat)
    requires
        udp_keep(f),
        q.len() < cap,
    ensures
        udp_payloads(seq![f]) == seq![udp_payload(f)],
        udp_payload(f) == f.subrange(14 + ip_header_len(f) + 8, f.len() as int),
        udp_payload(f).len() == f.len() - 22 - ip_header_len(f),
        after_enqueue(q, cap, udp_payloads(seq![f])) == q.push(udp_payload(f)),
        enqueue_drops(q, cap, udp_payloads(seq![f])) == 0,
{
    let b: Seq<Seq<u8>> = seq![f];
    assert(b.drop_last() =~= Seq::<Seq<u8>>::empty());
    assert(udp_payloads(Seq::<Seq<u8>>::empty()) == Seq::<Seq<u8>>::empty());
    assert(udp_payloads(b) =~= seq![udp_payload(f)]);
    let items: Seq<Seq<u8>> = seq![udp_payload(f)];
    assert(items.drop_last() =~= Seq::<Seq<u8>>::empty());
    assert(after_enqueue(q, cap, Seq::<Seq<u8>>::empty()) == q);
    assert(enqueue_drops(q, cap, Seq::<Seq<u8>>::empty()) == 0);
    assert(after_enqueue(q, cap, items) == q.push(udp_payload(f)));
    assert(enqueue_drops(q, cap, items) == 0);
}

/// The classifier's output: one ordered sub-batch per group, and the
/// count of frames dropped because no Ethernet header view could be
/// constructed.
pub struct Groups {
    /// Frames with Ethernet type 0x0800, in input order.
    pub ipv4: Vec<Vec<u8>>,
    /// Frames with Ethernet type 0x0806, in input order.
    pub arp: Vec<Vec<u8>>,
    /// Every other classified frame, in input order.
    pub other: Vec<Vec<u8>>,
    /// Frames too short for the Ethernet header view, dropped.
    pub unparsed: usize,
}

/// Partition a batch by the Ethernet type field: a stable partition in
/// which every classified frame lands in exactly one group, and frames
/// too short for the Ethernet header view are dropped and counted.
pub fn group_by(batch: Vec<Vec<u8>>) -> (g: Groups)
    ensures
        views(g.ipv4@) == group_seq(views(batch@), Group::Ipv4),
        views(g.arp@) == group_seq(views(batch@), Group::Arp),
        views(g.other@) == group_seq(views(batch@), Group::Other),
        g.unparsed == unparsed_count(views(batch@)),
        g.ipv4@.len() + g.arp@.len() + g.other@.len() + g.unparsed == batch@.len(),
{
    let ghost orig: Seq<Vec<u8>> = batch@;
    let mut rest = batch;
    let mut ipv4: Vec<Vec<u8>> = Vec::new();
    let mut arp: Vec<Vec<u8>> = Vec::new();
    let mut other: Vec<Vec<u8>> = Vec::new();
    let mut unparsed: usize = 0;
    proof {
        assert(rest.len() == orig.len());
    }
    while rest.len() > 0
        invariant
            rest@.len() <= orig.len() <= usize::MAX,
            rest@ == orig.subrange(orig.len() - rest@.len(), orig.len() as int),
            views(ipv4@) == group_seq(views(orig).take(orig.len() - rest@.len()), Group::Ipv4),
            views(arp@) == group_seq(views(orig).take(orig.len() - rest@.len()), Group::Arp),
            views(other@) == group_seq(views(orig).take(orig.len() - rest@.len()), Group::Other),
            unparsed == unparsed_count(views(orig).take(orig.len() - rest@.len())),
            ipv4@.len() + arp@.len() + other@.len() + unparsed == orig.len() - rest@.len(),
        decreases rest@.len(),
    {
        let ghost k: int = orig.len() - rest@.len();
        let ghost prefix: Seq<Seq<u8>> = views(orig).take(k);
        let f = rest.remove(0);
        proof {
            assert(f == orig[k]);
            assert(rest@ =~= orig.subrange(orig.len() - rest@.len(), orig.len() as int));
            assert(views(orig).take(k + 1).drop_last() =~= prefix);
            assert(views(orig).take(k + 1).last() == f@);
            lemma_group_seq_push(views(orig).take(k + 1), Group::Ipv4);
            lemma_group_seq_push(views(orig).take(k + 1), Group::Arp);
            lemma_group_seq_push(views(orig).take(k + 1), Group::Other);
        }
        match classify_frame(&f) {
            Some(Group::Ipv4) => {
                proof {
                    lemma_views_push(ipv4@, f);
                }
                ipv4.push(f);
            },
            Some(Group::Arp) => {
                proof {
                    lemma_views_push(arp@, f);
                }
                arp.push(f);
            },
            Some(Group::Other) => {
                proof {
                    lemma_views_push(other@, f);
                }
                other.push(f);
            },
            None => {
                unparsed = unparsed + 1;
            },
        }
    }
    proof {
        assert(views(orig).take(orig.len() as int) =~= views(orig));
    }
    Groups { ipv4, arp, other, unparsed }
}

proof fn lemma_group_seq_push(b: Seq<Seq<u8>>, g: Group)
    requires
        b.len() > 0,
    ensures
        frame_group(b.last()) == Some(g) ==> group_seq(b, g) == group_seq(b.drop_last(), g).push(
            b.last(),
        ),
        frame_group(b.last()) != Some(g) ==> group_seq(b, g) == group_seq(b.drop_last(), g),
{
    if frame_group(b.last()) == Some(g) {
        assert(group_seq(b.drop_last(), g) + seq![b.last()] =~= group_seq(b.drop_last(), g).push(
            b.last(),
        ));
    } else {
        assert(group_seq(b.drop_last(), g) + Seq::<Seq<u8>>::empty() =~= group_seq(
            b.drop_last(),
            g,
        ));
    }
}

/// What one scheduler tick of the network function emits for one batch.
pub struct NfOutput {
    /// The merged outbound stream: UDP survivors, then ARP replies, then
    /// the pass-through frames, each sub-stream in input order.
    pub merged: Vec<Vec<u8>>,
    /// How many input frames the header parses and branch filters
    /// dropped.
    pub dropped: usize,
}

/// The whole network function on one batch: classify by Ethernet type,
/// run the UDP-export, ARP-responder and pass-through branches, and merge
/// the branch outputs into one outbound stream. Every input frame is
/// either in the merged output (possibly rewritten by the ARP branch) or
/// counted as dropped: nothing is lost or duplicated.
pub fn tcp_nf(parent: Vec<Vec<u8>>, cfg: &NfConfig, chan: &mut HandoffChannel) -> (out: NfOutput)
    requires
        cfg.wf(),
        old(chan).dropped_spec() + parent@.len() < u64::MAX,
    ensures
        views(out.merged@) == udp_seq(group_seq(views(parent@), Group::Ipv4)) + arp_seq(
            group_seq(views(parent@), Group::Arp),
            cfg.responder_tpa,
            cfg.responder_mac@,
        ) + group_seq(views(parent@), Group::Other),
        out.merged@.len() + out.dropped == parent@.len(),
        final(chan)@ == after_enqueue(
            old(chan)@,
            old(chan).capacity_spec(),
            udp_payloads(group_seq(views(parent@), Group::Ipv4)),
        ),
        final(chan).capacity_spec() == old(chan).capacity_spec(),
        final(chan).dropped_spec() == old(chan).dropped_spec() + enqueue_drops(
            old(chan)@,
            old(chan).capacity_spec(),
            udp_payloads(group_seq(views(parent@), Group::Ipv4)),
        ),
{
    let ghost vp: Seq<Seq<u8>> = views(parent@);
    proof {
        assert(parent.len() == vp.len());
        lemma_group_partition(vp);
        lemma_group_len(vp, Group::Ipv4);
        lemma_group_len(vp, Group::Arp);
        lemma_udp_one_payload_each(group_seq(vp, Group::Ipv4));
        lemma_arp_seq_len(group_seq(vp, Group::Arp), cfg.responder_tpa, cfg.responder_mac@);
    }
    let groups = group_by(parent);
    let n_ipv4 = groups.ipv4.len();
    let n_arp = groups.arp.len();
    let ghost gi: Seq<Seq<u8>> = views(groups.ipv4@);
    let ghost ga: Seq<Seq<u8>> = views(groups.arp@);
    let udp_out = udp_branch(groups.ipv4, chan);
    let arp_out = arp_branch(groups.arp, cfg);
    proof {
        assert(views(udp_out@).len() == udp_out@.len());
        assert(views(arp_out@).len() == arp_out@.len());
        assert(gi == group_seq(vp, Group::Ipv4));
        assert(ga == group_seq(vp, Group::Arp));
        assert(udp_out@.len() <= n_ipv4);
        assert(arp_out@.len() <= n_arp);
    }
    let dropped = groups.unparsed + (n_ipv4 - udp_out.len()) + (n_arp - arp_out.len());
    proof {
        crate::batch::lemma_views_concat(udp_out@, arp_out@);
        crate::batch::lemma_views_concat(udp_out@ + arp_out@, groups.other@);
    }
    let merged = merge(udp_out, arp_out, groups.other);
    NfOutput { merged, dropped }
}

} // verus!
