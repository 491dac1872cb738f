//! Batches of packets and their classification into groups.
//!
//! A batch is an ordered sequence of owned frames. The classifier
//! partitions a batch into one sub-batch per [`Group`](crate::eth::Group),
//! keeping the relative order of each sub-batch (a stable partition);
//! frames too short to carry an Ethernet header fail header-view
//! construction and are dropped.

use vstd::prelude::*;

use crate::eth::{frame_group, Group};

verus! {

/// The byte contents of each frame of a batch, in order.
pub open spec fn views(b: Seq<Vec<u8>>) -> Seq<Seq<u8>> {
    Seq::new(b.len(), |i: int| b[i]@)
}

pub proof fn lemma_views_push(b: Seq<Vec<u8>>, x: Vec<u8>)
    ensures
        views(b.push(x)) == views(b).push(x@),
{
    assert(views(b.push(x)) =~= views(b).push(x@));
}

pub proof fn lemma_views_concat(a: Seq<Vec<u8>>, b: Seq<Vec<u8>>)
    ensures
        views(a + b) == views(a) + views(b),
{
    assert(views(a + b) =~= views(a) + views(b));
}

/// The sub-batch of `b` that classification assigns to group `g`, in
/// input order.
pub open spec fn group_seq(b: Seq<Seq<u8>>, g: Group) -> Seq<Seq<u8>>
    decreases b.len(),
{
    if b.len() == 0 {
        Seq::empty()
    } else {
        group_seq(b.drop_last(), g) + if frame_group(b.last()) == Some(g) {
            seq![b.last()]
        } else {
            Seq::empty()
        }
    }
}

/// How many frames of `b` fail Ethernet header-view construction (and are
/// dropped before classification).
pub open spec fn unparsed_count(b: Seq<Seq<u8>>) -> nat
    decreases b.len(),
{
    if b.len() == 0 {
        0
    } else {
        unparsed_count(b.drop_last()) + if frame_group(b.last()) is None {
            1nat
        } else {
            0nat
        }
    }
}

/// Classification partitions a batch without loss or duplication: every
/// frame lands in exactly one group (or fails header parse), so the group
/// sizes and the parse failures add up to the input size.
pub proof fn lemma_group_partition(b: Seq<Seq<u8>>)
    ensures
        group_seq(b, Group::Ipv4).len() + group_seq(b, Group::Arp).len() + group_seq(
            b,
            Group::Other,
        ).len() + unparsed_count(b) == b.len(),
    decreases b.len(),
{
    if b.len() > 0 {
        lemma_group_partition(b.drop_last());
    }
}

/// Each group holds no more frames than the input batch.
pub proof fn lemma_group_len(b: Seq<Seq<u8>>, g: Group)
    ensures
        group_seq(b, g).len() <= b.len(),
    decreases b.len(),
{
    if b.len() > 0 {
        lemma_group_len(b.drop_last(), g);
    }
}

} // verus!
