//! The bridge out of the hot path: pipeline instances, one per port, each
//! holding a clone of a channel sender, and the best-effort forwarding of
//! queued payloads to the consumer on the other side.
//!
//! The consumer runs in another execution domain and may drain
//! concurrently, so nothing can be promised about whether a forwarded
//! payload is accepted — only that forwarding never blocks and never
//! invents or alters a payload.

use vstd::prelude::*;

use crate::batch::{group_seq, views};
use crate::channel::{after_enqueue, enqueue_drops, HandoffChannel};
use crate::eth::Group;
use crate::pipeline::{arp_seq, tcp_nf, udp_payloads, udp_seq, NfConfig, NfOutput};

verus! {

#[verifier::external_type_specification]
#[verifier::external_body]
#[verifier::reject_recursive_types(T)]
pub struct ExSender<T>(futures::sync::mpsc::Sender<T>);

/// Relies on futures::sync::mpsc::Sender::try_send: a non-blocking send
/// that either queues the message or hands it back inside the error
/// (recovered with TrySendError::into_inner). Whether it succeeds depends
/// on the consumer's progress, so nothing more is promised.
#[verifier::external_body]
fn try_send_raw(sender: &mut futures::sync::mpsc::Sender<Vec<u8>>, payload: Vec<u8>) -> (r: Result<
    (),
    Vec<u8>,
>)
    ensures
        r matches Err(v) ==> v@ == payload@,
{
    match sender.try_send(payload) {
        Ok(()) => Ok(()),
        Err(e) => Err(e.into_inner()),
    }
}

/// Relies on Clone for futures::sync::mpsc::Sender: another sending
/// handle onto the same channel.
#[verifier::external_body]
fn clone_sender(sender: &futures::sync::mpsc::Sender<Vec<u8>>) -> (r: futures::sync::mpsc::Sender<
    Vec<u8>,
>) {
    sender.clone()
}

/// Forward every queued payload to the consumer, oldest first, without
/// blocking: a payload the consumer's channel cannot take right now is
/// dropped, never retried. Returns how many payloads the channel
/// accepted.
pub fn drain_to_consumer(
    chan: &mut HandoffChannel,
    sender: &mut futures::sync::mpsc::Sender<Vec<u8>>,
) -> (delivered: usize)
    ensures
        final(chan)@ == Seq::<Seq<u8>>::empty(),
        final(chan).capacity_spec() == old(chan).capacity_spec(),
        final(chan).dropped_spec() == old(chan).dropped_spec(),
        delivered <= old(chan)@.len(),
{
    let total = chan.len();
    let mut delivered: usize = 0;
    while chan.len() > 0
        invariant
            chan@.len() <= total,
            delivered <= total - chan@.len(),
            total == old(chan)@.len(),
            chan.capacity_spec() == old(chan).capacity_spec(),
            chan.dropped_spec() == old(chan).dropped_spec(),
        decreases chan@.len(),
    {
        match chan.recv() {
            Some(p) => {
                match try_send_raw(sender, p) {
                    Ok(()) => {
                        delivered = delivered + 1;
                    },
                    Err(_) => {},
                }
            },
            None => {},
        }
    }
    delivered
}

/// One self-contained pipeline instance: the network function bound to
/// one port, holding its own clone of the channel sender.
pub struct Pipeline {
    port: usize,
    sender: futures::sync::mpsc::Sender<Vec<u8>>,
}

impl Pipeline {
    /// The port this instance receives from and transmits to.
    pub closed spec fn port_spec(self) -> usize {
        self.port
    }

    /// The port this instance receives from and transmits to.
    pub fn port(&self) -> (r: usize)
        ensures
            r == self.port_spec(),
    {
        self.port
    }

    /// One cooperative run-to-completion tick: drive one batch fully
    /// through classify, branches and merge, then forward the exported
    /// payloads to the consumer. The merged output goes back out this
    /// instance's port; nothing in the tick waits.
    pub fn tick(&mut self, batch: Vec<Vec<u8>>, cfg: &NfConfig, chan: &mut HandoffChannel) -> (out:
        NfOutput)
        requires
            cfg.wf(),
            old(chan).dropped_spec() + batch@.len() < u64::MAX,
        ensures
            final(self).port_spec() == old(self).port_spec(),
            views(out.merged@) == udp_seq(group_seq(views(batch@), Group::Ipv4)) + arp_seq(
                group_seq(views(batch@), Group::Arp),
                cfg.responder_tpa,
                cfg.responder_mac@,
            ) + group_seq(views(batch@), Group::Other),
            out.merged@.len() + out.dropped == batch@.len(),
            final(chan)@ == Seq::<Seq<u8>>::empty(),
            final(chan).capacity_spec() == old(chan).capacity_spec(),
            final(chan).dropped_spec() == old(chan).dropped_spec() + enqueue_drops(
                old(chan)@,
                old(chan).capacity_spec(),
                udp_payloads(group_seq(views(batch@), Group::Ipv4)),
            ),
    {
        let out = tcp_nf(batch, cfg, chan);
        let _ = drain_to_consumer(chan, &mut self.sender);
        out
    }
}

/// Build one pipeline instance per active port, each holding a clone of
/// the channel sender, ready to be registered as an independent
/// schedulable task.
pub fn build_pipelines(n_ports: usize, sender: &futures::sync::mpsc::Sender<Vec<u8>>) -> (ps: Vec<
    Pipeline,
>)
    ensures
        ps@.len() == n_ports,
        forall|i: int| 0 <= i < n_ports ==> ps@[i].port_spec() == i,
{
    let mut ps: Vec<Pipeline> = Vec::new();
    let mut i: usize = 0;
    while i < n_ports
        invariant
            i <= n_ports,
            ps@.len() == i,
            forall|j: int| 0 <= j < i ==> ps@[j].port_spec() == j,
        decreases n_ports - i,
    {
        ps.push(Pipeline { port: i, sender: clone_sender(sender) });
        i = i + 1;
    }
    ps
}

} // verus!
