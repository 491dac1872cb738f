//! An ARP-responder / UDP-exporter network function over raw Ethernet
//! frames: a size-checked header overlay, a classifier that partitions a
//! batch by Ethernet type, per-class filter/transform branches, a merge
//! stage, and a bounded handoff queue that exports UDP payloads to a
//! consumer outside the hot path.

pub mod arp;
pub mod batch;
pub mod channel;
pub mod eth;
pub mod export;
pub mod ipv4;
pub mod pipeline;
pub mod wire;
