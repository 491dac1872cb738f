use tcp_check::arp::ArpHeader;
use tcp_check::channel::{HandoffChannel, CHANNEL_CAPACITY};
use tcp_check::eth::{classify_etype, classify_frame, Group, MacHeader};
use tcp_check::ipv4::{extract_udp_payload, udp_keep_exec};
use tcp_check::pipeline::{group_by, merge, tcp_nf, NfConfig};
use tcp_check::wire::{read_be16, read_be32, write_be16, write_be32};

const RESPONDER_TPA: u32 = 0x0afe1803;
const RESPONDER_MAC: [u8; 6] = [0xfa, 0x16, 0x3e, 0xfa, 0xc8, 0xfd];

fn cfg() -> NfConfig {
    NfConfig::new(RESPONDER_TPA, RESPONDER_MAC.to_vec())
}

fn eth_frame(etype: u16, payload: &[u8]) -> Vec<u8> {
    let mut f = vec![0xffu8; 6];
    f.extend_from_slice(&[0x02, 0x00, 0x00, 0x00, 0x00, 0x01]);
    f.push((etype >> 8) as u8);
    f.push((etype & 0xff) as u8);
    f.extend_from_slice(payload);
    f
}

fn arp_frame(oper: u16, sha: [u8; 6], spa: u32, tha: [u8; 6], tpa: u32) -> Vec<u8> {
    let mut p: Vec<u8> = Vec::new();
    p.extend_from_slice(&[0x00, 0x01, 0x08, 0x00, 6, 4]);
    p.extend_from_slice(&oper.to_be_bytes());
    p.extend_from_slice(&sha);
    p.extend_from_slice(&spa.to_be_bytes());
    p.extend_from_slice(&tha);
    p.extend_from_slice(&tpa.to_be_bytes());
    eth_frame(0x0806, &p)
}

fn udp_frame(payload: &[u8]) -> Vec<u8> {
    let mut p: Vec<u8> = Vec::new();
    p.push(0x45);
    p.push(0x00);
    p.extend_from_slice(&((28 + payload.len()) as u16).to_be_bytes());
    p.extend_from_slice(&[0, 0, 0, 0]);
    p.push(64);
    p.push(17);
    p.extend_from_slice(&[0, 0]);
    p.extend_from_slice(&[10, 0, 0, 1]);
    p.extend_from_slice(&[10, 254, 24, 3]);
    p.extend_from_slice(&5353u16.to_be_bytes());
    p.extend_from_slice(&5353u16.to_be_bytes());
    p.extend_from_slice(&((8 + payload.len()) as u16).to_be_bytes());
    p.extend_from_slice(&[0, 0]);
    p.extend_from_slice(payload);
    eth_frame(0x0800, &p)
}

#[test]
fn classify_keys_on_ethernet_type() {
    assert_eq!(classify_etype(0x0800), Group::Ipv4);
    assert_eq!(classify_etype(0x0806), Group::Arp);
    assert_eq!(classify_etype(0x86dd), Group::Other);
    assert_eq!(classify_etype(0x0000), Group::Other);
}

#[test]
fn classify_frame_ignores_everything_but_the_type_field() {
    let a = eth_frame(0x0806, &[1, 2, 3]);
    let b = eth_frame(0x0806, &[9; 60]);
    assert_eq!(classify_frame(&a), classify_frame(&b));
    assert_eq!(classify_frame(&a), Some(Group::Arp));
    let short = vec![0u8; 13];
    assert_eq!(classify_frame(&short), None);
}

#[test]
fn mac_header_reads_type_in_host_order() {
    let f = eth_frame(0x0800, &[0; 20]);
    let h = MacHeader::parse(&f, 0).unwrap();
    assert_eq!(h.etype(), 0x0800);
    assert_eq!(MacHeader::size(), 14);
    assert!(MacHeader::parse(&vec![0u8; 13], 0).is_none());
}

#[test]
fn arp_header_accessors_convert_byte_order() {
    let f = arp_frame(1, [1, 2, 3, 4, 5, 6], 0x0a000001, [0; 6], RESPONDER_TPA);
    let h = ArpHeader::parse(&f, 14).unwrap();
    assert_eq!(h.htype(), 0x0001);
    assert_eq!(h.ptype(), 0x0800);
    assert_eq!(h.hlen(), 6);
    assert_eq!(h.plen(), 4);
    assert_eq!(h.oper(), 1);
    assert_eq!(h.sha(), vec![1, 2, 3, 4, 5, 6]);
    assert_eq!(h.spa(), 0x0a000001);
    assert_eq!(h.tha(), vec![0; 6]);
    assert_eq!(h.tpa(), RESPONDER_TPA);
}

#[test]
fn arp_header_parse_fails_on_short_window() {
    let f = eth_frame(0x0806, &[0; 27]);
    assert!(ArpHeader::parse(&f, 14).is_none());
    let g = eth_frame(0x0806, &[0; 28]);
    assert!(ArpHeader::parse(&g, 14).is_some());
}

#[test]
fn arp_header_fixed_layout_operations() {
    let f = arp_frame(1, [1, 2, 3, 4, 5, 6], 1, [0; 6], 2);
    let h = ArpHeader::parse(&f, 14).unwrap();
    assert_eq!(h.offset(), 28);
    assert_eq!(ArpHeader::size(), 28);
    assert_eq!(h.payload_size(100), 72);
    assert_eq!(h.payload_size(28), 0);
    let mac = MacHeader::parse(&f, 0).unwrap();
    assert!(h.check_correct(&mac));
}

#[test]
fn setters_round_trip_and_store_network_order() {
    let f = arp_frame(1, [0; 6], 0, [0; 6], 0);
    let mut h = ArpHeader::parse(&f, 14).unwrap();
    h.set_oper(0x1234);
    assert_eq!(h.oper(), 0x1234);
    h.set_spa(0xdeadbeef);
    assert_eq!(h.spa(), 0xdeadbeef);
    h.set_tpa(0x01020304);
    assert_eq!(h.tpa(), 0x01020304);
    h.set_sha(&vec![9, 8, 7, 6, 5, 4]);
    assert_eq!(h.sha(), vec![9, 8, 7, 6, 5, 4]);
    h.set_tha(&vec![1, 1, 2, 2, 3, 3]);
    assert_eq!(h.tha(), vec![1, 1, 2, 2, 3, 3]);

    let mut g = f.clone();
    h.store(&mut g, 14);
    // Multi-byte values land most-significant byte first.
    assert_eq!(&g[20..22], &[0x12, 0x34]);
    assert_eq!(&g[28..32], &[0xde, 0xad, 0xbe, 0xef]);
    assert_eq!(&g[38..42], &[0x01, 0x02, 0x03, 0x04]);
    assert_eq!(&g[22..28], &[9, 8, 7, 6, 5, 4]);
    assert_eq!(&g[32..38], &[1, 1, 2, 2, 3, 3]);
}

#[test]
fn wire_helpers_round_trip() {
    let mut b = vec![0u8; 8];
    write_be16(&mut b, 1, 0xabcd);
    assert_eq!(read_be16(&b, 1), 0xabcd);
    assert_eq!(&b[1..3], &[0xab, 0xcd]);
    write_be32(&mut b, 3, 0x00c0ffee);
    assert_eq!(read_be32(&b, 3), 0x00c0ffee);
    assert_eq!(&b[3..7], &[0x00, 0xc0, 0xff, 0xee]);
}

#[test]
fn arp_request_becomes_reply() {
    let requester_mac: [u8; 6] = [0xaa, 0xbb, 0xcc, 0xdd, 0xee, 0xff];
    let requester_ip: u32 = 0x0afe1801;
    let f = arp_frame(1, requester_mac, requester_ip, [0; 6], RESPONDER_TPA);
    let mut chan = HandoffChannel::new(CHANNEL_CAPACITY);
    let out = tcp_nf(vec![f], &cfg(), &mut chan);
    assert_eq!(out.merged.len(), 1);
    assert_eq!(out.dropped, 0);
    let r = ArpHeader::parse(&out.merged[0], 14).unwrap();
    assert_eq!(r.oper(), 2);
    assert_eq!(r.sha(), RESPONDER_MAC.to_vec());
    assert_eq!(r.tha(), requester_mac.to_vec());
    assert_eq!(r.spa(), RESPONDER_TPA);
    assert_eq!(r.tpa(), requester_ip);
    // The rest of the header and the Ethernet header are untouched.
    assert_eq!(r.htype(), 0x0001);
    assert_eq!(r.ptype(), 0x0800);
    assert_eq!(r.hlen(), 6);
    assert_eq!(r.plen(), 4);
    assert_eq!(&out.merged[0][..14], &arp_frame(1, requester_mac, requester_ip, [0; 6], RESPONDER_TPA)[..14]);
}

#[test]
fn arp_non_request_is_dropped() {
    let f = arp_frame(2, [1; 6], 1, [2; 6], RESPONDER_TPA);
    let mut chan = HandoffChannel::new(CHANNEL_CAPACITY);
    let out = tcp_nf(vec![f], &cfg(), &mut chan);
    assert_eq!(out.merged.len(), 0);
    assert_eq!(out.dropped, 1);
}

#[test]
fn arp_wrong_target_is_dropped() {
    let f = arp_frame(1, [1; 6], 1, [2; 6], RESPONDER_TPA + 1);
    let mut chan = HandoffChannel::new(CHANNEL_CAPACITY);
    let out = tcp_nf(vec![f], &cfg(), &mut chan);
    assert_eq!(out.merged.len(), 0);
    assert_eq!(out.dropped, 1);
}

#[test]
fn short_arp_frame_is_dropped_not_fatal() {
    // Classified as ARP by the type field, but only 10 bytes follow the
    // Ethernet header: the 28-byte view cannot be constructed.
    let f = eth_frame(0x0806, &[0; 10]);
    let mut chan = HandoffChannel::new(CHANNEL_CAPACITY);
    let out = tcp_nf(vec![f], &cfg(), &mut chan);
    assert_eq!(out.merged.len(), 0);
    assert_eq!(out.dropped, 1);
}

#[test]
fn udp_payload_reaches_the_channel() {
    let payload: Vec<u8> = vec![0x10, 0x20, 0x30, 0x40, 0x55];
    let f = udp_frame(&payload);
    assert!(udp_keep_exec(&f));
    assert_eq!(extract_udp_payload(&f), payload);
    let mut chan = HandoffChannel::new(CHANNEL_CAPACITY);
    let out = tcp_nf(vec![f.clone()], &cfg(), &mut chan);
    assert_eq!(out.merged, vec![f]);
    assert_eq!(out.dropped, 0);
    assert_eq!(chan.len(), 1);
    assert_eq!(chan.recv(), Some(payload));
    assert_eq!(chan.recv(), None);
}

#[test]
fn non_udp_ip_packet_is_dropped() {
    let mut f = udp_frame(&[1, 2, 3]);
    f[23] = 6; // TCP
    assert!(!udp_keep_exec(&f));
    let mut chan = HandoffChannel::new(CHANNEL_CAPACITY);
    let out = tcp_nf(vec![f], &cfg(), &mut chan);
    assert_eq!(out.merged.len(), 0);
    assert_eq!(out.dropped, 1);
    assert_eq!(chan.len(), 0);
}

#[test]
fn short_ip_frame_is_dropped_not_fatal() {
    let f = eth_frame(0x0800, &[0x45, 0, 0, 17]);
    let mut chan = HandoffChannel::new(CHANNEL_CAPACITY);
    let out = tcp_nf(vec![f], &cfg(), &mut chan);
    assert_eq!(out.merged.len(), 0);
    assert_eq!(out.dropped, 1);
}

#[test]
fn channel_fills_then_drops_sixth_and_later() {
    let mut chan = HandoffChannel::new(CHANNEL_CAPACITY);
    for i in 0..7u8 {
        let r = chan.try_send(vec![i]);
        if (i as usize) < CHANNEL_CAPACITY {
            assert_eq!(r, Ok(()));
        } else {
            assert_eq!(r, Err(vec![i]));
        }
    }
    assert_eq!(chan.len(), 5);
    assert_eq!(chan.dropped_count(), 2);
    // FIFO: the first five come back out in send order.
    for i in 0..5u8 {
        assert_eq!(chan.recv(), Some(vec![i]));
    }
    assert_eq!(chan.recv(), None);
    // The pipeline keeps going after the drops.
    assert_eq!(chan.try_send(vec![9]), Ok(()));
}

#[test]
fn overflowing_batch_drops_payloads_but_keeps_packets() {
    let mut batch: Vec<Vec<u8>> = Vec::new();
    for i in 0..8u8 {
        batch.push(udp_frame(&[i]));
    }
    let mut chan = HandoffChannel::new(CHANNEL_CAPACITY);
    let out = tcp_nf(batch, &cfg(), &mut chan);
    // All eight packets survive the branch; only payloads past the
    // channel capacity are dropped.
    assert_eq!(out.merged.len(), 8);
    assert_eq!(out.dropped, 0);
    assert_eq!(chan.len(), 5);
    assert_eq!(chan.dropped_count(), 3);
    for i in 0..5u8 {
        assert_eq!(chan.recv(), Some(vec![i]));
    }
}

#[test]
fn batch_conservation_over_mixed_traffic() {
    let batch = vec![
        udp_frame(&[1, 2, 3]),
        arp_frame(1, [1; 6], 7, [0; 6], RESPONDER_TPA),
        eth_frame(0x86dd, &[0; 40]),
        arp_frame(2, [1; 6], 7, [0; 6], RESPONDER_TPA),
        vec![0u8; 5],
        eth_frame(0x0800, &[0x45, 0, 0, 28, 0, 0, 0, 0, 64, 6]),
    ];
    let n = batch.len();
    let mut chan = HandoffChannel::new(CHANNEL_CAPACITY);
    let out = tcp_nf(batch, &cfg(), &mut chan);
    assert_eq!(out.merged.len() + out.dropped, n);
    assert_eq!(out.merged.len(), 3);
    assert_eq!(out.dropped, 3);
}

#[test]
fn merge_keeps_branch_order() {
    let a = vec![vec![1u8], vec![2u8]];
    let b = vec![vec![3u8]];
    let c = vec![vec![4u8], vec![5u8]];
    let out = merge(a, b, c);
    assert_eq!(out, vec![vec![1u8], vec![2u8], vec![3u8], vec![4u8], vec![5u8]]);
}

#[test]
fn group_by_is_a_stable_partition() {
    let u1 = udp_frame(&[1]);
    let a1 = arp_frame(1, [1; 6], 7, [0; 6], RESPONDER_TPA);
    let o1 = eth_frame(0x1234, &[0; 3]);
    let u2 = udp_frame(&[2]);
    let short = vec![0u8; 3];
    let g = group_by(vec![u1.clone(), a1.clone(), o1.clone(), u2.clone(), short]);
    assert_eq!(g.ipv4, vec![u1, u2]);
    assert_eq!(g.arp, vec![a1]);
    assert_eq!(g.other, vec![o1]);
    assert_eq!(g.unparsed, 1);
}

#[test]
fn default_branch_passes_frames_through_unmodified() {
    let f = eth_frame(0x88cc, &[7, 7, 7]);
    let mut chan = HandoffChannel::new(CHANNEL_CAPACITY);
    let out = tcp_nf(vec![f.clone()], &cfg(), &mut chan);
    assert_eq!(out.merged, vec![f]);
    assert_eq!(out.dropped, 0);
    assert_eq!(chan.len(), 0);
}
