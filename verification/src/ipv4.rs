//! The IPv4/UDP reads the UDP-export branch needs: the IP protocol field,
//! the size checks of the two header parses, and the UDP payload window.
//!
//! The branch parses an IP header (20 bytes after the Ethernet header),
//! keeps only packets whose protocol field is 17 (UDP), parses a UDP
//! header (8 bytes after the IP header, whose length the IHL field gives),
//! and copies the payload that follows.

use vstd::prelude::*;

verus! {

/// The IP protocol number of UDP.
pub const PROTO_UDP: u8 = 17;

/// Byte length of the IP header of frame `f`, from the IHL field: the low
/// nibble of the first IP header byte, in 32-bit words.
pub open spec fn ip_header_len(f: Seq<u8>) -> int
    recommends
        f.len() >= 15,
{
    (f[14] as int % 16) * 4
}

/// Whether an IP header view can be constructed: at least 20 bytes remain
/// after the Ethernet header.
pub open spec fn ip_parse_ok(f: Seq<u8>) -> bool {
    f.len() >= 34
}

/// The IP protocol field of frame `f`.
pub open spec fn ip_protocol(f: Seq<u8>) -> u8
    recommends
        f.len() >= 24,
{
    f[23]
}

/// Whether a frame survives the UDP-export branch: both header views can
/// be constructed and the IP protocol field is UDP.
pub open spec fn udp_keep(f: Seq<u8>) -> bool {
    ip_parse_ok(f) && ip_protocol(f) == PROTO_UDP && f.len() >= 14 + ip_header_len(f) + 8
}

/// The UDP payload of frame `f`: everything after the Ethernet, IP and
/// UDP headers.
pub open spec fn udp_payload(f: Seq<u8>) -> Seq<u8>
    recommends
        udp_keep(f),
{
    f.subrange(14 + ip_header_len(f) + 8, f.len() as int)
}

/// Decide whether `frame` survives the UDP-export branch: IP header view
/// construction, the protocol filter, and UDP header view construction; a
/// frame that fails any of them is dropped, never a fault.
pub fn udp_keep_exec(frame: &Vec<u8>) -> (r: bool)
    ensures
        r == udp_keep(frame@),
{
    if frame.len() < 34 {
        return false;
    }
    if frame[23] != PROTO_UDP {
        return false;
    }
    let ihl: usize = (frame[14] % 16) as usize * 4;
    frame.len() >= 22 + ihl
}

/// Copy the UDP payload of `frame` into an independently owned buffer,
/// byte-identical and of the payload's exact length.
pub fn extract_udp_payload(frame: &Vec<u8>) -> (p: Vec<u8>)
    requires
        udp_keep(frame@),
    ensures
        p@ == udp_payload(frame@),
        p@.len() == frame@.len() - 22 - ip_header_len(frame@),
{
    let ihl: usize = (frame[14] % 16) as usize * 4;
    let start: usize = 22 + ihl;
    let mut p: Vec<u8> = Vec::new();
    let mut i: usize = start;
    while i < frame.len()
        invariant
            start <= i <= frame.len(),
            start == 22 + ip_header_len(frame@),
            p@ == frame@.subrange(start as int, i as int),
        decreases frame.len() - i,
    {
        p.push(frame[i]);
        proof {
            assert(frame@.subrange(start as int, i + 1) == frame@.subrange(
                start as int,
                i as int,
            ).push(frame@[i as int]));
        }
        i = i + 1;
    }
    p
}

} // verus!
