//! Link, network and transport headers, parsed through pnet's packet views.

use pnet::packet::ethernet::EthernetPacket;
use pnet::packet::ipv4::Ipv4Packet;
use pnet::packet::udp::UdpPacket;
use pnet::packet::Packet;
use vstd::prelude::*;

verus! {

/// The 16-bit big-endian number stored at `b[i]`, `b[i + 1]`.
pub open spec fn be16(b: Seq<u8>, i: int) -> int {
    b[i] as int * 256 + b[i + 1] as int
}

pub const ETHERNET_HEADER_LEN: usize = 14;

pub const IPV4_MIN_HEADER_LEN: usize = 20;

pub const UDP_HEADER_LEN: usize = 8;

/// The bytes that follow the 14-byte Ethernet header.
pub open spec fn ethernet_payload(f: Seq<u8>) -> Seq<u8> {
    f.subrange(14, f.len() as int)
}

/// Header length of an IPv4 packet in bytes: the low nibble of the first byte, in words.
pub open spec fn ipv4_header_len(p: Seq<u8>) -> int {
    (p[0] as int % 16) * 4
}

/// The IPv4 payload as pnet delimits it: it starts after the header (at least
/// 20 bytes), runs for the total length less the header length, and is cut at
/// the end of the buffer.
pub open spec fn ipv4_payload(p: Seq<u8>) -> Seq<u8> {
    let hl = ipv4_header_len(p);
    let start = if hl > 20 { hl } else { 20 };
    let total = be16(p, 2);
    let plen = if total > hl { total - hl } else { 0 };
    let end = if start + plen < p.len() { start + plen } else { p.len() as int };
    if p.len() <= start {
        Seq::empty()
    } else {
        p.subrange(start, end)
    }
}

/// Relies on pnet's `EthernetPacket::new` (a view exists iff the buffer holds
/// 14 bytes), `get_ethertype` (bytes 12 and 13, big-endian) and `payload`
/// (everything after byte 14).
#[verifier::external_body]
pub(crate) fn parse_ethernet(frame: &[u8]) -> (r: Option<(u16, Vec<u8>)>)
    ensures
        match r {
            None => frame@.len() < 14,
            Some((ethertype, payload)) => {
                &&& frame@.len() >= 14
                &&& ethertype as int == be16(frame@, 12)
                &&& payload@ == ethernet_payload(frame@)
            },
        },
{
    match EthernetPacket::new(frame) {
        Some(eth) => Some((eth.get_ethertype().0, eth.payload().to_vec())),
        None => None,
    }
}

/// Relies on pnet's `Ipv4Packet::new` (a view exists iff the buffer holds 20
/// bytes), `get_next_level_protocol` (byte 9) and `payload` (bounded by the
/// header length and total length fields, cut at the end of the buffer).
#[verifier::external_body]
pub(crate) fn parse_ipv4(buf: &[u8]) -> (r: Option<(u8, Vec<u8>)>)
    ensures
        match r {
            None => buf@.len() < 20,
            Some((protocol, payload)) => {
                &&& buf@.len() >= 20
                &&& protocol == buf@[9]
                &&& payload@ == ipv4_payload(buf@)
            },
        },
{
    match Ipv4Packet::new(buf) {
        Some(ip) => Some((ip.get_next_level_protocol().0, ip.payload().to_vec())),
        None => None,
    }
}

/// Relies on pnet's `UdpPacket::new` (a view exists iff the buffer holds 8
/// bytes), `get_destination` (bytes 2 and 3, big-endian) and `payload`
/// (everything after byte 8).
#[verifier::external_body]
pub(crate) fn parse_udp(buf: &[u8]) -> (r: Option<(u16, Vec<u8>)>)
    ensures
        match r {
            None => buf@.len() < 8,
            Some((destination, payload)) => {
                &&& buf@.len() >= 8
                &&& destination as int == be16(buf@, 2)
                &&& payload@ == buf@.subrange(8, buf@.len() as int)
            },
        },
{
    match UdpPacket::new(buf) {
        Some(udp) => Some((udp.get_destination(), udp.payload().to_vec())),
        None => None,
    }
}

} // verus!
