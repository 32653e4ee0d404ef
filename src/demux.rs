//! Decapsulation of overlay traffic: from a captured frame to the inner frame
//! to forward, or a drop.

use crate::packet::{
    be16, ethernet_payload, ipv4_payload, parse_ethernet, parse_ipv4, parse_udp,
    IPV4_MIN_HEADER_LEN, ETHERNET_HEADER_LEN, UDP_HEADER_LEN,
};
use std::collections::HashSet;
use vstd::prelude::*;
use vstd::std_specs::hash::group_hash_axioms;

verus! {

broadcast use group_hash_axioms;

/// UDP destination port that carries the overlay.
pub const OVERLAY_PORT: u16 = 250;

pub const ETHERTYPE_IPV4: u16 = 0x0800;

pub const IP_PROTOCOL_UDP: u8 = 17;

/// Size of the overlay header that precedes the inner payload.
pub const OVERLAY_HEADER_LEN: usize = 8;

/// The largest VNI, 24 bits.
pub const VNI_MAX: u32 = 0xff_ffff;

/// The link-layer header put in front of a bare network-layer payload:
/// destination 02:00:00:00:00:01, source 02:00:00:00:00:02, ethertype 0x0800.
pub open spec fn synthetic_header() -> Seq<u8> {
    seq![2u8, 0, 0, 0, 0, 1, 2, 0, 0, 0, 0, 2, 8, 0]
}

/// The UDP payload of an Ethernet/IPv4/UDP frame sent to the overlay port.
pub open spec fn overlay_of(frame: Seq<u8>) -> Option<Seq<u8>> {
    if frame.len() < 14 || be16(frame, 12) != ETHERTYPE_IPV4 as int {
        None
    } else {
        let ip = ethernet_payload(frame);
        if ip.len() < 20 || ip[9] != IP_PROTOCOL_UDP {
            None
        } else {
            let udp = ipv4_payload(ip);
            if udp.len() < 8 || be16(udp, 2) != OVERLAY_PORT as int {
                None
            } else {
                Some(udp.subrange(8, udp.len() as int))
            }
        }
    }
}

/// The VNI of an overlay header: bytes 4, 5 and 6, big-endian.
pub open spec fn vni_of(h: Seq<u8>) -> u32 {
    (h[4] as int * 65536 + h[5] as int * 256 + h[6] as int) as u32
}

/// The payload-type bit: bit 3 of byte 1. Set means a full link-layer frame.
pub open spec fn carries_link_frame(h: Seq<u8>) -> bool {
    (h[1] as int / 8) % 2 == 1
}

/// The frame rebuilt from the payload that follows an overlay header `h`.
pub open spec fn inner_frame(h: Seq<u8>) -> Option<Seq<u8>> {
    let inner = h.subrange(8, h.len() as int);
    if carries_link_frame(h) {
        if inner.len() >= 14 { Some(inner) } else { None }
    } else {
        if inner.len() >= 20 { Some(synthetic_header() + inner) } else { None }
    }
}

/// Whether an allow-set admits `vni`; no set admits all.
pub open spec fn admits(allow: Option<Set<u32>>, vni: u32) -> bool {
    match allow {
        None => true,
        Some(s) => s.contains(vni),
    }
}

/// The frame to forward for a captured frame, or `None` for a drop.
pub open spec fn demux_spec(frame: Seq<u8>, allow: Option<Set<u32>>) -> Option<Seq<u8>> {
    match overlay_of(frame) {
        None => None,
        Some(h) => if h.len() < 8 || !admits(allow, vni_of(h)) {
            None
        } else {
            inner_frame(h)
        },
    }
}

/// The VNIs admitted by the gateway, fixed at startup. No set admits all.
pub struct AllowSet {
    vnis: Option<HashSet<u32>>,
}

impl View for AllowSet {
    type V = Option<Set<u32>>;

    closed spec fn view(&self) -> Option<Set<u32>> {
        match self.vnis {
            None => None,
            Some(s) => Some(s@),
        }
    }
}

impl AllowSet {
    /// The set of the given VNIs; an empty list admits every VNI.
    pub fn from_vnis(vnis: &Vec<u32>) -> (r: AllowSet)
        ensures
            vnis@.len() == 0 ==> r@ == None::<Set<u32>>,
            vnis@.len() > 0 ==> r@ == Some(vnis@.to_set()),
    {
        if vnis.len() == 0 {
            return AllowSet { vnis: None };
        }
        let mut set: HashSet<u32> = HashSet::new();
        let mut i: usize = 0;
        while i < vnis.len()
            invariant
                i <= vnis@.len(),
                set@ == vnis@.subrange(0, i as int).to_set(),
            decreases vnis@.len() - i,
        {
            proof {
                assert(vnis@.subrange(0, i + 1) == vnis@.subrange(0, i as int).push(vnis@[i as int]));
                vnis@.subrange(0, i as int).lemma_push_to_set_commute(vnis@[i as int]);
            }
            set.insert(vnis[i]);
            i += 1;
        }
        assert(vnis@.subrange(0, vnis@.len() as int) == vnis@);
        AllowSet { vnis: Some(set) }
    }

    pub fn admits(&self, vni: u32) -> (r: bool)
        ensures
            r == admits(self@, vni),
    {
        match &self.vnis {
            None => true,
            Some(s) => s.contains(&vni),
        }
    }
}

/// A frame whose overlay VNI is absent from a configured allow-set is dropped.
pub proof fn lemma_disallowed_vni_drops(frame: Seq<u8>, vnis: Set<u32>)
    requires
        overlay_of(frame) matches Some(h) && h.len() >= 8 && !vnis.contains(vni_of(h)),
    ensures
        demux_spec(frame, Some(vnis)) is None,
{
}

/// A bare network-layer payload of at least 20 bytes is forwarded behind the
/// synthetic link-layer header, unchanged.
pub proof fn lemma_bare_payload_rebuilt(frame: Seq<u8>, allow: Option<Set<u32>>)
    requires
        overlay_of(frame) matches Some(h) && h.len() >= 28 && admits(allow, vni_of(h))
            && !carries_link_frame(h),
    ensures
        demux_spec(frame, allow) == Some(
            synthetic_header() + overlay_of(frame).unwrap().subrange(
                8,
                overlay_of(frame).unwrap().len() as int,
            ),
        ),
{
}

/// A full link-layer payload of at least 14 bytes is forwarded exactly as
/// carried.
pub proof fn lemma_link_payload_passed(frame: Seq<u8>, allow: Option<Set<u32>>)
    requires
        overlay_of(frame) matches Some(h) && h.len() >= 22 && admits(allow, vni_of(h))
            && carries_link_frame(h),
    ensures
        demux_spec(frame, allow) == Some(
            overlay_of(frame).unwrap().subrange(8, overlay_of(frame).unwrap().len() as int),
        ),
{
}

/// An inner payload too short for its type (under 20 bytes for a bare
/// network-layer payload, under 14 for a link-layer frame) is dropped.
pub proof fn lemma_undersized_inner_drops(frame: Seq<u8>, allow: Option<Set<u32>>)
    requires
        overlay_of(frame) matches Some(h) && h.len() >= 8 && (if carries_link_frame(h) {
            h.len() < 22
        } else {
            h.len() < 28
        }),
    ensures
        demux_spec(frame, allow) is None,
{
}

/// An overlay payload shorter than its 8-byte header is dropped whatever the
/// allow-set: neither the VNI nor the payload type is looked at.
pub proof fn lemma_short_overlay_drops(frame: Seq<u8>, allow: Option<Set<u32>>)
    requires
        overlay_of(frame) matches Some(h) && h.len() < 8,
    ensures
        demux_spec(frame, allow) is None,
{
}

/// What the demultiplexer decided for one frame.
pub enum Demux {
    Forward(Vec<u8>),
    Drop,
}

impl Demux {
    pub open spec fn spec_frame(self) -> Option<Seq<u8>> {
        match self {
            Demux::Forward(v) => Some(v@),
            Demux::Drop => None,
        }
    }
}

/// Copies `src[start..]` after `dst`.
fn append_from(dst: &mut Vec<u8>, src: &[u8], start: usize)
    requires
        start <= src@.len(),
    ensures
        final(dst)@ == old(dst)@ + src@.subrange(start as int, src@.len() as int),
{
    let mut i: usize = start;
    while i < src.len()
        invariant
            start <= i <= src@.len(),
            dst@ == old(dst)@ + src@.subrange(start as int, i as int),
        decreases src@.len() - i,
    {
        dst.push(src[i]);
        i += 1;
        assert(src@.subrange(start as int, i as int) == src@.subrange(start as int, i - 1).push(
            src@[i - 1],
        ));
    }
}

/// Rebuilds the inner frame carried after the overlay header `h`.
fn rebuild(h: &[u8]) -> (r: Demux)
    requires
        h@.len() >= 8,
    ensures
        r.spec_frame() == inner_frame(h@),
{
    let inner_len = h.len() - OVERLAY_HEADER_LEN;
    if (h[1] / 8) % 2 == 1 {
        if inner_len >= ETHERNET_HEADER_LEN {
            let mut out: Vec<u8> = Vec::new();
            append_from(&mut out, h, OVERLAY_HEADER_LEN);
            assert(out@ == h@.subrange(8, h@.len() as int));
            Demux::Forward(out)
        } else {
            Demux::Drop
        }
    } else {
        if inner_len >= IPV4_MIN_HEADER_LEN {
            let mut out: Vec<u8> = vec![0x02u8, 0, 0, 0, 0, 1, 0x02, 0, 0, 0, 0, 2, 0x08, 0x00];
            assert(out@ == synthetic_header());
            append_from(&mut out, h, OVERLAY_HEADER_LEN);
            Demux::Forward(out)
        } else {
            Demux::Drop
        }
    }
}

/// Decides what becomes of one captured frame: the inner frame to forward,
/// or a drop.
pub fn demux(frame: &[u8], allow: &AllowSet) -> (r: Demux)
    ensures
        r.spec_frame() == demux_spec(frame@, allow@),
{
    let (ethertype, ip) = match parse_ethernet(frame) {
        Some(parts) => parts,
        None => return Demux::Drop,
    };
    if ethertype != ETHERTYPE_IPV4 {
        return Demux::Drop;
    }
    let (protocol, udp) = match parse_ipv4(ip.as_slice()) {
        Some(parts) => parts,
        None => return Demux::Drop,
    };
    if protocol != IP_PROTOCOL_UDP {
        return Demux::Drop;
    }
    let (port, h) = match parse_udp(udp.as_slice()) {
        Some(parts) => parts,
        None => return Demux::Drop,
    };
    if port != OVERLAY_PORT {
        return Demux::Drop;
    }
    if h.len() < UDP_HEADER_LEN {
        return Demux::Drop;
    }
    let vni: u32 = (h[4] as u32) * 65536 + (h[5] as u32) * 256 + (h[6] as u32);
    if !allow.admits(vni) {
        return Demux::Drop;
    }
    rebuild(h.as_slice())
}

} // verus!
