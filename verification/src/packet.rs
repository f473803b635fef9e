//! Bounds-checked access to raw packet bytes.
//!
//! A packet is a plain byte vector covering the Ethernet frame. Every load is
//! an independent bounds-checked read at a fixed offset; nothing traverses
//! the packet with a running pointer. The fixed header offsets below assume
//! IPv4 over Ethernet without IP options, plus the 12 bytes of TCP options
//! observed on the target interface.

use vstd::prelude::*;

verus! {

/// Length of the Ethernet header.
pub const ETH_HDR_LEN: usize = 14;

/// Length of the IPv4 header (no options).
pub const IP_HDR_LEN: usize = 20;

/// Length of the TCP header (without options).
pub const TCP_HDR_LEN: usize = 20;

/// Offset of the first TCP payload byte: Ethernet + IP + TCP headers plus the
/// 12 bytes of TCP options carried by the observed traffic.
pub const TCP_DATA: usize = 66;

/// Offset of the EtherType field within the Ethernet header.
pub const ETH_PROTO_OFF: usize = 12;

/// Offset of the IP protocol field within the frame.
pub const IP_PROTO_OFF: usize = 23;

/// Offset of the IP source address within the frame.
pub const IP_SADDR_OFF: usize = 26;

/// Offset of the IP destination address within the frame.
pub const IP_DADDR_OFF: usize = 30;

/// Offset of the TCP source port within the frame.
pub const TCP_SPORT_OFF: usize = 34;

/// Offset of the TCP destination port within the frame.
pub const TCP_DPORT_OFF: usize = 36;

/// EtherType of IPv4.
pub const ETH_P_IP: u16 = 0x0800;

/// IP protocol number of TCP.
pub const IPPROTO_TCP: u8 = 6;

/// Big-endian 16-bit value at byte offset `i`.
pub open spec fn be16(pkt: Seq<u8>, i: int) -> u16
    recommends
        0 <= i,
        i + 2 <= pkt.len(),
{
    (pkt[i] as u16 * 256 + pkt[i + 1] as u16) as u16
}

/// Big-endian 32-bit value at byte offset `i`.
pub open spec fn be32(pkt: Seq<u8>, i: int) -> u32
    recommends
        0 <= i,
        i + 4 <= pkt.len(),
{
    (pkt[i] as u32 * 0x1000000 + pkt[i + 1] as u32 * 0x10000 + pkt[i + 2] as u32 * 0x100 + pkt[i
        + 3] as u32) as u32
}

/// Whether the frame is long enough to carry an EtherType and declares IPv4.
pub open spec fn is_ipv4(pkt: Seq<u8>) -> bool {
    pkt.len() >= ETH_PROTO_OFF + 2 && be16(pkt, ETH_PROTO_OFF as int) == ETH_P_IP
}

/// The IP protocol field.
pub open spec fn ip_proto(pkt: Seq<u8>) -> u8
    recommends
        pkt.len() > IP_PROTO_OFF,
{
    pkt[IP_PROTO_OFF as int]
}

/// The IP source address, in host order.
pub open spec fn pkt_saddr(pkt: Seq<u8>) -> u32 {
    be32(pkt, IP_SADDR_OFF as int)
}

/// The IP destination address, in host order.
pub open spec fn pkt_daddr(pkt: Seq<u8>) -> u32 {
    be32(pkt, IP_DADDR_OFF as int)
}

/// The TCP source port, in host order.
pub open spec fn pkt_sport(pkt: Seq<u8>) -> u16 {
    be16(pkt, TCP_SPORT_OFF as int)
}

/// The TCP destination port, in host order.
pub open spec fn pkt_dport(pkt: Seq<u8>) -> u16 {
    be16(pkt, TCP_DPORT_OFF as int)
}

/// The literal bytes `pat` appear in `pkt` starting at offset `off`.
pub open spec fn match_at(pkt: Seq<u8>, off: int, pat: Seq<u8>) -> bool {
    &&& 0 <= off
    &&& off + pat.len() <= pkt.len()
    &&& forall|k: int| 0 <= k < pat.len() ==> pkt[off + k] == pat[k]
}

/// Bounds-checked single-byte load.
pub fn load_u8(pkt: &Vec<u8>, off: usize) -> (r: Option<u8>)
    ensures
        r == (if off < pkt@.len() {
            Some(pkt@[off as int])
        } else {
            None::<u8>
        }),
{
    if off < pkt.len() {
        Some(pkt[off])
    } else {
        None
    }
}

/// Bounds-checked big-endian 16-bit load.
pub fn load_be16(pkt: &Vec<u8>, off: usize) -> (r: Option<u16>)
    ensures
        r == (if off + 2 <= pkt@.len() {
            Some(be16(pkt@, off as int))
        } else {
            None::<u16>
        }),
{
    if off < pkt.len() && pkt.len() - off >= 2 {
        Some((pkt[off] as u16) * 256 + (pkt[off + 1] as u16))
    } else {
        None
    }
}

/// Bounds-checked big-endian 32-bit load.
pub fn load_be32(pkt: &Vec<u8>, off: usize) -> (r: Option<u32>)
    ensures
        r == (if off + 4 <= pkt@.len() {
            Some(be32(pkt@, off as int))
        } else {
            None::<u32>
        }),
{
    if off < pkt.len() && pkt.len() - off >= 4 {
        Some(
            (pkt[off] as u32) * 0x1000000 + (pkt[off + 1] as u32) * 0x10000 + (pkt[off
                + 2] as u32) * 0x100 + (pkt[off + 3] as u32),
        )
    } else {
        None
    }
}

} // verus!
