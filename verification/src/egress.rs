//! The egress classifier: outbound TCP inspection, JNDI detection and
//! arming of the pending-lookup correlator.
//!
//! The classifier parses the outbound payload only when it opens on `GET`.
//! Starting at the configured header-name offset it slides a two-byte rolling
//! match over a window of half the name's length; a hit yields the offset of
//! the header value, which is then compared against the literal `${jndi` and,
//! on success, `:ldap`. The result pair is `(regex match, kind)`: the first
//! component records that the value opened on `${`, the kind is 1 for
//! `${jndi` and 2 for `${jndi:ldap`.

use vstd::prelude::*;
use crate::config::Config;
use crate::event::EventLog;
use crate::packet::{
    is_ipv4, ip_proto, load_be16, load_be32, load_u8, match_at, pkt_daddr, pkt_saddr,
    ETH_PROTO_OFF, ETH_P_IP, IPPROTO_TCP, IP_DADDR_OFF, IP_PROTO_OFF, IP_SADDR_OFF, TCP_DATA,
};
use crate::state::{lemma_lookups_arm_preserves_wf, lookups_step, rtx_step, TrfState};

verus! {

broadcast use vstd::array::group_array_axioms;

/// Traffic-control action: hand the packet to the next classifier.
pub const TC_ACT_PIPE: i32 = 3;

/// Traffic-control action: drop the packet.
pub const TC_ACT_SHOT: i32 = 2;

/// The bytes of `GET`.
pub open spec fn http_get_seq() -> Seq<u8> {
    seq![71u8, 69u8, 84u8]
}

/// The bytes of `${jndi`.
pub open spec fn jndi_seq() -> Seq<u8> {
    seq![36u8, 123u8, 106u8, 110u8, 100u8, 105u8]
}

/// The bytes of `:ldap`.
pub open spec fn ldap_seq() -> Seq<u8> {
    seq![58u8, 108u8, 100u8, 97u8, 112u8]
}

/// Width of the sliding search window: half the header name, rounded up.
pub open spec fn scan_window(cfg: Config) -> int {
    (cfg.header_seq@.len() + 1) as int / 2
}

/// The rolling two-byte match of `lookup_hdr`, tried from position `i` of
/// the header-name sequence upward. A candidate byte equal to the last name
/// byte yields offset 3 (the `: ` separator plus one); a byte equal to name
/// position `i` whose successor byte (read at the fixed next-byte offset)
/// equals position `i + 1` yields the offset of the header value relative to
/// the match point. Anything else slides on; an exhausted name yields `None`.
pub open spec fn lookup_hdr_from(
    pkt: Seq<u8>,
    cfg: Config,
    byte: u8,
    nxbyteidx: int,
    i: int,
) -> Option<int>
    decreases cfg.header_seq@.len() - i,
{
    let hdr = cfg.header_seq@;
    let sz = hdr.len() as int;
    if i < 0 || i >= sz {
        None
    } else if byte == hdr[i] && i == sz - 1 {
        Some(3)
    } else if byte == hdr[i] && TCP_DATA + cfg.name_offset + nxbyteidx < pkt.len() && pkt[TCP_DATA
        + cfg.name_offset + nxbyteidx] == hdr[i + 1] {
        Some(i + (sz - (i + 1)) + 3)
    } else {
        lookup_hdr_from(pkt, cfg, byte, nxbyteidx, i + 1)
    }
}

/// The rolling match over the whole header-name sequence.
pub open spec fn lookup_hdr_spec(pkt: Seq<u8>, cfg: Config, byte: u8, nxbyteidx: int) -> Option<
    int,
> {
    lookup_hdr_from(pkt, cfg, byte, nxbyteidx, 0)
}

/// The header-window scan of `bef_dpi`, from window position `j` on, with
/// the left-hand-side offset `lhs` accumulated over unmatched bytes and the
/// current `(regex match, kind)` accumulators. A read past the packet end
/// ends the scan with the current result; a matched header position is
/// followed by the `${jndi` and `:ldap` comparisons at the header value.
pub open spec fn scan_from(pkt: Seq<u8>, cfg: Config, j: int, lhs: int, re: u32, look: u32) -> (
    u32,
    u32,
)
    decreases scan_window(cfg) - j,
{
    let base = TCP_DATA + cfg.name_offset;
    if j < 0 || j >= scan_window(cfg) {
        (re, look)
    } else if base + j >= pkt.len() {
        (re, look)
    } else {
        match lookup_hdr_spec(pkt, cfg, pkt[base + j], j + 1) {
            None => scan_from(pkt, cfg, j + 1, lhs + 1, re, look),
            Some(lo) => {
                let p = base + lo + lhs;
                if p >= pkt.len() || pkt[p] != 36 {
                    scan_from(pkt, cfg, j + 1, lhs, re, look)
                } else if p + 2 > pkt.len() || pkt[p + 1] != 123 {
                    (re, look)
                } else if match_at(pkt, p, jndi_seq()) {
                    if match_at(pkt, p + 6, ldap_seq()) {
                        scan_from(pkt, cfg, j + 1, lhs, 1, 2)
                    } else {
                        (1, 1)
                    }
                } else {
                    (1, look)
                }
            },
        }
    }
}

/// Result of the header-localized JNDI scan: `(0, 0)` unless the payload
/// opens on `GET`, otherwise the window scan from the configured offset.
pub open spec fn bef_dpi_spec(pkt: Seq<u8>, cfg: Config) -> (u32, u32) {
    if match_at(pkt, TCP_DATA as int, http_get_seq()) {
        scan_from(pkt, cfg, 0, 0, 0, 0)
    } else {
        (0, 0)
    }
}

/// Two-byte rolling match of one candidate byte against the header-name
/// sequence; `nxbyteidx` is the window index at which the successor byte is
/// read. Returns the offset of the header value relative to the match point.
pub fn lookup_hdr(pkt: &Vec<u8>, cfg: &Config, byte: u8, nxbyteidx: usize) -> (r: Option<usize>)
    requires
        cfg.wf(),
        nxbyteidx <= 65535,
    ensures
        match r {
            Some(v) => lookup_hdr_spec(pkt@, *cfg, byte, nxbyteidx as int) == Some(v as int),
            None => lookup_hdr_spec(pkt@, *cfg, byte, nxbyteidx as int) is None,
        },
{
    let sz = cfg.header_seq.len();
    let nxoff = TCP_DATA + cfg.name_offset + nxbyteidx;
    let mut i: usize = 0;
    while i < sz
        invariant
            cfg.wf(),
            sz == cfg.header_seq@.len(),
            nxoff == TCP_DATA + cfg.name_offset + nxbyteidx,
            nxbyteidx <= 65535,
            i <= sz,
            lookup_hdr_spec(pkt@, *cfg, byte, nxbyteidx as int) == lookup_hdr_from(
                pkt@,
                *cfg,
                byte,
                nxbyteidx as int,
                i as int,
            ),
        decreases sz - i,
    {
        if byte == cfg.header_seq[i] {
            if i == sz - 1 {
                return Some(3);
            } else {
                match load_u8(pkt, nxoff) {
                    Some(nxbyte) => {
                        if nxbyte == cfg.header_seq[i + 1] {
                            return Some(i + (sz - (i + 1)) + 3);
                        }
                    },
                    None => {},
                }
            }
        }
        i = i + 1;
    }
    None
}

/// The offsets the rolling match can yield are bounded by the header-name
/// length, so the scan's value-offset arithmetic stays within one frame.
proof fn lemma_lookup_hdr_from_bounds(pkt: Seq<u8>, cfg: Config, byte: u8, nx: int, i: int)
    requires
        0 <= i,
        lookup_hdr_from(pkt, cfg, byte, nx, i) is Some,
    ensures
        3 <= lookup_hdr_from(pkt, cfg, byte, nx, i)->Some_0 <= cfg.header_seq@.len() + 2,
    decreases cfg.header_seq@.len() - i,
{
    let hdr = cfg.header_seq@;
    let sz = hdr.len() as int;
    if i >= sz {
    } else if byte == hdr[i] && i == sz - 1 {
    } else if byte == hdr[i] && TCP_DATA + cfg.name_offset + nx < pkt.len() && pkt[TCP_DATA
        + cfg.name_offset + nx] == hdr[i + 1] {
    } else {
        lemma_lookup_hdr_from_bounds(pkt, cfg, byte, nx, i + 1);
    }
}

/// Header-localized JNDI scan over the outbound payload; the executable
/// mirror of `bef_dpi_spec`.
pub fn bef_dpi(pkt: &Vec<u8>, cfg: &Config) -> (r: (u32, u32))
    requires
        cfg.wf(),
    ensures
        r == bef_dpi_spec(pkt@, *cfg),
{
    if pkt.len() < TCP_DATA + 3 {
        return (0, 0);
    }
    if !(pkt[TCP_DATA] == 71 && pkt[TCP_DATA + 1] == 69 && pkt[TCP_DATA + 2] == 84) {
        proof {
            let pat = http_get_seq();
            if match_at(pkt@, TCP_DATA as int, pat) {
                assert(pkt@[TCP_DATA as int] == pat[0]);
                assert(pkt@[TCP_DATA + 1] == pat[1]);
                assert(pkt@[TCP_DATA + 2] == pat[2]);
            }
        }
        return (0, 0);
    }
    proof {
        let pat = http_get_seq();
        assert forall|k: int| 0 <= k < pat.len() implies pkt@[TCP_DATA + k] == pat[k] by {
            if k == 0 {
            } else if k == 1 {
            } else {
            }
        }
        assert(match_at(pkt@, TCP_DATA as int, pat));
    }
    let sz = cfg.header_seq.len();
    let window = (sz + 1) / 2;
    let base = TCP_DATA + cfg.name_offset;
    let mut j: usize = 0;
    let mut lhs: usize = 0;
    let mut re: u32 = 0;
    let mut look: u32 = 0;
    while j < window
        invariant
            cfg.wf(),
            sz == cfg.header_seq@.len(),
            window == scan_window(*cfg),
            window <= 128,
            base == TCP_DATA + cfg.name_offset,
            base <= 65601,
            j <= window,
            lhs <= j,
            match_at(pkt@, TCP_DATA as int, http_get_seq()),
            bef_dpi_spec(pkt@, *cfg) == scan_from(pkt@, *cfg, j as int, lhs as int, re, look),
        decreases window - j,
    {
        if base + j >= pkt.len() {
            return (re, look);
        }
        let b = pkt[base + j];
        match lookup_hdr(pkt, cfg, b, j + 1) {
            None => {
                proof {
                    assert(scan_from(pkt@, *cfg, j as int, lhs as int, re, look) == scan_from(
                        pkt@,
                        *cfg,
                        j + 1,
                        lhs + 1,
                        re,
                        look,
                    ));
                }
                lhs = lhs + 1;
            },
            Some(lo) => {
                proof {
                    lemma_lookup_hdr_from_bounds(pkt@, *cfg, b, j + 1, 0);
                }
                let p = base + lo + lhs;
                let dollar = p < pkt.len() && pkt[p] == 36;
                if !dollar {
                    proof {
                        assert(scan_from(pkt@, *cfg, j as int, lhs as int, re, look) == scan_from(
                            pkt@,
                            *cfg,
                            j + 1,
                            lhs as int,
                            re,
                            look,
                        ));
                    }
                } else if !(p + 2 <= pkt.len() && pkt[p + 1] == 123) {
                    return (re, look);
                } else {
                    let jndi_ok = p + 6 <= pkt.len() && pkt[p + 2] == 106 && pkt[p + 3] == 110
                        && pkt[p + 4] == 100 && pkt[p + 5] == 105;
                    if jndi_ok {
                        proof {
                            let pat = jndi_seq();
                            assert forall|k: int| 0 <= k < pat.len() implies pkt@[p + k]
                                == pat[k] by {}
                            assert(match_at(pkt@, p as int, pat));
                        }
                        let ldap_ok = p + 11 <= pkt.len() && pkt[p + 6] == 58 && pkt[p + 7] == 108
                            && pkt[p + 8] == 100 && pkt[p + 9] == 97 && pkt[p + 10] == 112;
                        if ldap_ok {
                            proof {
                                let pat = ldap_seq();
                                assert forall|k: int| 0 <= k < pat.len() implies pkt@[p + 6 + k]
                                    == pat[k] by {}
                                assert(match_at(pkt@, p + 6, pat));
                                assert(scan_from(pkt@, *cfg, j as int, lhs as int, re, look)
                                    == scan_from(pkt@, *cfg, j + 1, lhs as int, 1, 2));
                            }
                            re = 1;
                            look = 2;
                        } else {
                            proof {
                                let pat = ldap_seq();
                                if match_at(pkt@, p + 6, pat) {
                                    assert(pkt@[p + 6] == pat[0]);
                                    assert(pkt@[p + 7] == pat[1]);
                                    assert(pkt@[p + 8] == pat[2]);
                                    assert(pkt@[p + 9] == pat[3]);
                                    assert(pkt@[p + 10] == pat[4]);
                                }
                            }
                            return (1, 1);
                        }
                    } else {
                        proof {
                            let pat = jndi_seq();
                            if match_at(pkt@, p as int, pat) {
                                assert(pkt@[p + 2] == pat[2]);
                                assert(pkt@[p + 3] == pat[3]);
                                assert(pkt@[p + 4] == pat[4]);
                                assert(pkt@[p + 5] == pat[5]);
                            }
                        }
                        return (1, look);
                    }
                }
            },
        }
        j = j + 1;
    }
    (re, look)
}

/// The outbound frame is addressable: it declares IPv4 and is long enough
/// for the protocol field and both addresses. Anything shorter fails open.
pub open spec fn egress_parses(pkt: Seq<u8>) -> bool {
    is_ipv4(pkt) && pkt.len() >= IP_DADDR_OFF + 4
}

/// Detection result the classifier acts on: nothing for a blocklisted source
/// or a non-TCP packet, otherwise the JNDI scan of the payload.
pub open spec fn egress_einfo(pkt: Seq<u8>, blocklist: Map<u32, u32>, cfg: Config) -> (u32, u32) {
    if blocklist.contains_key(pkt_saddr(pkt)) {
        (0u32, 0u32)
    } else if ip_proto(pkt) == IPPROTO_TCP {
        bef_dpi_spec(pkt, cfg)
    } else {
        (0u32, 0u32)
    }
}

/// Lookup mode: a JNDI hit arms the pending-lookup correlator and the drop
/// falls on the inbound follow-up.
pub open spec fn lookup_mode(cfg: Config) -> bool {
    cfg.rule(2) == 1 || cfg.rule(3) == 1
}

/// Request mode: the outbound request carrying the pattern is dropped
/// directly.
pub open spec fn request_mode(cfg: Config) -> bool {
    cfg.rule(2) == 2 || cfg.rule(3) == 2
}

/// A whitelisted source overrides any egress drop.
pub open spec fn egress_override(pkt: Seq<u8>, st: TrfState) -> bool {
    st.whlist@.contains_key(pkt_saddr(pkt))
}

/// The egress classifier arms the correlator when the scan found the JNDI
/// pattern and the policy defers the drop to the follow-up.
pub open spec fn egress_armed(pkt: Seq<u8>, st: TrfState, cfg: Config) -> bool {
    egress_einfo(pkt, st.blocklist@, cfg).1 >= 1 && lookup_mode(cfg)
}

/// Whether the outbound packet is dropped: a blocklisted source or a JNDI
/// hit under request mode, unless the source is whitelisted.
pub open spec fn egress_drop(pkt: Seq<u8>, st: TrfState, cfg: Config) -> bool {
    let kind = egress_einfo(pkt, st.blocklist@, cfg).1;
    if egress_override(pkt, st) {
        false
    } else if st.blocklist@.contains_key(pkt_saddr(pkt)) {
        true
    } else {
        kind >= 1 && !lookup_mode(cfg) && request_mode(cfg)
    }
}

/// The egress classifier over one outbound frame.
///
/// A frame that is not addressable IPv4 passes unmodified with no event.
/// Otherwise the packet is scanned, the policy applied, the retransmission
/// counters of both endpoints bumped, and exactly one event emitted; the
/// returned action is `TC_ACT_SHOT` exactly when the event records a drop.
pub fn try_egtrf(pkt: &Vec<u8>, st: &mut TrfState, cfg: &Config) -> (r: (i32, Option<EventLog>))
    requires
        cfg.wf(),
        old(st).wf(),
    ensures
        final(st).wf(),
        final(st).whlist == old(st).whlist,
        final(st).blocklist == old(st).blocklist,
        final(st).rtx.cap() == old(st).rtx.cap(),
        final(st).lookups.cap() == old(st).lookups.cap(),
        !egress_parses(pkt@) ==> r.0 == TC_ACT_PIPE && r.1 is None && *final(st) == *old(st),
        egress_parses(pkt@) ==> final(st).rtx@ == rtx_step(
            rtx_step(old(st).rtx@, old(st).rtx.cap(), pkt_saddr(pkt@)),
            old(st).rtx.cap(),
            pkt_daddr(pkt@),
        ),
        egress_parses(pkt@) ==> final(st).lookups@ == (if egress_armed(pkt@, *old(st), *cfg) {
            lookups_step(old(st).lookups@, old(st).lookups.cap(), pkt_daddr(pkt@), true)
        } else {
            old(st).lookups@
        }),
        egress_parses(pkt@) ==> (r.1 matches Some(ev) && ({
            let einfo = egress_einfo(pkt@, old(st).blocklist@, *cfg);
            &&& ev.etype == 0
            &&& ev.eroute@[0] == pkt_saddr(pkt@)
            &&& ev.eroute@[1] == pkt_daddr(pkt@)
            &&& ev.eaction@[0] == (if egress_drop(pkt@, *old(st), *cfg) {
                1u32
            } else {
                0u32
            })
            &&& ev.eaction@[1] == (if egress_override(pkt@, *old(st)) {
                1u32
            } else {
                0u32
            })
            &&& ev.elvls@[0] == einfo.0
            &&& ev.elvls@[1] == (if einfo.1 >= 1 {
                1u32
            } else {
                0u32
            })
            &&& ev.elvls@[2] == (if einfo.1 == 2 {
                1u32
            } else {
                0u32
            })
            &&& r.0 == (if egress_drop(pkt@, *old(st), *cfg) {
                TC_ACT_SHOT
            } else {
                TC_ACT_PIPE
            })
        })),
        // A whitelisted source always passes, with the override flag raised.
        egress_parses(pkt@) && egress_override(pkt@, *old(st)) ==> !egress_drop(
            pkt@,
            *old(st),
            *cfg,
        ) && r.0 == TC_ACT_PIPE,
        // A blocklisted source that is not whitelisted is always dropped.
        egress_parses(pkt@) && old(st).blocklist@.contains_key(pkt_saddr(pkt@)) && !old(
            st,
        ).whlist@.contains_key(pkt_saddr(pkt@)) ==> egress_drop(pkt@, *old(st), *cfg) && r.0
            == TC_ACT_SHOT,
{
    let h_proto = match load_be16(pkt, ETH_PROTO_OFF) {
        Some(v) => v,
        None => {
            return (TC_ACT_PIPE, None);
        },
    };
    if h_proto != ETH_P_IP {
        return (TC_ACT_PIPE, None);
    }
    let ip_p = match load_u8(pkt, IP_PROTO_OFF) {
        Some(v) => v,
        None => {
            return (TC_ACT_PIPE, None);
        },
    };
    let saddr = match load_be32(pkt, IP_SADDR_OFF) {
        Some(v) => v,
        None => {
            return (TC_ACT_PIPE, None);
        },
    };
    let daddr = match load_be32(pkt, IP_DADDR_OFF) {
        Some(v) => v,
        None => {
            return (TC_ACT_PIPE, None);
        },
    };
    let mut ctxdrop: u32 = 0;
    let mut ctxoveride: u32 = 0;
    let mut einfo: (u32, u32) = (0, 0);
    if st.is_blocked(saddr) {
        ctxdrop = 1;
    } else if ip_p == IPPROTO_TCP {
        einfo = bef_dpi(pkt, cfg);
    }
    let lvl0 = einfo.0;
    let lvl1: u32 = if einfo.1 >= 1 {
        1
    } else {
        0
    };
    let lvl2: u32 = if einfo.1 == 2 {
        1
    } else {
        0
    };
    if einfo.1 >= 1 {
        let r2 = cfg.rule_set[2];
        let r3 = cfg.rule_set[3];
        if r2 == 1 || r3 == 1 {
            st.update_LOOKUPS(daddr, true);
            proof {
                lemma_lookups_arm_preserves_wf(
                    old(st).lookups@,
                    old(st).lookups.cap(),
                    pkt_daddr(pkt@),
                );
            }
        } else if r2 == 2 || r3 == 2 {
            ctxdrop = 1;
        }
    }
    if st.is_verified(saddr) {
        ctxdrop = 0;
        ctxoveride = 1;
    }
    st.update_RTX(saddr);
    st.update_RTX(daddr);
    let ev = EventLog {
        etype: 0,
        eroute: [saddr, daddr],
        eaction: [ctxdrop, ctxoveride],
        elvls: [lvl0, lvl1, lvl2],
    };
    if ctxdrop == 1 {
        (TC_ACT_SHOT, Some(ev))
    } else {
        (TC_ACT_PIPE, Some(ev))
    }
}

} // verus!
