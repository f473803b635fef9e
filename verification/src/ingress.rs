//! The ingress filter: inbound TCP inspection, correlation against the
//! pending-lookup state, rule enforcement, and the shallow LDAP framing
//! check on known LDAP source ports.
//!
//! A packet whose destination counter trails its source counter is a reply
//! to traffic this host initiated. An inbound `GET` on such a reply from an
//! address with a pending lookup is the attacker-driven callback: the
//! pending entry is drained and, in lookup mode, the destination is
//! blocklisted. Traffic from an LDAP port is peeked for the ASN.1 SEQUENCE
//! opening and its protocol operation. The rule set, the blocklist and the
//! whitelist override then decide the outcome.

use vstd::prelude::*;
use crate::config::Config;
use crate::event::EventLog;
use crate::ldap_bindings::{is_ldap_response_op, LdapBindgs};
use crate::packet::{
    is_ipv4, ip_proto, load_be16, load_be32, load_u8, pkt_daddr, pkt_dport, pkt_saddr, pkt_sport,
    ETH_PROTO_OFF, ETH_P_IP, IPPROTO_TCP, IP_DADDR_OFF, IP_PROTO_OFF, IP_SADDR_OFF, TCP_DATA,
    TCP_DPORT_OFF, TCP_SPORT_OFF,
};
use crate::state::{
    bounded_upsert, lemma_lookups_drain_preserves_wf, lookups_drain, rtx_step, rtx_step_count,
    TrfState,
};
use crate::egress::lookup_mode;

verus! {

/// XDP action: let the packet through.
pub const XDP_PASS: u32 = 2;

/// XDP action: drop the packet.
pub const XDP_DROP: u32 = 1;

/// Known LDAP ports.
pub open spec fn is_ldap_port(p: u16) -> bool {
    p == 1389 || p == 389 || p == 636 || p == 3268 || p == 8081
}

/// The inbound frame is addressable: IPv4 and long enough for the protocol
/// field, both addresses and both TCP ports. Anything shorter fails open.
pub open spec fn ingress_parses(pkt: Seq<u8>) -> bool {
    is_ipv4(pkt) && pkt.len() >= TCP_DPORT_OFF + 2
}

/// The reply predicate: after both counter updates the destination count
/// trails the source count, on a TCP packet — traffic from a peer this host
/// initiated contact with. A failed counter update (table full) never
/// qualifies.
pub open spec fn cond_reply(pkt: Seq<u8>, st: TrfState) -> bool {
    let cap = st.rtx.cap();
    let scount = rtx_step_count(st.rtx@, cap, pkt_saddr(pkt));
    let dcount = rtx_step_count(rtx_step(st.rtx@, cap, pkt_saddr(pkt)), cap, pkt_daddr(pkt));
    &&& ip_proto(pkt) == IPPROTO_TCP
    &&& scount is Some
    &&& dcount is Some
    &&& dcount->Some_0 < scount->Some_0
}

/// The LDAP branch: a TCP packet from a known LDAP source port that did not
/// qualify as a reply.
pub open spec fn cond_ldap(pkt: Seq<u8>, st: TrfState) -> bool {
    &&& !cond_reply(pkt, st)
    &&& ip_proto(pkt) == IPPROTO_TCP
    &&& is_ldap_port(pkt_sport(pkt))
}

/// An inbound HTTP `GET` with at least 100 payload bytes: first payload byte
/// `G`, third byte `T`.
pub open spec fn ingress_get_hit(pkt: Seq<u8>) -> bool {
    pkt.len() >= TCP_DATA + 100 && pkt[TCP_DATA as int] == 71 && pkt[TCP_DATA + 2] == 84
}

/// An inbound HTTP response with at least 100 payload bytes: first payload
/// byte `H`, fourth byte `P`.
pub open spec fn ingress_http_hit(pkt: Seq<u8>) -> bool {
    pkt.len() >= TCP_DATA + 100 && pkt[TCP_DATA as int] == 72 && pkt[TCP_DATA + 3] == 80
}

/// The correlated callback: a reply carrying a `GET` whose source address
/// has a pending lookup.
pub open spec fn ingress_callback(pkt: Seq<u8>, st: TrfState) -> bool {
    &&& cond_reply(pkt, st)
    &&& ingress_get_hit(pkt)
    &&& st.lookups@.contains_key(pkt_saddr(pkt))
}

/// LDAP framing is inspected when the payload opens on the ASN.1 SEQUENCE
/// tag and reaches past the protocol-operation byte.
pub open spec fn ldap_data(pkt: Seq<u8>) -> bool {
    pkt.len() >= TCP_DATA + 6 && pkt[TCP_DATA as int] == 48
}

/// The protocol operation reported for an LDAP payload: the byte at offset
/// 5, unless a 100-byte-plus message carries no known response operation
/// there, in which case the byte at offset 6 (a known one-off of
/// searchResEntry framing).
pub open spec fn ldap_op(pkt: Seq<u8>) -> u8 {
    if pkt.len() >= TCP_DATA + 100 && !is_ldap_response_op(pkt[TCP_DATA + 5]) {
        pkt[TCP_DATA + 6]
    } else {
        pkt[TCP_DATA + 5]
    }
}

/// First detail level of an ingress event: TCP data seen by either branch.
pub open spec fn ingress_elvls0(pkt: Seq<u8>, st: TrfState) -> u32 {
    if cond_reply(pkt, st) || cond_ldap(pkt, st) {
        1
    } else {
        0
    }
}

/// Second detail level: the HTTP kind of a reply (1 for `GET`, 2 for a
/// response), or the payload size of an LDAP packet.
pub open spec fn ingress_elvls1(pkt: Seq<u8>, st: TrfState) -> u32 {
    if cond_reply(pkt, st) {
        if ingress_get_hit(pkt) {
            1
        } else if ingress_http_hit(pkt) {
            2
        } else {
            0
        }
    } else if cond_ldap(pkt, st) && ldap_data(pkt) {
        (pkt.len() - TCP_DATA) as u32
    } else {
        0
    }
}

/// Third detail level: the LDAP protocol operation, when inspected.
pub open spec fn ingress_elvls2(pkt: Seq<u8>, st: TrfState) -> u32 {
    if cond_ldap(pkt, st) && ldap_data(pkt) {
        ldap_op(pkt) as u32
    } else {
        0
    }
}

/// Blocklist contents after the callback handling: the callback's
/// destination is added in lookup mode, nothing else ever changes it here.
pub open spec fn ingress_blocklist(pkt: Seq<u8>, st: TrfState, cfg: Config) -> Map<u32, u32> {
    if ingress_callback(pkt, st) && lookup_mode(cfg) {
        bounded_upsert(st.blocklist@, st.blocklist.cap(), pkt_daddr(pkt), 1)
    } else {
        st.blocklist@
    }
}

/// Pending-lookup contents after the callback handling: the callback's
/// source entry is drained, with removal on zero.
pub open spec fn ingress_lookups(pkt: Seq<u8>, st: TrfState) -> Map<u32, u32> {
    if ingress_callback(pkt, st) {
        lookups_drain(st.lookups@, st.lookups.cap(), pkt_saddr(pkt))
    } else {
        st.lookups@
    }
}

/// A whitelisted destination overrides any ingress drop.
pub open spec fn ingress_override(pkt: Seq<u8>, st: TrfState) -> bool {
    st.whlist@.contains_key(pkt_daddr(pkt))
}

/// Whether the inbound packet is dropped: by the LDAP-port rule, the
/// TCP/HTTP rule, or blocklist membership of the destination (including one
/// acquired by this very callback) — unless the destination is whitelisted.
pub open spec fn ingress_drop(pkt: Seq<u8>, st: TrfState, cfg: Config) -> bool {
    let dport = if cond_reply(pkt, st) {
        pkt_dport(pkt)
    } else {
        0
    };
    if ingress_override(pkt, st) {
        false
    } else {
        ||| cfg.rule(1) == 1 && (is_ldap_port(dport) || cond_ldap(pkt, st))
        ||| cfg.rule(0) == 1 && ingress_elvls0(pkt, st) == 1
        ||| cfg.rule(0) == 2 && 1 <= ingress_elvls1(pkt, st) <= 2
        ||| ingress_blocklist(pkt, st, cfg).contains_key(pkt_daddr(pkt))
    }
}

/// The ingress filter over one inbound frame.
///
/// A frame that is not addressable IPv4 passes unmodified with no event.
/// Otherwise both retransmission counters are bumped, the reply or LDAP
/// branch inspects the payload, the correlated callback drains its pending
/// lookup and blocklists in lookup mode, the rules and the whitelist
/// override decide the action, and exactly one event is emitted; the returned action
/// is `XDP_DROP` exactly when the event records a drop. The frame-length
/// bound keeps the reported payload size within 32 bits.
pub fn try_intrf(pkt: &Vec<u8>, st: &mut TrfState, cfg: &Config) -> (r: (u32, Option<EventLog>))
    requires
        cfg.wf(),
        old(st).wf(),
        pkt@.len() <= 65535,
    ensures
        final(st).wf(),
        final(st).whlist == old(st).whlist,
        final(st).rtx.cap() == old(st).rtx.cap(),
        final(st).blocklist.cap() == old(st).blocklist.cap(),
        final(st).lookups.cap() == old(st).lookups.cap(),
        !ingress_parses(pkt@) ==> r.0 == XDP_PASS && r.1 is None && *final(st) == *old(st),
        ingress_parses(pkt@) ==> final(st).rtx@ == rtx_step(
            rtx_step(old(st).rtx@, old(st).rtx.cap(), pkt_saddr(pkt@)),
            old(st).rtx.cap(),
            pkt_daddr(pkt@),
        ),
        ingress_parses(pkt@) ==> final(st).blocklist@ == ingress_blocklist(
            pkt@,
            *old(st),
            *cfg,
        ),
        ingress_parses(pkt@) ==> final(st).lookups@ == ingress_lookups(pkt@, *old(st)),
        // Blocklist membership is terminal: no inspection removes an entry.
        ingress_parses(pkt@) ==> (forall|a: u32|
            old(st).blocklist@.contains_key(a)
                ==> #[trigger] final(st).blocklist@.contains_key(a)),
        ingress_parses(pkt@) ==> (r.1 matches Some(ev) && ({
            &&& ev.etype == 1
            &&& ev.eroute@[0] == pkt_saddr(pkt@)
            &&& ev.eroute@[1] == pkt_daddr(pkt@)
            &&& ev.eaction@[0] == (if ingress_drop(pkt@, *old(st), *cfg) {
                1u32
            } else {
                0u32
            })
            &&& ev.eaction@[1] == (if ingress_override(pkt@, *old(st)) {
                1u32
            } else {
                0u32
            })
            &&& ev.elvls@[0] == ingress_elvls0(pkt@, *old(st))
            &&& ev.elvls@[1] == ingress_elvls1(pkt@, *old(st))
            &&& ev.elvls@[2] == ingress_elvls2(pkt@, *old(st))
            &&& r.0 == (if ingress_drop(pkt@, *old(st), *cfg) {
                XDP_DROP
            } else {
                XDP_PASS
            })
        })),
        // A whitelisted destination always passes, with the override flag.
        ingress_parses(pkt@) && ingress_override(pkt@, *old(st)) ==> !ingress_drop(
            pkt@,
            *old(st),
            *cfg,
        ) && r.0 == XDP_PASS,
        // A blocklisted destination that is not whitelisted is dropped.
        ingress_parses(pkt@) && old(st).blocklist@.contains_key(pkt_daddr(pkt@)) && !old(
            st,
        ).whlist@.contains_key(pkt_daddr(pkt@)) ==> ingress_drop(pkt@, *old(st), *cfg) && r.0
            == XDP_DROP,
{
    let h_proto = match load_be16(pkt, ETH_PROTO_OFF) {
        Some(v) => v,
        None => {
            return (XDP_PASS, None);
        },
    };
    if h_proto != ETH_P_IP {
        return (XDP_PASS, None);
    }
    let ip_p = match load_u8(pkt, IP_PROTO_OFF) {
        Some(v) => v,
        None => {
            return (XDP_PASS, None);
        },
    };
    let saddr = match load_be32(pkt, IP_SADDR_OFF) {
        Some(v) => v,
        None => {
            return (XDP_PASS, None);
        },
    };
    let daddr = match load_be32(pkt, IP_DADDR_OFF) {
        Some(v) => v,
        None => {
            return (XDP_PASS, None);
        },
    };
    let sport = match load_be16(pkt, TCP_SPORT_OFF) {
        Some(v) => v,
        None => {
            return (XDP_PASS, None);
        },
    };
    let dport = match load_be16(pkt, TCP_DPORT_OFF) {
        Some(v) => v,
        None => {
            return (XDP_PASS, None);
        },
    };
    let scount_o = st.update_RTX(saddr);
    let dcount_o = st.update_RTX(daddr);
    let is_reply = ip_p == IPPROTO_TCP && (match (scount_o, dcount_o) {
        (Some(sc), Some(dc)) => dc < sc,
        _ => false,
    });
    proof {
        assert(is_reply == cond_reply(pkt@, *old(st)));
    }
    let mut srcldap: u8 = 0;
    let mut elvls0: u32 = 0;
    let mut elvls1: u32 = 0;
    let mut elvls2: u32 = 0;
    if is_reply {
        if pkt.len() >= TCP_DATA + 100 {
            let fbyte = pkt[TCP_DATA];
            if fbyte == 71 {
                if pkt[TCP_DATA + 2] == 84 {
                    match st.lookups.get(saddr) {
                        None => {
                            // an unexpected GET, not triggered by a lookup
                        },
                        Some(_) => {
                            let r2 = cfg.rule_set[2];
                            let r3 = cfg.rule_set[3];
                            if r2 == 1 || r3 == 1 {
                                st.block_addr(daddr);
                            }
                            let drained = st.update_LOOKUPS(saddr, false);
                            match drained {
                                Some(c) => {
                                    if c == 0 {
                                        st.remove_lookup(saddr);
                                    }
                                },
                                None => {},
                            }
                            proof {
                                lemma_lookups_drain_preserves_wf(
                                    old(st).lookups@,
                                    old(st).lookups.cap(),
                                    pkt_saddr(pkt@),
                                );
                            }
                        },
                    }
                    elvls1 = 1;
                }
            } else if fbyte == 72 {
                if pkt[TCP_DATA + 3] == 80 {
                    elvls1 = 2;
                }
            }
        }
        elvls0 = 1;
    } else if ip_p == IPPROTO_TCP && (sport == 1389 || sport == 389 || sport == 636 || sport
        == 3268 || sport == 8081) {
        if pkt.len() >= TCP_DATA + 6 {
            let fbyte = pkt[TCP_DATA];
            if fbyte == 48 {
                let data_size = pkt.len() - TCP_DATA;
                let mut protocol_op = pkt[TCP_DATA + 5];
                if data_size >= 100 {
                    let bindgs = LdapBindgs::new();
                    if !bindgs.check_protocol_op_type(protocol_op) {
                        protocol_op = pkt[TCP_DATA + 6];
                    }
                }
                elvls1 = data_size as u32;
                elvls2 = protocol_op as u32;
            }
        }
        elvls0 = 1;
        srcldap = 1;
    }
    let mut ctxdrop: u32 = 0;
    let mut ctxoveride: u32 = 0;
    let dport_eff: u16 = if is_reply {
        dport
    } else {
        0
    };
    if cfg.rule_set[1] == 1 && (dport_eff == 1389 || dport_eff == 389 || dport_eff == 636
        || dport_eff == 3268 || dport_eff == 8081 || srcldap == 1) {
        ctxdrop = 1;
    }
    if cfg.rule_set[0] == 1 && elvls0 == 1 {
        ctxdrop = 1;
    }
    if cfg.rule_set[0] == 2 && 1 <= elvls1 && elvls1 <= 2 {
        ctxdrop = 1;
    }
    if st.is_blocked(daddr) {
        ctxdrop = 1;
    }
    if st.is_verified(daddr) {
        ctxdrop = 0;
        ctxoveride = 1;
    }
    let ev = EventLog {
        etype: 1,
        eroute: [saddr, daddr],
        eaction: [ctxdrop, ctxoveride],
        elvls: [elvls0, elvls1, elvls2],
    };
    if ctxdrop == 1 {
        (XDP_DROP, Some(ev))
    } else {
        (XDP_PASS, Some(ev))
    }
}

} // verus!
