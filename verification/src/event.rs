//! The event record: one fixed-layout record per inspected packet, emitted
//! toward the per-CPU ring. All fields are 32-bit unsigned so the record
//! crosses the user/kernel boundary without alignment padding.

use vstd::prelude::*;

verus! {

broadcast use vstd::array::group_array_axioms;

/// One inspection event.
///
/// `etype` is 0 for an outbound (egress) event and 1 for an inbound
/// (ingress) one. `eroute` holds `[saddr, daddr]` in host order, `eaction`
/// holds `[dropped, overridden]` (0/1 each), and `elvls` carries the
/// per-direction detail levels: for egress `[regex match, jndi found,
/// jndi-ldap found]`, for ingress `[tcp data seen, http kind or ldap size,
/// ldap protocol op]`.
#[derive(Clone, Copy, Debug)]
pub struct EventLog {
    pub etype: u32,
    pub eroute: [u32; 2],
    pub eaction: [u32; 2],
    pub elvls: [u32; 3],
}

} // verus!
