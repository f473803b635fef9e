//! Build-time artifacts the loader bakes into the inspection programs: the
//! byte sequence of the logging header's name, its offset within the baseline
//! HTTP request, and the four-slot policy vector.

use vstd::prelude::*;

verus! {

broadcast use vstd::array::group_array_axioms;

/// Policy slot values: 0 is no action. Slot 0 blocks outbound TCP (1) or
/// outbound HTTP (2); slot 1 blocks known LDAP ports (1); slots 2 and 3 block
/// JNDI respectively JNDI:LDAP traffic, in lookup mode (1: arm the pending
/// lookup and drop the follow-up) or request mode (2: drop the carrying
/// request directly).
#[derive(Debug)]
pub struct Config {
    /// Decimal-ASCII bytes of the configured logging header name.
    pub header_seq: Vec<u8>,
    /// Byte offset of the header name from the start of the HTTP payload.
    pub name_offset: usize,
    /// The four policy slots.
    pub rule_set: [u32; 4],
}

impl Config {
    /// The header name is short and its offset lies within one frame, so all
    /// scan offsets fit comfortably in a `usize`.
    pub open spec fn wf(&self) -> bool {
        &&& 1 <= self.header_seq@.len() <= 255
        &&& self.name_offset <= 65535
    }

    /// Value of policy slot `i`.
    pub open spec fn rule(&self, i: int) -> u32
        recommends
            0 <= i < 4,
    {
        self.rule_set@[i]
    }

    pub fn new(header_seq: Vec<u8>, name_offset: usize, rule_set: [u32; 4]) -> (r: Config)
        requires
            1 <= header_seq@.len() <= 255,
            name_offset <= 65535,
        ensures
            r.wf(),
            r.header_seq@ == header_seq@,
            r.name_offset == name_offset,
            r.rule_set@ == rule_set@,
    {
        Config { header_seq, name_offset, rule_set }
    }
}

} // verus!
