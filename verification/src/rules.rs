//! Flattening of the rule-set document into the four-slot policy vector.
//!
//! The configuration document lists `(traffic type, medium, block type)`
//! tuples. Inbound JNDI and JNDI:LDAP rules land in slots 2 and 3 (1 for
//! lookup mode, 2 for request mode); outbound rules land in slot 0 (TCP 1,
//! HTTP 2) and slot 1 (LDAP ports). Untouched slots stay 0, meaning no
//! action.

use vstd::prelude::*;

verus! {

/// One tuple of the rule-set document.
pub struct TrafficType {
    pub traffic_type: String,
    pub medium: String,
    pub block_type: String,
}

/// Effect of one document tuple on the policy vector.
pub open spec fn apply_block(r: Seq<u32>, b: TrafficType) -> Seq<u32> {
    if b.traffic_type@ == "Inbound"@ {
        if b.medium@ == "JNDI"@ {
            if b.block_type@ == "lookup"@ {
                r.update(2, 1u32)
            } else if b.block_type@ == "request"@ {
                r.update(2, 2u32)
            } else {
                r
            }
        } else if b.medium@ == "JNDI:LDAP"@ {
            if b.block_type@ == "lookup"@ {
                r.update(3, 1u32)
            } else if b.block_type@ == "request"@ {
                r.update(3, 2u32)
            } else {
                r
            }
        } else {
            r
        }
    } else if b.traffic_type@ == "Outbound"@ {
        if b.medium@ == "TCP"@ {
            r.update(0, 1u32)
        } else if b.medium@ == "HTTP"@ {
            r.update(0, 2u32)
        } else if b.medium@ == "LDAP"@ {
            r.update(1, 1u32)
        } else {
            r
        }
    } else {
        r
    }
}

/// The tuples from position `i` on, folded over the vector `r`.
pub open spec fn rule_slots_from(r: Seq<u32>, blocks: Seq<TrafficType>, i: int) -> Seq<u32>
    decreases blocks.len() - i,
{
    if i < 0 || i >= blocks.len() {
        r
    } else {
        rule_slots_from(apply_block(r, blocks[i]), blocks, i + 1)
    }
}

/// The policy vector a document flattens to.
pub open spec fn rule_slots_spec(blocks: Seq<TrafficType>) -> Seq<u32> {
    rule_slots_from(seq![0u32, 0u32, 0u32, 0u32], blocks, 0)
}

/// Flattens the parsed rule-set document into the policy vector.
pub fn rule_set_slots(blocks: &Vec<TrafficType>) -> (r: [u32; 4])
    ensures
        r@ == rule_slots_spec(blocks@),
{
    let inbound = String::from_str("Inbound");
    let outbound = String::from_str("Outbound");
    let jndi = String::from_str("JNDI");
    let jndi_ldap = String::from_str("JNDI:LDAP");
    let tcp = String::from_str("TCP");
    let http_m = String::from_str("HTTP");
    let ldap = String::from_str("LDAP");
    let lookup = String::from_str("lookup");
    let request = String::from_str("request");
    let mut rs: [u32; 4] = [0, 0, 0, 0];
    proof {
        assert(rs@ =~= seq![0u32, 0u32, 0u32, 0u32]);
    }
    let n = blocks.len();
    let mut i: usize = 0;
    while i < n
        invariant
            n == blocks@.len(),
            i <= n,
            rs@.len() == 4,
            inbound@ == "Inbound"@,
            outbound@ == "Outbound"@,
            jndi@ == "JNDI"@,
            jndi_ldap@ == "JNDI:LDAP"@,
            tcp@ == "TCP"@,
            http_m@ == "HTTP"@,
            ldap@ == "LDAP"@,
            lookup@ == "lookup"@,
            request@ == "request"@,
            rule_slots_spec(blocks@) == rule_slots_from(rs@, blocks@, i as int),
        decreases n - i,
    {
        let b = &blocks[i];
        let ghost rs_before = rs@;
        if b.traffic_type == inbound {
            if b.medium == jndi {
                if b.block_type == lookup {
                    rs[2] = 1;
                } else if b.block_type == request {
                    rs[2] = 2;
                }
            } else if b.medium == jndi_ldap {
                if b.block_type == lookup {
                    rs[3] = 1;
                } else if b.block_type == request {
                    rs[3] = 2;
                }
            }
        } else if b.traffic_type == outbound {
            if b.medium == tcp {
                rs[0] = 1;
            } else if b.medium == http_m {
                rs[0] = 2;
            } else if b.medium == ldap {
                rs[1] = 1;
            }
        }
        proof {
            assert(rs@ =~= apply_block(rs_before, blocks@[i as int]));
        }
        i = i + 1;
    }
    rs
}

} // verus!
