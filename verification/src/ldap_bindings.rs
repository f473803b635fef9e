//! LDAP protocol-operation identifiers used by the shallow framing check on
//! inbound traffic from known LDAP ports.
//!
//! Every LDAP message opens on the ASN.1 SEQUENCE tag; a few bytes further in
//! sits the protocol operation. Request operations (bindRequest 96,
//! unbindRequest 66, searchRequest 99) and response operations (bindResponse
//! 97, searchResEntry 100, searchResDone 101) are told apart by that byte.

use vstd::prelude::*;

verus! {

broadcast use vstd::array::group_array_axioms;

/// The request and response protocol-operation pools.
pub struct LdapBindgs {
    protocol_req_op_pool: [u8; 3],
    protocol_res_op_pool: [u8; 3],
}

/// Whether `b` is one of the LDAP response operations: bindResponse,
/// searchResEntry or searchResDone.
pub open spec fn is_ldap_response_op(b: u8) -> bool {
    b == 97 || b == 100 || b == 101
}

impl LdapBindgs {
    /// Abstract view of the request pool.
    pub closed spec fn req_pool(&self) -> Seq<u8> {
        self.protocol_req_op_pool@
    }

    /// Abstract view of the response pool.
    pub closed spec fn res_pool(&self) -> Seq<u8> {
        self.protocol_res_op_pool@
    }

    pub fn new() -> (r: LdapBindgs)
        ensures
            r.req_pool() =~= seq![96u8, 66u8, 99u8],
            r.res_pool() =~= seq![97u8, 100u8, 101u8],
    {
        LdapBindgs { protocol_req_op_pool: [96, 66, 99], protocol_res_op_pool: [97, 100, 101] }
    }

    /// Whether `fbyte` lies within the response-operation pool.
    pub fn check_protocol_op_type(&self, fbyte: u8) -> (r: bool)
        requires
            self.res_pool() =~= seq![97u8, 100u8, 101u8],
        ensures
            r == is_ldap_response_op(fbyte),
    {
        let a = self.protocol_res_op_pool[0];
        let b = self.protocol_res_op_pool[1];
        let c = self.protocol_res_op_pool[2];
        fbyte == a || fbyte == b || fbyte == c
    }

    /// The response-operation pool itself.
    pub fn get_protocol_op_pool(&self) -> (r: [u8; 3])
        ensures
            r@ == self.res_pool(),
    {
        self.protocol_res_op_pool
    }
}

} // verus!
