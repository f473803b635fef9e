use elogj::headers::{
    get_default_header_offset, get_template_header_offset, header_offsets, HeaderPair,
    __config_logger_payload,
};
use elogj::ldap_bindings::LdapBindgs;
use elogj::rules::{rule_set_slots, TrafficType};

fn block(t: &str, m: &str, b: &str) -> TrafficType {
    TrafficType { traffic_type: t.to_string(), medium: m.to_string(), block_type: b.to_string() }
}

#[test]
fn rule_set_defaults_to_no_action() {
    let blocks: Vec<TrafficType> = Vec::new();
    assert_eq!(rule_set_slots(&blocks), [0, 0, 0, 0]);
}

#[test]
fn rule_set_flattens_inbound_jndi() {
    let blocks = vec![block("Inbound", "JNDI", "lookup")];
    assert_eq!(rule_set_slots(&blocks), [0, 0, 1, 0]);
    let blocks = vec![block("Inbound", "JNDI", "request"), block("Inbound", "JNDI:LDAP", "lookup")];
    assert_eq!(rule_set_slots(&blocks), [0, 0, 2, 1]);
}

#[test]
fn rule_set_flattens_outbound_rules() {
    let blocks = vec![block("Outbound", "TCP", ""), block("Inbound", "JNDI:LDAP", "request")];
    assert_eq!(rule_set_slots(&blocks), [1, 0, 0, 2]);
    let blocks = vec![block("Outbound", "HTTP", ""), block("Outbound", "LDAP", "")];
    assert_eq!(rule_set_slots(&blocks), [2, 1, 0, 0]);
}

#[test]
fn rule_set_ignores_unknown_tuples() {
    let blocks = vec![block("Sideways", "JNDI", "lookup"), block("Inbound", "SMTP", "request")];
    assert_eq!(rule_set_slots(&blocks), [0, 0, 0, 0]);
}

#[test]
fn header_offsets_of_baseline_request() {
    let pairs = vec![
        HeaderPair { name: "host".to_string(), value_len: 14 },
        HeaderPair { name: "user-agent".to_string(), value_len: 11 },
        HeaderPair { name: "accept".to_string(), value_len: 3 },
        HeaderPair { name: "x-api-version".to_string(), value_len: 7 },
    ];
    let key = "x-api-version".to_string();
    assert_eq!(header_offsets(&pairs, &key), (76, 91));
}

#[test]
fn header_offsets_without_match() {
    let pairs = vec![HeaderPair { name: "host".to_string(), value_len: 14 }];
    let key = "x-api-version".to_string();
    assert_eq!(header_offsets(&pairs, &key), (0, 0));
}

#[test]
fn headers_test() {
    get_default_header_offset();
    get_template_header_offset("payloadkey");
}

#[test]
fn default_header_offset_values() {
    assert_eq!(get_default_header_offset(), (76, 91));
}

#[test]
fn template_offset_is_case_insensitive() {
    let upper = get_template_header_offset("PAYLOADKEY");
    let lower = get_template_header_offset("payloadkey");
    assert_eq!(upper, lower);
    // a found header name always sits past the request line
    assert!(upper.0 >= 16);
}

#[test]
fn logger_payload_artifacts() {
    let (offsets, seq) = __config_logger_payload(None);
    assert_eq!(offsets.len(), 2);
    assert_eq!(offsets[0], 13);
    assert_eq!(offsets[1], 76);
    assert_eq!(seq, vec![88, 45, 65, 112, 105, 45, 86, 101, 114, 115, 105, 111, 110]);

    let (offsets, seq) = __config_logger_payload(Some("X-Request-Id"));
    assert_eq!(offsets[0], 12);
    assert_eq!(
        seq,
        vec![88, 45, 82, 101, 113, 117, 101, 115, 116, 45, 73, 100]
    );
}

#[test]
fn ldap_protocol_op_pools() {
    let b = LdapBindgs::new();
    assert_eq!(b.get_protocol_op_pool(), [97, 100, 101]);
    assert!(b.check_protocol_op_type(97));
    assert!(b.check_protocol_op_type(100));
    assert!(b.check_protocol_op_type(101));
    assert!(!b.check_protocol_op_type(96));
    assert!(!b.check_protocol_op_type(66));
    assert!(!b.check_protocol_op_type(0));
}
