use elogj::state::{StateMap, TrfState};

#[test]
fn fresh_state_is_empty() {
    let st = TrfState::new();
    assert_eq!(st.rtx.len(), 0);
    assert_eq!(st.whlist.len(), 0);
    assert_eq!(st.blocklist.len(), 0);
    assert_eq!(st.lookups.len(), 0);
}

#[test]
fn reattach_leaves_no_residual_state() {
    let mut st = TrfState::new();
    st.update_RTX(1);
    st.block_addr(2);
    st.update_LOOKUPS(3, true);
    // a re-attach re-creates the maps: nothing survives into the new state
    let st = TrfState::new();
    assert_eq!(st.rtx.len(), 0);
    assert_eq!(st.blocklist.len(), 0);
    assert_eq!(st.lookups.len(), 0);
}

#[test]
fn rtx_counts_grow() {
    let mut st = TrfState::new();
    assert_eq!(st.update_RTX(7), Some(1));
    assert_eq!(st.update_RTX(7), Some(2));
    assert_eq!(st.update_RTX(7), Some(3));
    assert_eq!(st.update_RTX(9), Some(1));
    assert_eq!(st.rtx.get(7), Some(3));
}

#[test]
fn rtx_count_wraps_at_top() {
    let mut st = TrfState::new();
    let mut m = StateMap::new(4);
    m.insert(7, u32::MAX);
    st.rtx = m;
    assert_eq!(st.update_RTX(7), Some(0));
}

#[test]
fn lookups_round_trip_restores_existing_entry() {
    let mut st = TrfState::new();
    st.update_LOOKUPS(5, true);
    assert_eq!(st.lookups.get(5), Some(1));
    // an existing entry survives an arm/drain pair unchanged
    assert_eq!(st.update_LOOKUPS(5, true), Some(2));
    assert_eq!(st.update_LOOKUPS(5, false), Some(1));
    assert_eq!(st.lookups.get(5), Some(1));
}

#[test]
fn lookups_pair_on_absent_entry_leaves_zero() {
    let mut st = TrfState::new();
    // a fresh entry is seeded at 1, then drained to 0, not removed
    assert_eq!(st.update_LOOKUPS(5, true), Some(1));
    assert_eq!(st.update_LOOKUPS(5, false), Some(0));
    assert_eq!(st.lookups.get(5), Some(0));
    st.remove_lookup(5);
    assert_eq!(st.lookups.get(5), None);
}

#[test]
fn lookups_drain_of_absent_entry_seeds_it() {
    let mut st = TrfState::new();
    assert_eq!(st.update_LOOKUPS(5, false), Some(1));
    assert_eq!(st.lookups.get(5), Some(1));
}

#[test]
fn insert_over_capacity_is_silent() {
    let mut m = StateMap::new(2);
    assert!(m.insert(1, 10));
    assert!(m.insert(2, 20));
    assert!(!m.insert(3, 30));
    assert_eq!(m.len(), 2);
    assert_eq!(m.get(3), None);
    // an existing key is still updated when the table is full
    assert!(m.insert(1, 11));
    assert_eq!(m.get(1), Some(11));
}

#[test]
fn full_rtx_table_returns_none_for_new_address() {
    let mut st = TrfState::new();
    let mut m = StateMap::new(1);
    m.insert(1, 5);
    st.rtx = m;
    assert_eq!(st.update_RTX(2), None);
    assert_eq!(st.update_RTX(1), Some(6));
}

#[test]
fn remove_deletes_entry() {
    let mut m = StateMap::new(4);
    m.insert(1, 10);
    m.insert(2, 20);
    m.remove(1);
    assert_eq!(m.get(1), None);
    assert_eq!(m.get(2), Some(20));
    assert_eq!(m.len(), 1);
}

#[test]
fn block_and_whitelist_membership() {
    let mut st = TrfState::new();
    assert!(!st.is_blocked(8));
    st.block_addr(8);
    assert!(st.is_blocked(8));
    assert!(!st.is_verified(8));
    st.whitelist_addr(8);
    assert!(st.is_verified(8));
}
