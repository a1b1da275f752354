use fun_together::registry::Registry;

#[test]
fn reserve_rejects_duplicate_code() {
    let mut reg = Registry::new();
    assert!(reg.reserve("ABCD".to_string(), "One".to_string(), 1));
    assert!(!reg.reserve("ABCD".to_string(), "Two".to_string(), 2));
    assert_eq!(reg.room_name(&"ABCD".to_string()), Some("One".to_string()));
    assert_eq!(reg.lookup_handle(&"ABCD".to_string()), Some(1));
}

#[test]
fn distinct_codes_coexist() {
    let mut reg = Registry::new();
    assert!(reg.reserve("AAAA".to_string(), "One".to_string(), 1));
    assert!(reg.reserve("BBBB".to_string(), "Two".to_string(), 2));
    assert_eq!(reg.lookup_handle(&"AAAA".to_string()), Some(1));
    assert_eq!(reg.lookup_handle(&"BBBB".to_string()), Some(2));
}

#[test]
fn lookup_of_unknown_code_fails() {
    let reg = Registry::new();
    assert_eq!(reg.lookup_handle(&"ZZZZ".to_string()), None);
    assert_eq!(reg.room_name(&"ZZZZ".to_string()), None);
}

#[test]
fn remove_is_idempotent_and_scoped() {
    let mut reg = Registry::new();
    reg.reserve("AAAA".to_string(), "One".to_string(), 1);
    reg.reserve("BBBB".to_string(), "Two".to_string(), 2);
    reg.remove(&"AAAA".to_string());
    assert_eq!(reg.lookup_handle(&"AAAA".to_string()), None);
    assert_eq!(reg.lookup_handle(&"BBBB".to_string()), Some(2));
    reg.remove(&"AAAA".to_string());
    assert_eq!(reg.lookup_handle(&"BBBB".to_string()), Some(2));
}

#[test]
fn code_can_be_reused_after_removal() {
    let mut reg = Registry::new();
    assert!(reg.reserve("ABCD".to_string(), "One".to_string(), 1));
    reg.remove(&"ABCD".to_string());
    assert!(reg.reserve("ABCD".to_string(), "Two".to_string(), 2));
    assert_eq!(reg.room_name(&"ABCD".to_string()), Some("Two".to_string()));
}

#[test]
fn contains_tracks_reservations() {
    let mut reg = Registry::new();
    assert!(!reg.contains(&"ABCD".to_string()));
    reg.reserve("ABCD".to_string(), "One".to_string(), 1);
    assert!(reg.contains(&"ABCD".to_string()));
}
