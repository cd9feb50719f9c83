use llogin::store::CredStore;
use llogin::store::StoreError;

#[test]
fn store_then_lookup_round_trip() {
    let mut s = CredStore::new();
    let r = s.store("alice", "a1", "p1");
    assert!(r.is_ok());
    let c = s.lookup("alice").expect("stored profile must resolve");
    assert_eq!(c.username, "a1");
    assert_eq!(c.password, "p1");
}

#[test]
fn store_duplicate_reports_and_preserves() {
    let mut s = CredStore::new();
    s.store("alice", "a1", "p1").unwrap();
    let r = s.store("alice", "other", "other");
    assert!(matches!(r, Err(StoreError::AlreadyExists)));
    let c = s.lookup("alice").expect("first profile must survive");
    assert_eq!(c.username, "a1");
    assert_eq!(c.password, "p1");
}

#[test]
fn store_refuses_when_one_variable_is_taken() {
    let mut s = CredStore::new();
    assert!(s.add_var(String::from("LPU_USERNAME_bob"), String::from("b1")));
    let r = s.store("bob", "b2", "p2");
    assert!(matches!(r, Err(StoreError::AlreadyExists)));
    assert_eq!(s.get_var("LPU_USERNAME_bob").unwrap(), "b1");
}

#[test]
fn export_lines_have_exact_shape() {
    let mut s = CredStore::new();
    let lines = s.store("alice", "a1", "p1").unwrap();
    assert_eq!(lines.username_line, "export LPU_USERNAME_alice=\"a1\"");
    assert_eq!(lines.password_line, "export LPU_PASSWORD_alice=\"p1\"");
}

#[test]
fn lookup_needs_both_variables_non_empty() {
    let mut s = CredStore::new();
    assert!(s.add_var(String::from("LPU_USERNAME_carol"), String::from("c1")));
    assert!(s.lookup("carol").is_none());
    assert!(s.add_var(String::from("LPU_PASSWORD_carol"), String::new()));
    assert!(s.lookup("carol").is_none());
    let mut t = CredStore::new();
    t.store("dave", "d1", "pw").unwrap();
    assert!(t.lookup("dave").is_some());
}

#[test]
fn lookup_missing_identifier_is_none() {
    let s = CredStore::new();
    assert!(s.lookup("nobody").is_none());
}

#[test]
fn add_var_refuses_existing_name() {
    let mut s = CredStore::new();
    assert!(s.add_var(String::from("LPU_USERNAME_e"), String::from("one")));
    assert!(!s.add_var(String::from("LPU_USERNAME_e"), String::from("two")));
    assert_eq!(s.get_var("LPU_USERNAME_e").unwrap(), "one");
}

#[test]
fn list_identifiers_is_exact_and_duplicate_free() {
    let mut s = CredStore::new();
    s.store("alice", "a1", "p1").unwrap();
    assert!(s.add_var(String::from("LPU_USERNAME_bob"), String::from("b1")));
    s.store("carol", "c1", "p3").unwrap();
    assert!(s.add_var(String::from("UNRELATED"), String::from("x")));
    let ids = s.list_identifiers();
    assert_eq!(ids.len(), 2);
    assert!(ids.iter().any(|i| i == "alice"));
    assert!(ids.iter().any(|i| i == "carol"));
    assert!(!ids.iter().any(|i| i == "bob"));
    for a in 0..ids.len() {
        for b in (a + 1)..ids.len() {
            assert_ne!(ids[a], ids[b]);
        }
    }
}

#[test]
fn list_identifiers_empty_store() {
    let s = CredStore::new();
    assert!(s.list_identifiers().is_empty());
}

#[test]
fn alice_scenario() {
    let mut s = CredStore::new();
    s.store("alice", "a1", "p1").unwrap();
    let c = s.lookup("alice").unwrap();
    assert_eq!((c.username.as_str(), c.password.as_str()), ("a1", "p1"));
    let again = s.store("alice", "a9", "p9");
    assert!(matches!(again, Err(StoreError::AlreadyExists)));
    let c2 = s.lookup("alice").unwrap();
    assert_eq!((c2.username.as_str(), c2.password.as_str()), ("a1", "p1"));
}
