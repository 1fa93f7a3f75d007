use up_client_zenoh::correlation::CorrelationTable;
use up_client_zenoh::error::ErrorCode;
use up_client_zenoh::registry::ListenerRegistry;

#[test]
fn two_registrations_on_one_key_are_independent() {
    let mut registry: ListenerRegistry<&str> = ListenerRegistry::new();
    let key = "upl/0100162e04d20100";
    let t1 = registry.register(key, "first").unwrap();
    let t2 = registry.register(key, "second").unwrap();
    assert_ne!(t1, t2);
    assert_eq!(t1, "upl/0100162e04d20100_0000000000000000");
    assert_eq!(t2, "upl/0100162e04d20100_0000000000000001");
    assert_eq!(registry.unregister(&t1).unwrap(), "first");
    assert_eq!(registry.get(&t2), Some(&"second"));
    assert_eq!(registry.get(&t1), None);
    assert_eq!(registry.len(), 1);
}

#[test]
fn unregistering_unknown_token_is_not_found() {
    let mut registry: ListenerRegistry<u32> = ListenerRegistry::new();
    let t = registry.register("upl/00", 7).unwrap();
    assert_eq!(registry.unregister("upl/00_0000000000000005").unwrap_err().code, ErrorCode::NotFound);
    assert_eq!(registry.unregister(&t).unwrap(), 7);
    assert_eq!(registry.unregister(&t).unwrap_err().code, ErrorCode::NotFound);
}

#[test]
fn pending_entry_is_used_once() {
    let mut table: CorrelationTable<u32> = CorrelationTable::new();
    let reqid = String::from("req-1");
    table.insert(reqid.clone(), 11);
    assert!(table.contains(&reqid));
    assert_eq!(table.take(&reqid).unwrap(), 11);
    assert!(!table.contains(&reqid));
    assert_eq!(table.take(&reqid).unwrap_err().code, ErrorCode::NotFound);
}

#[test]
fn inserting_again_replaces_the_entry() {
    let mut table: CorrelationTable<u32> = CorrelationTable::new();
    table.insert(String::from("a"), 1);
    table.insert(String::from("b"), 2);
    table.insert(String::from("a"), 3);
    assert_eq!(table.take(&String::from("a")).unwrap(), 3);
    assert_eq!(table.take(&String::from("b")).unwrap(), 2);
}
