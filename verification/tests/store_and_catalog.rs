//! Tests of the record store and of startup reconciliation.
use peach_dyndns_server::dns::{QueryResponse, RecordType};
use peach_dyndns_server::errors::PeachDynDnsError;
use peach_dyndns_server::record_store::{DomainRegistration, RecordStore};
use peach_dyndns_server::server::DynDnsServer;

fn reg(domain: &str, secret: &str, address: &str) -> DomainRegistration {
    DomainRegistration {
        domain: String::from(domain),
        secret: String::from(secret),
        address: String::from(address),
    }
}

#[test]
fn store_get_and_contains() {
    let mut store = RecordStore::new();
    assert!(!store.contains_domain("a.zone.test"));
    store.insert_new(reg("a.zone.test", "s", "1.1.1.1"));
    assert!(store.contains_domain("a.zone.test"));
    assert!(store.contains_domain("A.ZONE.TEST"));
    let row = store.get("a.zone.test").expect("row found");
    assert_eq!(row.secret, "s");
    assert_eq!(row.address, "1.1.1.1");
    assert!(store.get("b.zone.test").is_none());
}

#[test]
fn store_set_address_keeps_secret_and_spelling() {
    let mut store = RecordStore::new();
    store.insert_new(reg("Alpha.zone.test", "s", "1.1.1.1"));
    assert!(store.set_address("alpha.ZONE.test", "2.2.2.2"));
    let row = store.get("alpha.zone.test").expect("row found");
    assert_eq!(row.domain, "Alpha.zone.test");
    assert_eq!(row.secret, "s");
    assert_eq!(row.address, "2.2.2.2");
    assert!(!store.set_address("ghost.zone.test", "3.3.3.3"));
}

#[test]
fn store_remove_domain() {
    let mut store = RecordStore::new();
    store.insert_new(reg("a.zone.test", "s", "1.1.1.1"));
    assert!(store.remove_domain("a.zone.test"));
    assert!(!store.contains_domain("a.zone.test"));
    assert!(!store.remove_domain("a.zone.test"));
}

#[test]
fn build_catalog_replays_registrations() {
    let mut store = RecordStore::new();
    store.insert_new(reg("a.zone.test", "sa", "1.1.1.1"));
    store.insert_new(reg("b.zone.test", "sb", "1.1.1.2"));
    let server = DynDnsServer::build_catalog("zone.test", store).expect("rebuild succeeds");
    assert_eq!(server.serial(), 3);
    match server.query("a.zone.test", RecordType::A) {
        QueryResponse::Answer(rec) => assert_eq!(rec.address, "1.1.1.1"),
        _ => panic!("expected an address answer"),
    }
    match server.query("b.zone.test", RecordType::A) {
        QueryResponse::Answer(rec) => assert_eq!(rec.address, "1.1.1.2"),
        _ => panic!("expected an address answer"),
    }
    // the rebuilt service still authenticates against the stored secrets
    let mut server = server;
    assert!(server.update("a.zone.test", "sa", "9.9.9.9").is_ok());
    assert!(matches!(
        server.update("b.zone.test", "sa", "9.9.9.9"),
        Err(PeachDynDnsError::SecretMismatch { .. })
    ));
}

#[test]
fn build_catalog_rejects_invalid_parent() {
    let store = RecordStore::new();
    match DynDnsServer::build_catalog("bad..zone", store) {
        Err(PeachDynDnsError::ConfigurationError { domain }) => assert_eq!(domain, "bad..zone"),
        other => panic!("expected ConfigurationError, got {:?}", other.map(|_| ())),
    }
}

#[test]
fn build_catalog_rejects_row_outside_parent() {
    let mut store = RecordStore::new();
    store.insert_new(reg("a.zone.test", "sa", "1.1.1.1"));
    store.insert_new(reg("stray.other.test", "sb", "1.1.1.2"));
    match DynDnsServer::build_catalog("zone.test", store) {
        Err(PeachDynDnsError::InvalidDomain { domain }) => assert_eq!(domain, "stray.other.test"),
        other => panic!("expected InvalidDomain, got {:?}", other.map(|_| ())),
    }
}
