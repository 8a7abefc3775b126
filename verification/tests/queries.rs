//! Tests of the query path: answers, no-data and non-existence, and the
//! start-of-authority record.
use peach_dyndns_server::dns::{DnsManager, QueryResponse, RecordType};
use peach_dyndns_server::server::DynDnsServer;

fn fresh_server() -> DynDnsServer {
    DynDnsServer::new(String::from("zone.test")).expect("valid parent zone")
}

#[test]
fn unknown_name_is_nxdomain() {
    let server = fresh_server();
    assert!(matches!(server.query("ghost.zone.test", RecordType::A), QueryResponse::NxDomain));
    assert!(matches!(server.query("ghost.zone.test", RecordType::SOA), QueryResponse::NxDomain));
}

#[test]
fn apex_a_query_is_nodata_not_nxdomain() {
    let server = fresh_server();
    // the apex exists (it has the SOA), so an A query is a no-data answer
    assert!(matches!(server.query("zone.test", RecordType::A), QueryResponse::NoData));
}

#[test]
fn apex_soa_query_returns_serial() {
    let mut server = fresh_server();
    match server.query("zone.test", RecordType::SOA) {
        QueryResponse::SoaAnswer(soa) => {
            assert_eq!(soa.serial, 1);
            assert_eq!(soa.primary_name, "zone.test");
            assert_eq!(soa.responsible_party, "root.zone.test");
        }
        _ => panic!("expected a SOA answer at the apex"),
    }
    server
        .register_domain("alpha.zone.test", Some(String::from("k")), "10.0.0.1")
        .expect("registration succeeds");
    match server.query("ZONE.TEST", RecordType::SOA) {
        QueryResponse::SoaAnswer(soa) => assert_eq!(soa.serial, 2),
        _ => panic!("expected a SOA answer at the apex"),
    }
}

#[test]
fn registered_name_soa_query_is_nodata() {
    let mut server = fresh_server();
    server
        .register_domain("alpha.zone.test", Some(String::from("k")), "10.0.0.1")
        .expect("registration succeeds");
    // the name exists, but it holds no record of the asked type
    assert!(matches!(server.query("alpha.zone.test", RecordType::SOA), QueryResponse::NoData));
}

#[test]
fn answer_carries_ttl_and_spelling() {
    let mut server = fresh_server();
    server
        .register_domain("Alpha.zone.test", Some(String::from("k")), "10.0.0.1")
        .expect("registration succeeds");
    match server.query("alpha.ZONE.test", RecordType::A) {
        QueryResponse::Answer(rec) => {
            assert_eq!(rec.owner_name, "Alpha.zone.test");
            assert_eq!(rec.address, "10.0.0.1");
            assert_eq!(rec.ttl, 60);
        }
        _ => panic!("expected an address answer"),
    }
}

#[test]
fn zone_authority_upsert_replaces_and_increments() {
    let mut zone = DnsManager::new(String::from("zone.test")).expect("valid parent zone");
    assert_eq!(zone.serial(), 1);
    let s1 = zone.upsert_domain("a.zone.test", "1.1.1.1");
    assert_eq!(s1, 2);
    let s2 = zone.upsert_domain("b.zone.test", "1.1.1.2");
    assert_eq!(s2, 3);
    // replacing the same owner is an upsert, not an append
    let s3 = zone.upsert_domain("A.ZONE.TEST", "1.1.1.3");
    assert_eq!(s3, 4);
    let rec = zone.lookup("a.zone.test").expect("record found");
    assert_eq!(rec.address, "1.1.1.3");
    assert_eq!(rec.owner_name, "A.ZONE.TEST");
    let other = zone.lookup("b.zone.test").expect("record found");
    assert_eq!(other.address, "1.1.1.2");
}

#[test]
fn zone_authority_soa_timers() {
    let zone = DnsManager::new(String::from("zone.test")).expect("valid parent zone");
    let soa = zone.soa();
    assert_eq!(soa.refresh, 604800);
    assert_eq!(soa.retry, 86400);
    assert_eq!(soa.expire, 2419200);
    assert_eq!(soa.negative_ttl, 86400);
}

#[test]
fn zone_authority_remove_domain() {
    let mut zone = DnsManager::new(String::from("zone.test")).expect("valid parent zone");
    zone.upsert_domain("a.zone.test", "1.1.1.1");
    let serial_before = zone.serial();
    assert!(zone.remove_domain("A.zone.test"));
    assert!(zone.lookup("a.zone.test").is_none());
    assert!(zone.serial() > serial_before);
    assert!(!zone.remove_domain("a.zone.test"));
}
