//! Tests of the administrative handlers, the error discriminants and the
//! daemon configuration text.
use peach_dyndns_server::errors::PeachDynDnsError;
use peach_dyndns_server::generate_zone::zone_section_text;
use peach_dyndns_server::http;
use peach_dyndns_server::routes;
use peach_dyndns_server::server::DynDnsServer;
use peach_dyndns_server::utils::{names_eq_ci, secrets_match, PeachDynError};

fn fresh_server() -> DynDnsServer {
    DynDnsServer::new(String::from("zone.test")).expect("valid parent zone")
}

#[test]
fn index_pages() {
    assert_eq!(routes::index(), "This is the peach-dyndns server.");
    assert_eq!(http::index(), "This is the peach-dyn-dns server.");
}

#[test]
fn ping_answers_success() {
    assert_eq!(peach_dyndns_server::ping(), "success");
}

#[test]
fn routes_register_domain_success_carries_key_text() {
    let mut server = fresh_server();
    let data = routes::RegisterDomainPost { domain: String::from("alpha.zone.test") };
    let r = routes::register_domain(&mut server, &data, Some(String::from("key text")), "10.0.0.1");
    assert_eq!(r.status, "success");
    assert_eq!(r.msg.as_deref(), Some("key text"));
    assert!(r.data.is_none());
}

#[test]
fn routes_register_domain_invalid_format() {
    let mut server = fresh_server();
    let data = routes::RegisterDomainPost { domain: String::from("bad_name.zone.test") };
    let r = routes::register_domain(&mut server, &data, Some(String::from("k")), "10.0.0.1");
    assert_eq!(r.status, "error");
    assert_eq!(r.msg.as_deref(), Some("domain is not in a valid format"));
}

#[test]
fn routes_register_domain_already_registered() {
    let mut server = fresh_server();
    let data = routes::RegisterDomainPost { domain: String::from("alpha.zone.test") };
    routes::register_domain(&mut server, &data, Some(String::from("k1")), "10.0.0.1");
    let r = routes::register_domain(&mut server, &data, Some(String::from("k2")), "10.0.0.2");
    assert_eq!(r.status, "error");
    assert_eq!(r.msg.as_deref(), Some("can't register a domain that is already registered"));
}

#[test]
fn routes_register_domain_keygen_failure() {
    let mut server = fresh_server();
    let data = routes::RegisterDomainPost { domain: String::from("alpha.zone.test") };
    let r = routes::register_domain(&mut server, &data, None, "10.0.0.1");
    assert_eq!(r.status, "error");
    assert_eq!(r.msg.as_deref(), Some("there was an error creating the zone file"));
}

#[test]
fn routes_check_available_flips() {
    let mut server = fresh_server();
    let data = routes::CheckAvailableDomainPost { domain: String::from("alpha.zone.test") };
    let r = routes::check_available(&server, &data);
    assert_eq!(r.status, "success");
    assert_eq!(r.msg.as_deref(), Some("true"));
    let post = routes::RegisterDomainPost { domain: String::from("alpha.zone.test") };
    routes::register_domain(&mut server, &post, Some(String::from("k")), "10.0.0.1");
    let r = routes::check_available(&server, &data);
    assert_eq!(r.status, "success");
    assert_eq!(r.msg.as_deref(), Some("false"));
}

#[test]
fn routes_check_available_invalid_format() {
    let server = fresh_server();
    let data = routes::CheckAvailableDomainPost { domain: String::from("..zone.test") };
    let r = routes::check_available(&server, &data);
    assert_eq!(r.status, "error");
    assert_eq!(r.msg.as_deref(), Some("domain is not in a valid format"));
}

#[test]
fn routes_build_json_response_passes_parts_through() {
    let r = routes::build_json_response(
        String::from("success"),
        Some(String::from("payload")),
        None,
    );
    assert_eq!(r.status, "success");
    assert_eq!(r.data.as_deref(), Some("payload"));
    assert!(r.msg.is_none());
}

#[test]
fn http_register_domain_phrases() {
    let mut server = fresh_server();
    let data = http::RegisterDomainPost { domain: String::from("alpha.zone.test") };
    let ok = http::register_domain(&mut server, &data, Some(String::from("k")), "10.0.0.1");
    assert_eq!(ok, "successfully created zone");
    let again = http::register_domain(&mut server, &data, Some(String::from("k2")), "10.0.0.2");
    assert_eq!(again, "can't register domain that already exists");
    let bad = http::RegisterDomainPost { domain: String::from("bad_name.zone.test") };
    let err = http::register_domain(&mut server, &bad, Some(String::from("k")), "10.0.0.1");
    assert_eq!(err, "there was an error registering the domain");
}

#[test]
fn error_discriminants_are_stable() {
    assert_eq!(
        PeachDynDnsError::InvalidDomain { domain: String::from("d") }.rpc_error_code(),
        -32028
    );
    assert_eq!(PeachDynDnsError::BindConfigurationError.rpc_error_code(), -32029);
    assert_eq!(
        PeachDynDnsError::DomainAlreadyExistsError { domain: String::from("d") }.rpc_error_code(),
        -32030
    );
    assert_eq!(PeachDynDnsError::KeyFileParseError.rpc_error_code(), -32031);
    assert_eq!(PeachDynDnsError::KeyGenerationError.rpc_error_code(), -32032);
    assert_eq!(
        PeachDynDnsError::ConfigurationError { domain: String::from("d") }.rpc_error_code(),
        -32033
    );
    assert_eq!(PeachDynDnsError::NotFound { domain: String::from("d") }.rpc_error_code(), -32034);
    assert_eq!(
        PeachDynDnsError::SecretMismatch { domain: String::from("d") }.rpc_error_code(),
        -32035
    );
    assert_eq!(PeachDynDnsError::StoreError { domain: String::from("d") }.rpc_error_code(), -32036);
    assert_eq!(
        PeachDynDnsError::MissingParams { e: String::from("x") }.rpc_error_code(),
        -32602
    );
}

#[test]
fn error_messages_carry_the_domain() {
    let e = PeachDynDnsError::DomainAlreadyExistsError { domain: String::from("a.zone.test") };
    assert_eq!(e.rpc_error_message(), "Can't register domain that already exists: a.zone.test");
    assert_eq!(e.domain().map(|d| d.as_str()), Some("a.zone.test"));
    let e = PeachDynDnsError::InvalidDomain { domain: String::from("x") };
    assert_eq!(e.rpc_error_message(), "Domain is invalid format: x");
    let e = PeachDynDnsError::KeyGenerationError;
    assert_eq!(e.rpc_error_message(), "Key generation error");
    assert!(e.domain().is_none());
}

#[test]
fn zone_section_text_renders_the_stanza() {
    let text = zone_section_text("blue.zone.test");
    let expected = "zone \"blue.zone.test\" {\n            type master;\n            file \"/var/lib/bind/blue.zone.test\";\n            update-policy {\n\t            grant blue.zone.test self blue.zone.test;\n            };\n        };\n    ";
    assert_eq!(text, expected);
}

#[test]
fn case_insensitive_name_comparison() {
    assert!(names_eq_ci("Alpha.Zone.Test", "alpha.zone.test"));
    assert!(!names_eq_ci("alpha.zone.test", "beta.zone.test"));
    assert!(!names_eq_ci("alpha.zone.test", "alpha.zone.tes"));
}

#[test]
fn secret_comparison_is_exact() {
    assert!(secrets_match("abc", "abc"));
    assert!(!secrets_match("Abc", "abc"));
    assert!(!secrets_match("abc", "abcd"));
    assert!(!secrets_match("", "a"));
    assert!(secrets_match("", ""));
}

#[test]
fn request_bodies_carry_the_domain() {
    let mut server = fresh_server();
    let register = peach_dyndns_server::RegisterDomainPost {
        domain: String::from("alpha.zone.test"),
    };
    let probe = peach_dyndns_server::IsDomainAvailablePost {
        domain: String::from("alpha.zone.test"),
    };
    assert!(matches!(server.is_domain_available(&probe.domain), Ok(true)));
    server
        .register_domain(&register.domain, Some(String::from("k")), "10.0.0.1")
        .expect("registration succeeds");
    assert!(matches!(server.is_domain_available(&probe.domain), Ok(false)));
}

#[test]
fn tsig_helper_error_kinds_exist() {
    let io = PeachDynError::GenerateTsigIoError(String::from("spawn failed"));
    let parse = PeachDynError::GenerateTsigParseError(String::from("not utf-8"));
    assert!(matches!(io, PeachDynError::GenerateTsigIoError(_)));
    assert!(matches!(parse, PeachDynError::GenerateTsigParseError(_)));
}
