//! The administrative routes: registration and availability, each
//! answering a structured status/data/message response. The transport that
//! carries these requests lives outside the library; the handlers here are
//! the decisions it delegates to.
use vstd::prelude::*;

use crate::server::{
    register_outcome, register_transition, spec_available, spec_secret, DynDnsServer,
    RegisterOutcome,
};

verus! {

/// The landing text of this surface.
pub fn index() -> (r: &'static str)
    ensures
        r@ == "This is the peach-dyndns server."@,
{
    "This is the peach-dyndns server."
}

/// A structured response: a status, an optional payload, and an optional
/// message.
pub struct JsonResponse {
    pub status: String,
    pub data: Option<String>,
    pub msg: Option<String>,
}

/// Builds a `JsonResponse` from its parts.
pub fn build_json_response(status: String, data: Option<String>, msg: Option<String>) -> (r:
    JsonResponse)
    ensures
        r.status == status,
        r.data == data,
        r.msg == msg,
{
    JsonResponse { status, data, msg }
}

/// Request body of the registration route.
#[derive(Debug)]
pub struct RegisterDomainPost {
    pub domain: String,
}

/// Request body of the availability route.
#[derive(Debug)]
pub struct CheckAvailableDomainPost {
    pub domain: String,
}

/// Handles a registration request: an invalid name and a taken domain are
/// refused with an error message; a committed registration answers
/// "success" and carries the credential text as its message — the one time
/// it is transmitted.
pub fn register_domain(
    server: &mut DynDnsServer,
    data: &RegisterDomainPost,
    minted_secret: Option<String>,
    initial_address: &str,
) -> (r: JsonResponse)
    requires
        old(server).wf(),
        old(server)@.zone.soa.serial < u32::MAX,
    ensures
        final(server).wf(),
        r.data is None,
        match register_outcome(old(server)@, data.domain@, spec_secret(minted_secret)) {
            RegisterOutcome::Registered => {
                &&& r.status@ == "success"@
                &&& minted_secret matches Some(s) && (r.msg matches Some(m) && m@ == s@)
                    && final(server)@ == register_transition(
                    old(server)@,
                    data.domain@,
                    s@,
                    initial_address@,
                )
            },
            RegisterOutcome::InvalidDomain => {
                &&& r.status@ == "error"@
                &&& r.msg matches Some(m) && m@ == "domain is not in a valid format"@
                &&& final(server)@ == old(server)@
            },
            RegisterOutcome::AlreadyExists => {
                &&& r.status@ == "error"@
                &&& r.msg matches Some(m) && m@
                    == "can't register a domain that is already registered"@
                &&& final(server)@ == old(server)@
            },
            RegisterOutcome::KeyGenerationFailed => {
                &&& r.status@ == "error"@
                &&& r.msg matches Some(m) && m@ == "there was an error creating the zone file"@
                &&& final(server)@ == old(server)@
            },
        },
{
    if !crate::generate_zone::validate_domain(
        data.domain.as_str(),
        server.dyn_root_zone().as_str(),
    ) {
        let status = String::from_str("error");
        let msg = String::from_str("domain is not in a valid format");
        return build_json_response(status, None, Some(msg));
    }
    if !server.check_domain_available(data.domain.as_str()) {
        let status = String::from_str("error");
        let msg = String::from_str("can't register a domain that is already registered");
        return build_json_response(status, None, Some(msg));
    }
    let result = crate::generate_zone::generate_zone(
        server,
        data.domain.as_str(),
        minted_secret,
        initial_address,
    );
    match result {
        Ok(key_file_text) => {
            let status = String::from_str("success");
            build_json_response(status, None, Some(key_file_text))
        },
        Err(_err) => {
            let status = String::from_str("error");
            let msg = String::from_str("there was an error creating the zone file");
            build_json_response(status, None, Some(msg))
        },
    }
}

/// Handles an availability request: an invalid name is refused with an
/// error message; otherwise the answer is "success" with the message
/// "true" exactly when the domain is still available.
pub fn check_available(server: &DynDnsServer, data: &CheckAvailableDomainPost) -> (r: JsonResponse)
    ensures
        r.data is None,
        if crate::generate_zone::valid_subdomain(data.domain@, server@.zone.parent) {
            &&& r.status@ == "success"@
            &&& r.msg matches Some(m) && m@ == (if spec_available(server@, data.domain@) {
                "true"@
            } else {
                "false"@
            })
        } else {
            &&& r.status@ == "error"@
            &&& r.msg matches Some(m) && m@ == "domain is not in a valid format"@
        },
{
    if !crate::generate_zone::validate_domain(
        data.domain.as_str(),
        server.dyn_root_zone().as_str(),
    ) {
        let status = String::from_str("error");
        let msg = String::from_str("domain is not in a valid format");
        return build_json_response(status, None, Some(msg));
    }
    let status = String::from_str("success");
    let is_available = crate::generate_zone::check_domain_available(server, data.domain.as_str());
    let msg = if is_available {
        String::from_str("true")
    } else {
        String::from_str("false")
    };
    build_json_response(status, None, Some(msg))
}

} // verus!
