//! Dynamic-DNS zone service: an authoritative zone for one parent domain,
//! with secret-gated address updates for provisioned subdomains.
//!
//! The service is built from a zone authority (the in-memory record sets and
//! the zone serial), a record store (the durable registrations, each holding
//! the domain, its secret and its address), a provisioning workflow that
//! mints a credential and registers a subdomain into both, and an update
//! gate that authenticates address changes against the stored secret.
use vstd::prelude::*;

pub mod dns;
pub mod errors;
pub mod generate_zone;
pub mod http;
pub mod keyed;
pub mod record_store;
pub mod routes;
pub mod server;
pub mod utils;

verus! {

/// The liveness probe of the administrative surface.
pub fn ping() -> (r: &'static str)
    ensures
        r@ == "success"@,
{
    "success"
}

/// Request body of the administrative call that registers a domain.
#[derive(Debug)]
pub struct RegisterDomainPost {
    pub domain: String,
}

/// Request body of the administrative call that asks whether a domain is free.
#[derive(Debug)]
pub struct IsDomainAvailablePost {
    pub domain: String,
}

} // verus!
