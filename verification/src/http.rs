//! The early administrative HTTP surface: a landing page and a
//! registration handler answering with fixed phrases. The transport that
//! carries these requests lives outside the library; the handlers here are
//! the decisions it delegates to.
use vstd::prelude::*;

use crate::server::{
    register_outcome, register_transition, spec_available, spec_secret, DynDnsServer,
    RegisterOutcome,
};

verus! {

/// The landing text of this surface.
pub fn index() -> (r: &'static str)
    ensures
        r@ == "This is the peach-dyn-dns server."@,
{
    "This is the peach-dyn-dns server."
}

/// Request body of the registration call.
#[derive(Debug)]
pub struct RegisterDomainPost {
    pub domain: String,
}

/// Handles a registration request: a taken domain is refused, otherwise
/// the provisioning workflow runs; the answer is one of three fixed
/// phrases, and only a committed registration changes the state.
pub fn register_domain(
    server: &mut DynDnsServer,
    data: &RegisterDomainPost,
    minted_secret: Option<String>,
    initial_address: &str,
) -> (r: &'static str)
    requires
        old(server).wf(),
        old(server)@.zone.soa.serial < u32::MAX,
    ensures
        final(server).wf(),
        if !spec_available(old(server)@, data.domain@) {
            r@ == "can't register domain that already exists"@ && final(server)@ == old(server)@
        } else {
            match register_outcome(old(server)@, data.domain@, spec_secret(minted_secret)) {
                RegisterOutcome::Registered => r@ == "successfully created zone"@ && (minted_secret
                    matches Some(s) && final(server)@ == register_transition(
                    old(server)@,
                    data.domain@,
                    s@,
                    initial_address@,
                )),
                _ => r@ == "there was an error registering the domain"@ && final(server)@ == old(
                    server,
                )@,
            }
        },
{
    if !server.check_domain_available(data.domain.as_str()) {
        return "can't register domain that already exists";
    }
    let result = crate::generate_zone::generate_zone(
        server,
        data.domain.as_str(),
        minted_secret,
        initial_address,
    );
    match result {
        Ok(_key_file_text) => "successfully created zone",
        Err(_err) => "there was an error registering the domain",
    }
}

} // verus!
