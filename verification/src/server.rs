//! The dynamic-DNS service: one zone authority and one record store moving
//! together. Provisioning registers a domain into both atomically; the
//! update gate authenticates against the stored secret before touching
//! either; queries are answered from the zone authority alone.
//!
//! Mutations to the shared state are serialized by `&mut` ownership: callers
//! hand the service exclusive access for the duration of one operation, so
//! per-domain operations are linearized and the serial is incremented inside
//! that critical section, never repeating across concurrent callers.
use vstd::prelude::*;

use crate::dns::{
    spec_query, zone_inv, zone_remove, zone_upsert, AddressRecord, DnsManager, QueryResponse,
    QueryView, RecordType, RecordView, ZoneView, ADDRESS_TTL,
};
use crate::errors::PeachDynDnsError;
use crate::generate_zone::{valid_subdomain, validate_domain};
use crate::keyed::Keyed;
use crate::record_store::{store_inv, DomainRegistration, RecordStore, RegistrationView};
use crate::utils::{lower, secrets_match};

verus! {

/// Mathematical form of the whole service.
pub struct ServerView {
    pub zone: ZoneView,
    pub store: Map<Seq<char>, RegistrationView>,
}

/// The relationship invariant: the zone authority and the record store hold
/// exactly the same domains, and for each domain the same spelling and the
/// same address; every zone record carries the fixed address time-to-live.
pub open spec fn server_inv(s: ServerView) -> bool {
    &&& zone_inv(s.zone)
    &&& store_inv(s.store)
    &&& forall|k: Seq<char>| s.store.contains_key(k) <==> s.zone.records.contains_key(k)
    &&& forall|k: Seq<char>| #[trigger] s.store.contains_key(k) ==> {
        &&& s.zone.records[k].owner == s.store[k].domain
        &&& s.zone.records[k].address == s.store[k].address
        &&& s.zone.records[k].ttl == ADDRESS_TTL
    }
}

/// A domain is available when the record store has no registration for it.
pub open spec fn spec_available(s: ServerView, domain: Seq<char>) -> bool {
    !s.store.contains_key(lower(domain))
}

/// How a provisioning request ends.
pub enum RegisterOutcome {
    Registered,
    InvalidDomain,
    AlreadyExists,
    KeyGenerationFailed,
}

/// The terminal state of the provisioning workflow: the name is validated,
/// then availability is checked, then the minted credential is required;
/// the first failure is the outcome.
pub open spec fn register_outcome(
    pre: ServerView,
    domain: Seq<char>,
    minted: Option<Seq<char>>,
) -> RegisterOutcome {
    if !valid_subdomain(domain, pre.zone.parent) {
        RegisterOutcome::InvalidDomain
    } else if pre.store.contains_key(lower(domain)) {
        RegisterOutcome::AlreadyExists
    } else if minted is None {
        RegisterOutcome::KeyGenerationFailed
    } else {
        RegisterOutcome::Registered
    }
}

/// The state after a successful registration: both stores gain the domain,
/// with the same spelling and address, and the serial increments.
pub open spec fn register_transition(
    pre: ServerView,
    domain: Seq<char>,
    secret: Seq<char>,
    address: Seq<char>,
) -> ServerView {
    ServerView {
        zone: zone_upsert(pre.zone, domain, address),
        store: pre.store.insert(
            lower(domain),
            RegistrationView { domain: domain, secret: secret, address: address },
        ),
    }
}

/// How an update request ends.
pub enum UpdateOutcome {
    Updated,
    NotFound,
    SecretMismatch,
}

/// The update gate's decision: unknown domains are refused before the
/// secret is examined; a wrong secret is refused without touching state.
pub open spec fn update_outcome(
    pre: ServerView,
    domain: Seq<char>,
    secret: Seq<char>,
) -> UpdateOutcome {
    if !pre.store.contains_key(lower(domain)) {
        UpdateOutcome::NotFound
    } else if pre.store[lower(domain)].secret != secret {
        UpdateOutcome::SecretMismatch
    } else {
        UpdateOutcome::Updated
    }
}

/// The state after an accepted update: both stores carry the new address
/// under the stored spelling of the domain, and the serial increments.
pub open spec fn update_transition(pre: ServerView, key: Seq<char>, address: Seq<char>) -> ServerView {
    let stored = pre.store[key];
    ServerView {
        zone: zone_upsert(pre.zone, stored.domain, address),
        store: pre.store.insert(
            key,
            RegistrationView { domain: stored.domain, secret: stored.secret, address: address },
        ),
    }
}

/// The state after a compensating removal: both stores forget the domain,
/// and the serial increments for the zone mutation.
pub open spec fn rollback_transition(pre: ServerView, domain: Seq<char>) -> ServerView {
    ServerView {
        zone: zone_remove(pre.zone, pre.store[lower(domain)].domain),
        store: pre.store.remove(lower(domain)),
    }
}

/// The answer of an accepted update: the domain in its registered spelling
/// and the address now served.
pub struct UpdateAck {
    pub domain: String,
    pub address: String,
}

/// The dynamic-DNS service.
pub struct DynDnsServer {
    zone: DnsManager,
    store: RecordStore,
}

impl View for DynDnsServer {
    type V = ServerView;

    closed spec fn view(&self) -> ServerView {
        ServerView { zone: self.zone@, store: self.store@ }
    }
}

impl DynDnsServer {
    /// The representation invariant of the service.
    pub closed spec fn wf(&self) -> bool {
        &&& self.zone.wf()
        &&& self.store.wf()
        &&& server_inv(self@)
    }

    /// Law: in every reachable service state the record store and the zone
    /// authority hold exactly the same domains and, for each, the same
    /// spelling and address — so once a mutation completes, subsequent DNS
    /// queries see what the store holds (read-after-write consistency), or
    /// the operation was reported as failed and neither moved.
    pub proof fn lemma_wf_inv(&self)
        requires
            self.wf(),
        ensures
            server_inv(self@),
    {
    }

    /// Builds the service for a parent zone: a fresh zone authority at
    /// serial 1 and an empty record store. Rejects a parent name that is
    /// not a valid FQDN.
    pub fn new(dyn_root_zone: String) -> (r: Result<DynDnsServer, PeachDynDnsError>)
        ensures
            match r {
                Ok(srv) => crate::generate_zone::valid_fqdn(dyn_root_zone@) && srv.wf()
                    && srv@.zone == crate::dns::initial_zone(dyn_root_zone@, "root."@ + dyn_root_zone@)
                    && srv@.store == Map::<Seq<char>, RegistrationView>::empty(),
                Err(e) => !crate::generate_zone::valid_fqdn(dyn_root_zone@) && (e matches
                PeachDynDnsError::ConfigurationError { domain } && domain@ == dyn_root_zone@),
            },
    {
        let zone = match DnsManager::new(dyn_root_zone) {
            Ok(z) => z,
            Err(e) => {
                return Err(e);
            },
        };
        let store = RecordStore::new();
        let srv = DynDnsServer { zone, store };
        Ok(srv)
    }

    /// The current zone serial.
    pub fn serial(&self) -> (r: u32)
        ensures
            r == self@.zone.soa.serial,
    {
        self.zone.serial()
    }

    /// The parent zone this service serves.
    pub fn dyn_root_zone(&self) -> (r: &String)
        ensures
            r@ == self@.zone.parent,
    {
        self.zone.dyn_root_zone()
    }

    /// Whether no registration exists for this domain.
    pub fn check_domain_available(&self, domain: &str) -> (r: bool)
        ensures
            r == spec_available(self@, domain@),
    {
        !self.store.contains_domain(domain)
    }

    /// Validates the domain, then reports its availability; a name outside
    /// the parent zone's grammar is rejected rather than reported available.
    pub fn is_domain_available(&self, domain: &str) -> (r: Result<bool, PeachDynDnsError>)
        ensures
            match r {
                Ok(b) => valid_subdomain(domain@, self@.zone.parent) && b == spec_available(
                    self@,
                    domain@,
                ),
                Err(e) => !valid_subdomain(domain@, self@.zone.parent) && (e matches
                PeachDynDnsError::InvalidDomain { domain: d } && d@ == domain@),
            },
    {
        if !validate_domain(domain, self.zone.dyn_root_zone().as_str()) {
            return Err(PeachDynDnsError::InvalidDomain { domain: String::from_str(domain) });
        }
        Ok(self.check_domain_available(domain))
    }

    /// The provisioning workflow past credential minting: validates the
    /// requested domain, checks availability, and registers the domain with
    /// the minted secret and its initial address into the record store and
    /// the zone authority together. `minted_secret` is what the external
    /// key generator produced, if it produced anything; the credential is
    /// returned to the caller exactly once, here.
    pub fn register_domain(
        &mut self,
        domain: &str,
        minted_secret: Option<String>,
        initial_address: &str,
    ) -> (r: Result<String, PeachDynDnsError>)
        requires
            old(self).wf(),
            old(self)@.zone.soa.serial < u32::MAX,
        ensures
            final(self).wf(),
            register_contract(
                old(self)@,
                final(self)@,
                domain@,
                spec_secret(minted_secret),
                initial_address@,
                r,
            ),
    {
        if !validate_domain(domain, self.zone.dyn_root_zone().as_str()) {
            return Err(PeachDynDnsError::InvalidDomain { domain: String::from_str(domain) });
        }
        if self.store.contains_domain(domain) {
            return Err(
                PeachDynDnsError::DomainAlreadyExistsError { domain: String::from_str(domain) },
            );
        }
        let secret = match minted_secret {
            Some(s) => s,
            None => {
                return Err(PeachDynDnsError::KeyGenerationError);
            },
        };
        let reg = DomainRegistration {
            domain: String::from_str(domain),
            secret: secret.clone(),
            address: String::from_str(initial_address),
        };
        self.store.insert_new(reg);
        self.zone.upsert_domain(domain, initial_address);
        proof {
            lemma_insert_pair_preserves_inv(
                old(self)@,
                self@,
                domain@,
                secret@,
                initial_address@,
            );
        }
        Ok(secret)
    }

    /// The update gate: authenticates the presented secret against the
    /// stored one and, on a match, writes the new address to the record
    /// store first and then to the zone authority. A wrong secret or an
    /// unknown domain changes nothing.
    pub fn update(&mut self, domain: &str, secret: &str, new_address: &str) -> (r: Result<
        UpdateAck,
        PeachDynDnsError,
    >)
        requires
            old(self).wf(),
            old(self)@.zone.soa.serial < u32::MAX,
        ensures
            final(self).wf(),
            match r {
                Ok(ack) => {
                    &&& update_outcome(old(self)@, domain@, secret@) is Updated
                    &&& final(self)@ == update_transition(old(self)@, lower(domain@), new_address@)
                    &&& ack.domain@ == old(self)@.store[lower(domain@)].domain
                    &&& ack.address@ == new_address@
                },
                Err(e) => final(self)@ == old(self)@ && match e {
                    PeachDynDnsError::NotFound { domain: d } => update_outcome(
                        old(self)@,
                        domain@,
                        secret@,
                    ) is NotFound && d@ == domain@,
                    PeachDynDnsError::SecretMismatch { domain: d } => update_outcome(
                        old(self)@,
                        domain@,
                        secret@,
                    ) is SecretMismatch && d@ == domain@,
                    _ => false,
                },
            },
    {
        let owner;
        {
            let reg = match self.store.get(domain) {
                Some(r) => r,
                None => {
                    return Err(PeachDynDnsError::NotFound { domain: String::from_str(domain) });
                },
            };
            if !secrets_match(secret, reg.secret.as_str()) {
                return Err(PeachDynDnsError::SecretMismatch { domain: String::from_str(domain) });
            }
            owner = reg.domain.clone();
        }
        let ack_domain = owner.clone();
        self.store.set_address(domain, new_address);
        self.zone.upsert_domain(owner.as_str(), new_address);
        proof {
            lemma_update_pair_preserves_inv(old(self)@, self@, domain@, new_address@);
        }
        Ok(UpdateAck { domain: ack_domain, address: String::from_str(new_address) })
    }

    /// Compensating removal after a failed commit: forgets the domain in
    /// both stores so no dangling registration or record remains. Returns
    /// whether the domain was registered.
    pub fn rollback_registration(&mut self, domain: &str) -> (r: bool)
        requires
            old(self).wf(),
            old(self)@.zone.soa.serial < u32::MAX,
        ensures
            final(self).wf(),
            r == old(self)@.store.contains_key(lower(domain@)),
            r ==> final(self)@ == rollback_transition(old(self)@, domain@),
            !r ==> final(self)@ == old(self)@,
    {
        let owner;
        {
            let reg = match self.store.get(domain) {
                Some(rg) => rg,
                None => {
                    return false;
                },
            };
            owner = reg.domain.clone();
        }
        self.store.remove_domain(domain);
        self.zone.remove_domain(owner.as_str());
        proof {
            lemma_remove_pair_preserves_inv(old(self)@, self@, domain@);
        }
        true
    }

    /// The store's rows, in insertion order.
    pub closed spec fn store_rows(&self) -> Seq<RegistrationView> {
        self.store.rows_seq()
    }

    /// How many registrations the service holds.
    pub fn num_registrations(&self) -> (r: usize)
        ensures
            r == self.store_rows().len(),
    {
        self.store.num_rows()
    }

    /// The registration at a row index, for persisting the record store.
    pub fn registration_at(&self, i: usize) -> (r: &DomainRegistration)
        requires
            i < self.store_rows().len(),
        ensures
            r@ == self.store_rows()[i as int],
    {
        self.store.row_at(i)
    }

    /// Answers a decoded DNS query from the zone authority.
    pub fn query(&self, name: &str, qtype: RecordType) -> (r: QueryResponse)
        requires
            self.wf(),
        ensures
            r@ == spec_query(self@.zone, name@, qtype),
    {
        self.zone.query(name, qtype)
    }

    /// Looks up the address record for an owner name.
    pub fn lookup(&self, owner_name: &str) -> (r: Option<&AddressRecord>)
        requires
            self.wf(),
        ensures
            match r {
                Some(rec) => self@.zone.records.contains_key(lower(owner_name@)) && rec@
                    == self@.zone.records[lower(owner_name@)],
                None => !self@.zone.records.contains_key(lower(owner_name@)),
            },
    {
        self.zone.lookup(owner_name)
    }

    /// Startup reconciliation: rebuilds the zone authority by replaying
    /// every registration of the record store, which is the durable source
    /// of truth. Fails if the parent name is invalid, if the store holds
    /// more rows than the serial can count, or if some stored domain does
    /// not fit the parent zone's grammar.
    pub fn build_catalog(dyn_root_zone: &str, store: RecordStore) -> (r: Result<
        DynDnsServer,
        PeachDynDnsError,
    >)
        requires
            store.wf(),
        ensures
            match r {
                Ok(srv) => {
                    &&& srv.wf()
                    &&& srv@.store == store@
                    &&& srv@.zone.parent == dyn_root_zone@
                    &&& srv@.zone.soa.serial == 1 + store.rows_seq().len()
                },
                Err(e) => match e {
                    PeachDynDnsError::ConfigurationError { domain } => !crate::generate_zone::valid_fqdn(
                        dyn_root_zone@,
                    ) && domain@ == dyn_root_zone@,
                    PeachDynDnsError::StoreError { domain } => store.rows_seq().len() + 1
                        > u32::MAX && domain@ == dyn_root_zone@,
                    PeachDynDnsError::InvalidDomain { domain } => exists|i: int|
                        0 <= i < store.rows_seq().len() && !valid_subdomain(
                            (#[trigger] store.rows_seq()[i]).domain,
                            dyn_root_zone@,
                        ) && domain@ == store.rows_seq()[i].domain,
                    _ => false,
                },
            },
    {
        let n = store.num_rows();
        if n as u64 > (u32::MAX - 1) as u64 {
            return Err(PeachDynDnsError::StoreError { domain: String::from_str(dyn_root_zone) });
        }
        let mut zone = match DnsManager::new(String::from_str(dyn_root_zone)) {
            Ok(z) => z,
            Err(e) => {
                return Err(e);
            },
        };
        let ghost rows = store.rows_seq();
        proof {
            store.lemma_wf_inv();
        }
        let mut i: usize = 0;
        while i < n
            invariant
                store.wf(),
                crate::keyed::unique_keys(rows),
                rows == store.rows_seq(),
                n == rows.len(),
                n + 1 <= u32::MAX,
                i <= n,
                zone.wf(),
                zone@.parent == dyn_root_zone@,
                zone@.soa.serial == 1 + i,
                forall|j: int|
                    0 <= j < i ==> valid_subdomain((#[trigger] rows[j]).domain, zone@.parent),
                forall|j: int|
                    0 <= j < i ==> zone@.records.contains_key((#[trigger] rows[j]).key())
                        && zone@.records[rows[j].key()] == (RecordView {
                        owner: rows[j].domain,
                        ttl: ADDRESS_TTL,
                        address: rows[j].address,
                    }),
                forall|k: Seq<char>|
                    #[trigger] zone@.records.contains_key(k) ==> exists|j: int|
                        0 <= j < i && (#[trigger] rows[j]).key() == k,
            decreases n - i,
        {
            let row = store.row_at(i);
            if !validate_domain(row.domain.as_str(), zone.dyn_root_zone().as_str()) {
                proof {
                    assert(store.rows_seq()[i as int] == rows[i as int]);
                    assert(0 <= i < store.rows_seq().len() && !valid_subdomain(
                        (store.rows_seq()[i as int]).domain,
                        dyn_root_zone@,
                    ) && row.domain@ == store.rows_seq()[i as int].domain);
                }
                return Err(PeachDynDnsError::InvalidDomain { domain: row.domain.clone() });
            }
            let ghost pre_zone = zone@;
            zone.upsert_domain(row.domain.as_str(), row.address.as_str());
            proof {
                assert(zone@ == zone_upsert(pre_zone, rows[i as int].domain, rows[i as int].address));
                assert forall|j: int| 0 <= j < i + 1 implies zone@.records.contains_key(
                    (#[trigger] rows[j]).key(),
                ) && zone@.records[rows[j].key()] == (RecordView {
                    owner: rows[j].domain,
                    ttl: ADDRESS_TTL,
                    address: rows[j].address,
                }) by {
                    if j < i {
                        if rows[j].key() == rows[i as int].key() {
                            assert(false);
                        }
                    }
                }
            }
            i += 1;
        }
        proof {
            zone.lemma_wf_inv();
        }
        let srv = DynDnsServer { zone, store };
        proof {
            srv.store.lemma_wf_inv();
            assert forall|k: Seq<char>| #[trigger] srv@.store.contains_key(k) implies srv@.zone.records.contains_key(
                k,
            ) && srv@.zone.records[k].owner == srv@.store[k].domain && srv@.zone.records[k].address
                == srv@.store[k].address && srv@.zone.records[k].ttl == ADDRESS_TTL by {
                crate::keyed::lemma_keyed_map_contains(rows, k);
                let j = choose|j: int| 0 <= j < rows.len() && (#[trigger] rows[j]).key() == k;
                crate::keyed::lemma_keyed_map_index(rows, j);
            }
            assert forall|k: Seq<char>| #[trigger] srv@.zone.records.contains_key(k) implies srv@.store.contains_key(
                k,
            ) by {
                let j = choose|j: int| 0 <= j < n && (#[trigger] rows[j]).key() == k;
                crate::keyed::lemma_keyed_map_index(rows, j);
            }
        }
        Ok(srv)
    }
}

/// The view of the secret the key generator minted, if it minted one.
pub open spec fn spec_secret(minted: Option<String>) -> Option<Seq<char>> {
    match minted {
        Some(s) => Some(s@),
        None => None,
    }
}

/// What the provisioning workflow promises: the outcome decides the result,
/// a success returns exactly the minted credential and commits the
/// registration to both stores, and every failure carries the offending
/// domain and leaves the state untouched.
pub open spec fn register_contract(
    pre: ServerView,
    post: ServerView,
    domain: Seq<char>,
    minted: Option<Seq<char>>,
    initial_address: Seq<char>,
    r: Result<String, PeachDynDnsError>,
) -> bool {
    match r {
        Ok(key) => {
            &&& register_outcome(pre, domain, minted) is Registered
            &&& minted matches Some(s) && key@ == s
            &&& post == register_transition(pre, domain, key@, initial_address)
        },
        Err(e) => post == pre && match e {
            PeachDynDnsError::InvalidDomain { domain: d } => register_outcome(
                pre,
                domain,
                minted,
            ) is InvalidDomain && d@ == domain,
            PeachDynDnsError::DomainAlreadyExistsError { domain: d } => register_outcome(
                pre,
                domain,
                minted,
            ) is AlreadyExists && d@ == domain,
            PeachDynDnsError::KeyGenerationError => register_outcome(
                pre,
                domain,
                minted,
            ) is KeyGenerationFailed,
            _ => false,
        },
    }
}

/// Law: registering a domain and at once querying its address record
/// answers exactly the address just registered, echoed in the spelling
/// the registration used.
pub proof fn lemma_register_then_query(
    pre: ServerView,
    domain: Seq<char>,
    secret: Seq<char>,
    address: Seq<char>,
)
    requires
        register_outcome(pre, domain, Some(secret)) is Registered,
    ensures
        spec_query(register_transition(pre, domain, secret, address).zone, domain, RecordType::A)
            == QueryView::Answer(RecordView { owner: domain, ttl: ADDRESS_TTL, address: address }),
{
}

/// Law: a second registration of a registered domain is refused as
/// `DomainAlreadyExists`, whatever credential was minted for it; by
/// `register_domain`'s contract the refusal returns no credential and
/// leaves the state unchanged.
pub proof fn lemma_register_twice(
    pre: ServerView,
    domain: Seq<char>,
    secret: Seq<char>,
    address: Seq<char>,
    minted2: Option<Seq<char>>,
)
    requires
        register_outcome(pre, domain, Some(secret)) is Registered,
    ensures
        register_outcome(
            register_transition(pre, domain, secret, address),
            domain,
            minted2,
        ) is AlreadyExists,
{
}

/// Law: an update presenting a secret other than the stored one is refused
/// as `SecretMismatch`; by `update`'s contract a refused update leaves the
/// state unchanged, so a subsequent query answers as before.
pub proof fn lemma_update_wrong_secret(pre: ServerView, domain: Seq<char>, wrong: Seq<char>)
    requires
        pre.store.contains_key(lower(domain)),
        pre.store[lower(domain)].secret != wrong,
    ensures
        update_outcome(pre, domain, wrong) is SecretMismatch,
{
}

/// Law: two accepted updates of one domain linearize. Whichever update is
/// applied second determines the address served afterwards, and each
/// accepted write observes its own, strictly greater serial, so no two
/// accepted writes anywhere in the zone observe the same serial.
pub proof fn lemma_two_updates_linearize(
    pre: ServerView,
    domain: Seq<char>,
    secret: Seq<char>,
    addr1: Seq<char>,
    addr2: Seq<char>,
)
    requires
        server_inv(pre),
        update_outcome(pre, domain, secret) is Updated,
        pre.zone.soa.serial + 2 <= u32::MAX,
    ensures
        ({
            let mid = update_transition(pre, lower(domain), addr1);
            let post = update_transition(mid, lower(domain), addr2);
            &&& update_outcome(mid, domain, secret) is Updated
            &&& mid.zone.soa.serial == pre.zone.soa.serial + 1
            &&& post.zone.soa.serial == pre.zone.soa.serial + 2
            &&& spec_query(post.zone, domain, RecordType::A) == QueryView::Answer(
                RecordView {
                    owner: pre.store[lower(domain)].domain,
                    ttl: ADDRESS_TTL,
                    address: addr2,
                },
            )
        }),
{
    let key = lower(domain);
    let stored = pre.store[key];
    assert(key == lower(stored.domain));
    let mid = update_transition(pre, key, addr1);
    let post = update_transition(mid, key, addr2);
    assert(post.zone.records.contains_key(key));
    assert(post.zone.records[key] == RecordView {
        owner: stored.domain,
        ttl: ADDRESS_TTL,
        address: addr2,
    });
}

/// Law: a valid domain with no registration is available and its
/// registration is accepted; immediately afterwards it is no longer
/// available.
pub proof fn lemma_available_until_registered(
    pre: ServerView,
    domain: Seq<char>,
    secret: Seq<char>,
    address: Seq<char>,
)
    requires
        valid_subdomain(domain, pre.zone.parent),
        spec_available(pre, domain),
    ensures
        register_outcome(pre, domain, Some(secret)) is Registered,
        !spec_available(register_transition(pre, domain, secret, address), domain),
{
}

/// Inserting the same domain, spelling and address into both stores
/// preserves the relationship invariant.
proof fn lemma_insert_pair_preserves_inv(
    pre: ServerView,
    post: ServerView,
    domain: Seq<char>,
    secret: Seq<char>,
    address: Seq<char>,
)
    requires
        server_inv(pre),
        post == register_transition(pre, domain, secret, address),
        zone_inv(post.zone),
    ensures
        server_inv(post),
{
    assert forall|k: Seq<char>| post.store.contains_key(k) <==> post.zone.records.contains_key(
        k,
    ) by {
        if k != lower(domain) {
            assert(pre.store.contains_key(k) <==> pre.zone.records.contains_key(k));
        }
    }
    assert forall|k: Seq<char>| #[trigger] post.store.contains_key(k) implies post.zone.records[k].owner
        == post.store[k].domain && post.zone.records[k].address == post.store[k].address
        && post.zone.records[k].ttl == ADDRESS_TTL && k == lower(post.store[k].domain) by {
        if k != lower(domain) {
            assert(pre.store.contains_key(k));
        }
    }
}

/// Writing the same new address under the stored spelling to both stores
/// preserves the relationship invariant.
proof fn lemma_update_pair_preserves_inv(
    pre: ServerView,
    post: ServerView,
    domain: Seq<char>,
    address: Seq<char>,
)
    requires
        server_inv(pre),
        pre.store.contains_key(lower(domain)),
        post == update_transition(pre, lower(domain), address),
        zone_inv(post.zone),
    ensures
        server_inv(post),
{
    let key = lower(domain);
    let stored = pre.store[key];
    assert(key == lower(stored.domain));
    assert forall|k: Seq<char>| post.store.contains_key(k) <==> post.zone.records.contains_key(
        k,
    ) by {
        if k != key {
            assert(pre.store.contains_key(k) <==> pre.zone.records.contains_key(k));
        }
    }
    assert forall|k: Seq<char>| #[trigger] post.store.contains_key(k) implies post.zone.records[k].owner
        == post.store[k].domain && post.zone.records[k].address == post.store[k].address
        && post.zone.records[k].ttl == ADDRESS_TTL && k == lower(post.store[k].domain) by {
        if k != key {
            assert(pre.store.contains_key(k));
        }
    }
}

/// Forgetting the same domain in both stores preserves the relationship
/// invariant.
proof fn lemma_remove_pair_preserves_inv(pre: ServerView, post: ServerView, domain: Seq<char>)
    requires
        server_inv(pre),
        pre.store.contains_key(lower(domain)),
        post == rollback_transition(pre, domain),
        zone_inv(post.zone),
    ensures
        server_inv(post),
{
    let key = lower(domain);
    assert(key == lower(pre.store[key].domain));
    assert forall|k: Seq<char>| post.store.contains_key(k) <==> post.zone.records.contains_key(
        k,
    ) by {
        if k != key {
            assert(pre.store.contains_key(k) <==> pre.zone.records.contains_key(k));
        }
    }
    assert forall|k: Seq<char>| #[trigger] post.store.contains_key(k) implies post.zone.records[k].owner
        == post.store[k].domain && post.zone.records[k].address == post.store[k].address
        && post.zone.records[k].ttl == ADDRESS_TTL && k == lower(post.store[k].domain) by {
        if k != key {
            assert(pre.store.contains_key(k));
        }
    }
}

} // verus!
