//! The zone authority: the single source of truth for what a DNS query
//! about a name under the parent zone returns.
//!
//! The zone holds one start-of-authority record and one address record per
//! provisioned subdomain. Owner names compare case-insensitively and are
//! stored in their original spelling for echo-back. The zone serial starts
//! at 1 and increments on every record mutation, so it never repeats on two
//! different record states and never decreases.
use vstd::prelude::*;

use crate::errors::PeachDynDnsError;
use crate::generate_zone::{valid_fqdn, valid_subdomain, validate_fqdn};
use crate::keyed::{
    keyed_map, lemma_keyed_map_contains, lemma_keyed_map_index, lemma_keyed_map_push,
    lemma_keyed_map_remove, lemma_keyed_map_update, unique_keys, Keyed,
};
use crate::utils::{lower, names_eq_ci};

verus! {

/// The refresh interval of the zone's start-of-authority record.
pub const SOA_REFRESH: u32 = 604800;

/// The retry interval of the zone's start-of-authority record.
pub const SOA_RETRY: u32 = 86400;

/// The expiry interval of the zone's start-of-authority record.
pub const SOA_EXPIRE: u32 = 2419200;

/// The negative-answer time-to-live of the zone's start-of-authority record.
pub const SOA_NEGATIVE_TTL: u32 = 86400;

/// The time-to-live of every address record the zone serves.
pub const ADDRESS_TTL: u32 = 60;

/// The start-of-authority record of the zone.
pub struct SoaRecord {
    pub primary_name: String,
    pub responsible_party: String,
    pub serial: u32,
    pub refresh: u32,
    pub retry: u32,
    pub expire: u32,
    pub negative_ttl: u32,
}

/// Mathematical form of a start-of-authority record.
pub struct SoaView {
    pub primary: Seq<char>,
    pub responsible: Seq<char>,
    pub serial: u32,
    pub refresh: u32,
    pub retry: u32,
    pub expire: u32,
    pub negative_ttl: u32,
}

impl View for SoaRecord {
    type V = SoaView;

    open spec fn view(&self) -> SoaView {
        SoaView {
            primary: self.primary_name@,
            responsible: self.responsible_party@,
            serial: self.serial,
            refresh: self.refresh,
            retry: self.retry,
            expire: self.expire,
            negative_ttl: self.negative_ttl,
        }
    }
}

/// One address record: the owner name in its original spelling, its
/// time-to-live, and the address it resolves to.
pub struct AddressRecord {
    pub owner_name: String,
    pub ttl: u32,
    pub address: String,
}

/// Mathematical form of an address record.
pub struct RecordView {
    pub owner: Seq<char>,
    pub ttl: u32,
    pub address: Seq<char>,
}

impl View for AddressRecord {
    type V = RecordView;

    open spec fn view(&self) -> RecordView {
        RecordView { owner: self.owner_name@, ttl: self.ttl, address: self.address@ }
    }
}

impl Keyed for RecordView {
    open spec fn key(&self) -> Seq<char> {
        lower(self.owner)
    }
}

/// The record views of a sequence of address records.
pub open spec fn rec_views(rs: Seq<AddressRecord>) -> Seq<RecordView> {
    rs.map_values(|r: AddressRecord| r@)
}

/// Mathematical form of the zone: the parent name, the start-of-authority
/// record, and the address records keyed by case-folded owner name.
pub struct ZoneView {
    pub parent: Seq<char>,
    pub soa: SoaView,
    pub records: Map<Seq<char>, RecordView>,
}

/// What every reachable zone state satisfies: the parent is a valid FQDN,
/// the start-of-authority record names the parent, the serial is at least 1,
/// and every record is keyed by the case-folded spelling of an owner name
/// that is a valid subdomain of the parent.
pub open spec fn zone_inv(z: ZoneView) -> bool {
    &&& valid_fqdn(z.parent)
    &&& z.soa.primary == z.parent
    &&& z.soa.serial >= 1
    &&& forall|k: Seq<char>|
        #[trigger] z.records.contains_key(k) ==> k == lower(z.records[k].owner)
            && valid_subdomain(z.records[k].owner, z.parent)
}

/// The zone as first built: serial 1 and no address records.
pub open spec fn initial_zone(parent: Seq<char>, responsible: Seq<char>) -> ZoneView {
    ZoneView {
        parent: parent,
        soa: SoaView {
            primary: parent,
            responsible: responsible,
            serial: 1,
            refresh: SOA_REFRESH,
            retry: SOA_RETRY,
            expire: SOA_EXPIRE,
            negative_ttl: SOA_NEGATIVE_TTL,
        },
        records: Map::empty(),
    }
}

/// Insert-or-replace of one owner name's address record, with the serial
/// increment that every record mutation performs.
pub open spec fn zone_upsert(z: ZoneView, owner: Seq<char>, address: Seq<char>) -> ZoneView {
    ZoneView {
        parent: z.parent,
        soa: SoaView { serial: (z.soa.serial + 1) as u32, ..z.soa },
        records: z.records.insert(
            lower(owner),
            RecordView { owner: owner, ttl: ADDRESS_TTL, address: address },
        ),
    }
}

/// Removal of one owner name's address record, with the serial increment.
pub open spec fn zone_remove(z: ZoneView, owner: Seq<char>) -> ZoneView {
    ZoneView {
        parent: z.parent,
        soa: SoaView { serial: (z.soa.serial + 1) as u32, ..z.soa },
        records: z.records.remove(lower(owner)),
    }
}

/// The record type a query asks about.
#[derive(Clone, Copy, PartialEq, Eq, Structural, Debug)]
pub enum RecordType {
    A,
    SOA,
}

/// A decoded answer to a DNS query: an address record, the zone's
/// start-of-authority record, a name that exists but has no record of the
/// asked type, or a name the zone knows nothing about.
pub enum QueryResponse<'a> {
    Answer(&'a AddressRecord),
    SoaAnswer(&'a SoaRecord),
    NoData,
    NxDomain,
}

/// Mathematical form of a query answer.
pub enum QueryView {
    Answer(RecordView),
    SoaAnswer(SoaView),
    NoData,
    NxDomain,
}

impl<'a> View for QueryResponse<'a> {
    type V = QueryView;

    open spec fn view(&self) -> QueryView {
        match self {
            QueryResponse::Answer(rec) => QueryView::Answer(rec@),
            QueryResponse::SoaAnswer(soa) => QueryView::SoaAnswer(soa@),
            QueryResponse::NoData => QueryView::NoData,
            QueryResponse::NxDomain => QueryView::NxDomain,
        }
    }
}

/// What a query returns. A name that is neither the zone apex nor a
/// provisioned subdomain does not exist; a name that exists answers only
/// the record type it holds and reports no data for the other.
pub open spec fn spec_query(z: ZoneView, name: Seq<char>, qtype: RecordType) -> QueryView {
    let key = lower(name);
    match qtype {
        RecordType::A => if z.records.contains_key(key) {
            QueryView::Answer(z.records[key])
        } else if key == lower(z.parent) {
            QueryView::NoData
        } else {
            QueryView::NxDomain
        },
        RecordType::SOA => if key == lower(z.parent) {
            QueryView::SoaAnswer(z.soa)
        } else if z.records.contains_key(key) {
            QueryView::NoData
        } else {
            QueryView::NxDomain
        },
    }
}

/// A run of upserts applied in order, each of `(owner, address)`.
pub open spec fn apply_upserts(z: ZoneView, ops: Seq<(Seq<char>, Seq<char>)>) -> ZoneView
    decreases ops.len(),
{
    if ops.len() == 0 {
        z
    } else {
        zone_upsert(apply_upserts(z, ops.drop_last()), ops.last().0, ops.last().1)
    }
}

/// Every upsert of a run advances the serial by exactly one.
pub proof fn lemma_apply_upserts_serial(z: ZoneView, ops: Seq<(Seq<char>, Seq<char>)>)
    requires
        z.soa.serial + ops.len() <= u32::MAX,
    ensures
        apply_upserts(z, ops).soa.serial == z.soa.serial + ops.len(),
    decreases ops.len(),
{
    if ops.len() > 0 {
        lemma_apply_upserts_serial(z, ops.drop_last());
    }
}

/// Law: over any run of upserts, mixed across any owner names, the zone
/// serial is strictly greater after a longer prefix than after a shorter
/// one. So the serials observed by the upserts of a run are distinct and
/// increasing, and the serial never decreases or repeats.
pub proof fn lemma_serials_distinct_increasing(
    z: ZoneView,
    ops: Seq<(Seq<char>, Seq<char>)>,
    i: int,
    j: int,
)
    requires
        0 <= i < j <= ops.len(),
        z.soa.serial + ops.len() <= u32::MAX,
    ensures
        apply_upserts(z, ops.take(i)).soa.serial < apply_upserts(z, ops.take(j)).soa.serial,
{
    lemma_apply_upserts_serial(z, ops.take(i));
    lemma_apply_upserts_serial(z, ops.take(j));
}

/// The zone authority. It exclusively owns the in-memory record sets;
/// mutations go through `upsert_domain` and `remove_domain`, which keep the
/// serial strictly increasing.
pub struct DnsManager {
    dyn_root_zone: String,
    soa: SoaRecord,
    records: Vec<AddressRecord>,
}

impl View for DnsManager {
    type V = ZoneView;

    closed spec fn view(&self) -> ZoneView {
        ZoneView {
            parent: self.dyn_root_zone@,
            soa: self.soa@,
            records: keyed_map(rec_views(self.records@)),
        }
    }
}

impl DnsManager {
    /// The representation invariant: no two records share a case-folded
    /// owner name, and the zone state satisfies `zone_inv`.
    pub closed spec fn wf(&self) -> bool {
        &&& unique_keys(rec_views(self.records@))
        &&& zone_inv(self@)
    }

    /// A well-formed zone authority satisfies the zone invariant.
    pub proof fn lemma_wf_inv(&self)
        requires
            self.wf(),
        ensures
            zone_inv(self@),
    {
    }

    /// Builds the authority for a parent zone with a fresh
    /// start-of-authority record at serial 1. Rejects a parent name that is
    /// not a valid FQDN.
    pub fn new(dyn_root_zone: String) -> (r: Result<DnsManager, PeachDynDnsError>)
        ensures
            match r {
                Ok(z) => valid_fqdn(dyn_root_zone@) && z.wf() && z@ == initial_zone(
                    dyn_root_zone@,
                    "root."@ + dyn_root_zone@,
                ),
                Err(e) => !valid_fqdn(dyn_root_zone@) && (e matches
                PeachDynDnsError::ConfigurationError { domain } && domain@ == dyn_root_zone@),
            },
    {
        if !validate_fqdn(dyn_root_zone.as_str()) {
            return Err(PeachDynDnsError::ConfigurationError { domain: dyn_root_zone });
        }
        let responsible = String::from_str("root.").concat(dyn_root_zone.as_str());
        let soa = SoaRecord {
            primary_name: dyn_root_zone.clone(),
            responsible_party: responsible,
            serial: 1,
            refresh: SOA_REFRESH,
            retry: SOA_RETRY,
            expire: SOA_EXPIRE,
            negative_ttl: SOA_NEGATIVE_TTL,
        };
        let z = DnsManager { dyn_root_zone, soa, records: Vec::new() };
        proof {
            assert(rec_views(z.records@) =~= Seq::<RecordView>::empty());
            assert(z@.records =~= Map::<Seq<char>, RecordView>::empty());
        }
        Ok(z)
    }

    /// The parent zone this authority serves.
    pub fn dyn_root_zone(&self) -> (r: &String)
        ensures
            r@ == self@.parent,
    {
        &self.dyn_root_zone
    }

    /// The current zone serial.
    pub fn serial(&self) -> (r: u32)
        ensures
            r == self@.soa.serial,
    {
        self.soa.serial
    }

    /// The zone's start-of-authority record.
    pub fn soa(&self) -> (r: &SoaRecord)
        ensures
            r@ == self@.soa,
    {
        &self.soa
    }

    /// The index of the record owning this name, if any.
    fn find_record_index(&self, owner_name: &str) -> (r: Option<usize>)
        requires
            self.wf(),
        ensures
            match r {
                Some(i) => i < self.records@.len() && lower(self.records@[i as int].owner_name@)
                    == lower(owner_name@),
                None => forall|j: int|
                    0 <= j < self.records@.len() ==> lower(
                        #[trigger] self.records@[j].owner_name@,
                    ) != lower(owner_name@),
            },
    {
        let mut i: usize = 0;
        let n = self.records.len();
        while i < n
            invariant
                n == self.records@.len(),
                i <= n,
                forall|j: int|
                    0 <= j < i ==> lower(#[trigger] self.records@[j].owner_name@) != lower(
                        owner_name@,
                    ),
            decreases n - i,
        {
            if names_eq_ci(self.records[i].owner_name.as_str(), owner_name) {
                return Some(i);
            }
            i += 1;
        }
        None
    }

    /// Inserts or replaces the address record for an owner name and returns
    /// the new zone serial. Replacement keeps the new spelling of the owner
    /// name for echo-back; every call increments the serial.
    pub fn upsert_domain(&mut self, domain: &str, address: &str) -> (serial: u32)
        requires
            old(self).wf(),
            valid_subdomain(domain@, old(self)@.parent),
            old(self)@.soa.serial < u32::MAX,
        ensures
            final(self).wf(),
            final(self)@ == zone_upsert(old(self)@, domain@, address@),
            serial == final(self)@.soa.serial,
    {
        let ghost pre_views = rec_views(self.records@);
        let rec = AddressRecord {
            owner_name: String::from_str(domain),
            ttl: ADDRESS_TTL,
            address: String::from_str(address),
        };
        let ghost rv = rec@;
        match self.find_record_index(domain) {
            Some(i) => {
                self.records[i] = rec;
                proof {
                    assert(rec_views(self.records@) =~= pre_views.update(i as int, rv));
                    lemma_keyed_map_update(pre_views, i as int, rv);
                }
            },
            None => {
                self.records.push(rec);
                proof {
                    assert(rec_views(self.records@) =~= pre_views.push(rv));
                    assert(forall|j: int|
                        0 <= j < pre_views.len() ==> (#[trigger] pre_views[j]).key() != rv.key());
                    lemma_keyed_map_push(pre_views, rv);
                }
            },
        }
        self.soa.serial = self.soa.serial + 1;
        proof {
            let newz = self@;
            let oldz = old(self)@;
            let rvg = RecordView { owner: domain@, ttl: ADDRESS_TTL, address: address@ };
            assert(rv == rvg);
            assert(newz.records == oldz.records.insert(lower(domain@), rvg));
            assert forall|k: Seq<char>| #[trigger] newz.records.contains_key(k) implies k == lower(
                newz.records[k].owner,
            ) && valid_subdomain(newz.records[k].owner, newz.parent) by {
                if k != lower(domain@) {
                    assert(oldz.records.contains_key(k));
                }
            }
            assert(zone_inv(newz));
        }
        self.soa.serial
    }

    /// Removes the address record for an owner name if one exists; a removal
    /// is a record mutation, so it increments the serial. Returns whether a
    /// record was removed.
    pub fn remove_domain(&mut self, domain: &str) -> (removed: bool)
        requires
            old(self).wf(),
            old(self)@.soa.serial < u32::MAX,
        ensures
            final(self).wf(),
            removed == old(self)@.records.contains_key(lower(domain@)),
            removed ==> final(self)@ == zone_remove(old(self)@, domain@),
            !removed ==> final(self)@ == old(self)@,
    {
        let ghost pre_views = rec_views(self.records@);
        match self.find_record_index(domain) {
            Some(i) => {
                proof {
                    lemma_keyed_map_index(pre_views, i as int);
                    lemma_keyed_map_remove(pre_views, i as int);
                }
                self.records.remove(i);
                self.soa.serial = self.soa.serial + 1;
                proof {
                    assert(rec_views(self.records@) =~= pre_views.remove(i as int));
                    assert(old(self)@.records.contains_key(lower(domain@)));
                    assert(final(self)@.records =~= zone_remove(old(self)@, domain@).records);
                }
                true
            },
            None => {
                proof {
                    lemma_keyed_map_contains(pre_views, lower(domain@));
                }
                false
            },
        }
    }

    /// Looks an owner name up, case-insensitively. Returns the record in its
    /// stored spelling, or nothing when the zone has no record for the name.
    pub fn lookup(&self, owner_name: &str) -> (r: Option<&AddressRecord>)
        requires
            self.wf(),
        ensures
            match r {
                Some(rec) => self@.records.contains_key(lower(owner_name@)) && rec@
                    == self@.records[lower(owner_name@)],
                None => !self@.records.contains_key(lower(owner_name@)),
            },
    {
        let ghost views = rec_views(self.records@);
        match self.find_record_index(owner_name) {
            Some(i) => {
                proof {
                    lemma_keyed_map_index(views, i as int);
                }
                Some(&self.records[i])
            },
            None => {
                proof {
                    lemma_keyed_map_contains(views, lower(owner_name@));
                }
                None
            },
        }
    }

    /// Answers a decoded DNS query from the zone's record sets.
    pub fn query(&self, name: &str, qtype: RecordType) -> (r: QueryResponse)
        requires
            self.wf(),
        ensures
            r@ == spec_query(self@, name@, qtype),
    {
        let apex = names_eq_ci(name, self.dyn_root_zone.as_str());
        match qtype {
            RecordType::A => {
                match self.lookup(name) {
                    Some(rec) => QueryResponse::Answer(rec),
                    None => if apex {
                        QueryResponse::NoData
                    } else {
                        QueryResponse::NxDomain
                    },
                }
            },
            RecordType::SOA => {
                if apex {
                    QueryResponse::SoaAnswer(&self.soa)
                } else {
                    match self.lookup(name) {
                        Some(_) => QueryResponse::NoData,
                        None => QueryResponse::NxDomain,
                    }
                }
            },
        }
    }
}

} // verus!
