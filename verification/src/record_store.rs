//! The record store: the durable registrations, one per provisioned domain,
//! each holding the domain, the secret minted for it, and its current
//! address. The store is the source of truth for secret verification; the
//! zone authority is a derived cache rebuilt from it at startup.
use vstd::prelude::*;

use crate::keyed::{
    keyed_map, lemma_keyed_map_contains, lemma_keyed_map_index, lemma_keyed_map_push,
    lemma_keyed_map_remove, lemma_keyed_map_update, unique_keys, Keyed,
};
use crate::utils::{lower, names_eq_ci};

verus! {

/// One registration: the domain in its original spelling, the secret that
/// gates updates to it, and the address it currently resolves to.
pub struct DomainRegistration {
    pub domain: String,
    pub secret: String,
    pub address: String,
}

/// Mathematical form of a registration.
pub struct RegistrationView {
    pub domain: Seq<char>,
    pub secret: Seq<char>,
    pub address: Seq<char>,
}

impl View for DomainRegistration {
    type V = RegistrationView;

    open spec fn view(&self) -> RegistrationView {
        RegistrationView { domain: self.domain@, secret: self.secret@, address: self.address@ }
    }
}

impl Keyed for RegistrationView {
    open spec fn key(&self) -> Seq<char> {
        lower(self.domain)
    }
}

/// The registration views of a sequence of rows.
pub open spec fn reg_views(rs: Seq<DomainRegistration>) -> Seq<RegistrationView> {
    rs.map_values(|r: DomainRegistration| r@)
}

/// Every registration is keyed by the case-folded spelling of its domain.
pub open spec fn store_inv(m: Map<Seq<char>, RegistrationView>) -> bool {
    forall|k: Seq<char>| #[trigger] m.contains_key(k) ==> k == lower(m[k].domain)
}

/// The record store, keyed by case-folded domain name.
pub struct RecordStore {
    rows: Vec<DomainRegistration>,
}

impl View for RecordStore {
    type V = Map<Seq<char>, RegistrationView>;

    closed spec fn view(&self) -> Map<Seq<char>, RegistrationView> {
        keyed_map(self.rows_seq())
    }
}

impl RecordStore {
    /// The store's rows, in insertion order.
    pub closed spec fn rows_seq(&self) -> Seq<RegistrationView> {
        reg_views(self.rows@)
    }

    /// The representation invariant: no two rows share a case-folded domain.
    pub closed spec fn wf(&self) -> bool {
        unique_keys(self.rows_seq())
    }

    /// The store's map is its rows, keyed; a well-formed store has unique
    /// keys, and every key is the case-folded spelling of its row's domain.
    pub proof fn lemma_wf_inv(&self)
        requires
            self.wf(),
        ensures
            unique_keys(self.rows_seq()),
            self@ == keyed_map(self.rows_seq()),
            store_inv(self@),
            forall|i: int|
                0 <= i < self.rows_seq().len() ==> self@.contains_key(
                    (#[trigger] self.rows_seq()[i]).key(),
                ) && self@[self.rows_seq()[i].key()] == self.rows_seq()[i],
    {
        assert forall|k: Seq<char>| #[trigger] self@.contains_key(k) implies k == lower(
            self@[k].domain,
        ) by {
            lemma_keyed_map_contains(self.rows_seq(), k);
            let i = choose|i: int|
                0 <= i < self.rows_seq().len() && (#[trigger] self.rows_seq()[i]).key() == k;
            lemma_keyed_map_index(self.rows_seq(), i);
        }
        assert forall|i: int| 0 <= i < self.rows_seq().len() implies self@.contains_key(
            (#[trigger] self.rows_seq()[i]).key(),
        ) && self@[self.rows_seq()[i].key()] == self.rows_seq()[i] by {
            lemma_keyed_map_index(self.rows_seq(), i);
        }
    }

    /// An empty store.
    pub fn new() -> (r: RecordStore)
        ensures
            r.wf(),
            r@ == Map::<Seq<char>, RegistrationView>::empty(),
            r.rows_seq() == Seq::<RegistrationView>::empty(),
    {
        let s = RecordStore { rows: Vec::new() };
        proof {
            assert(s.rows_seq() =~= Seq::<RegistrationView>::empty());
            assert(s@ =~= Map::<Seq<char>, RegistrationView>::empty());
        }
        s
    }

    /// How many registrations the store holds.
    pub fn num_rows(&self) -> (r: usize)
        ensures
            r == self.rows_seq().len(),
    {
        self.rows.len()
    }

    /// The registration at a row index.
    pub fn row_at(&self, i: usize) -> (r: &DomainRegistration)
        requires
            i < self.rows_seq().len(),
        ensures
            r@ == self.rows_seq()[i as int],
    {
        &self.rows[i]
    }

    /// The index of the row registering this domain, if any.
    fn find_row_index(&self, domain: &str) -> (r: Option<usize>)
        ensures
            match r {
                Some(i) => i < self.rows_seq().len() && self.rows_seq()[i as int].key() == lower(
                    domain@,
                ),
                None => forall|j: int|
                    0 <= j < self.rows_seq().len() ==> (#[trigger] self.rows_seq()[j]).key()
                        != lower(domain@),
            },
    {
        let mut i: usize = 0;
        let n = self.rows.len();
        while i < n
            invariant
                n == self.rows@.len(),
                i <= n,
                forall|j: int|
                    0 <= j < i ==> (#[trigger] self.rows_seq()[j]).key() != lower(domain@),
            decreases n - i,
        {
            if names_eq_ci(self.rows[i].domain.as_str(), domain) {
                return Some(i);
            }
            i += 1;
        }
        None
    }

    /// Whether a registration exists for this domain.
    pub fn contains_domain(&self, domain: &str) -> (r: bool)
        ensures
            r == self@.contains_key(lower(domain@)),
    {
        proof {
            lemma_keyed_map_contains(self.rows_seq(), lower(domain@));
        }
        match self.find_row_index(domain) {
            Some(_) => true,
            None => false,
        }
    }

    /// The registration for this domain, if any.
    pub fn get(&self, domain: &str) -> (r: Option<&DomainRegistration>)
        requires
            self.wf(),
        ensures
            match r {
                Some(reg) => self@.contains_key(lower(domain@)) && reg@ == self@[lower(domain@)],
                None => !self@.contains_key(lower(domain@)),
            },
    {
        match self.find_row_index(domain) {
            Some(i) => {
                proof {
                    lemma_keyed_map_index(self.rows_seq(), i as int);
                }
                Some(&self.rows[i])
            },
            None => {
                proof {
                    lemma_keyed_map_contains(self.rows_seq(), lower(domain@));
                }
                None
            },
        }
    }

    /// Adds the registration of a domain the store does not know yet.
    pub fn insert_new(&mut self, reg: DomainRegistration)
        requires
            old(self).wf(),
            !old(self)@.contains_key(lower(reg.domain@)),
        ensures
            final(self).wf(),
            final(self)@ == old(self)@.insert(lower(reg.domain@), reg@),
            final(self).rows_seq() == old(self).rows_seq().push(reg@),
    {
        let ghost pre = self.rows_seq();
        let ghost rv = reg@;
        proof {
            lemma_keyed_map_contains(pre, rv.key());
        }
        self.rows.push(reg);
        proof {
            assert(self.rows_seq() =~= pre.push(rv));
            lemma_keyed_map_push(pre, rv);
        }
    }

    /// Replaces the stored address of a registered domain, keeping the
    /// stored spelling of the domain and its secret. Returns whether the
    /// domain was registered.
    pub fn set_address(&mut self, domain: &str, address: &str) -> (r: bool)
        requires
            old(self).wf(),
        ensures
            final(self).wf(),
            r == old(self)@.contains_key(lower(domain@)),
            r ==> final(self)@ == old(self)@.insert(
                lower(domain@),
                RegistrationView {
                    domain: old(self)@[lower(domain@)].domain,
                    secret: old(self)@[lower(domain@)].secret,
                    address: address@,
                },
            ),
            !r ==> final(self)@ == old(self)@,
    {
        let ghost pre = self.rows_seq();
        match self.find_row_index(domain) {
            Some(i) => {
                proof {
                    lemma_keyed_map_index(pre, i as int);
                }
                let d = self.rows[i].domain.clone();
                let s = self.rows[i].secret.clone();
                let newreg = DomainRegistration {
                    domain: d,
                    secret: s,
                    address: String::from_str(address),
                };
                let ghost rv = newreg@;
                self.rows[i] = newreg;
                proof {
                    assert(self.rows_seq() =~= pre.update(i as int, rv));
                    assert(rv.key() == pre[i as int].key());
                    lemma_keyed_map_update(pre, i as int, rv);
                }
                true
            },
            None => {
                proof {
                    lemma_keyed_map_contains(pre, lower(domain@));
                }
                false
            },
        }
    }

    /// Removes the registration of a domain if one exists; returns whether
    /// one was removed.
    pub fn remove_domain(&mut self, domain: &str) -> (r: bool)
        requires
            old(self).wf(),
        ensures
            final(self).wf(),
            r == old(self)@.contains_key(lower(domain@)),
            r ==> final(self)@ == old(self)@.remove(lower(domain@)),
            !r ==> final(self)@ == old(self)@,
    {
        let ghost pre = self.rows_seq();
        match self.find_row_index(domain) {
            Some(i) => {
                proof {
                    lemma_keyed_map_index(pre, i as int);
                    lemma_keyed_map_remove(pre, i as int);
                }
                self.rows.remove(i);
                proof {
                    assert(self.rows_seq() =~= pre.remove(i as int));
                }
                true
            },
            None => {
                proof {
                    lemma_keyed_map_contains(pre, lower(domain@));
                }
                false
            },
        }
    }
}

} // verus!
