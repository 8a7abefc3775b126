//! The parent zone's naming grammar, and the provisioning workflow that
//! admits a new subdomain into the zone.
//!
//! A name is accepted when it is a fully qualified domain name of
//! alphanumeric-and-hyphen labels (no label empty, none longer than 63
//! characters, none starting or ending with a hyphen, at most 253 characters
//! in all) that ends with `.` followed by the parent zone, compared
//! case-insensitively.
use vstd::prelude::*;

use crate::errors::PeachDynDnsError;
use crate::server::{register_contract, spec_available, spec_secret, DynDnsServer};
use crate::utils::{lower, lower_char, lower_char_exec};

verus! {

/// A character that may appear inside a label.
pub open spec fn is_label_char(c: char) -> bool {
    ||| 'a' <= c && c <= 'z'
    ||| 'A' <= c && c <= 'Z'
    ||| '0' <= c && c <= '9'
    ||| c == '-'
}

/// Executable test of `is_label_char`.
pub fn is_label_char_exec(c: char) -> (r: bool)
    ensures
        r == is_label_char(c),
{
    ('a' <= c && c <= 'z') || ('A' <= c && c <= 'Z') || ('0' <= c && c <= '9') || c == '-'
}

/// Some character of `s[w .. w + 64]` is a dot.
pub open spec fn window_has_dot(s: Seq<char>, w: int) -> bool {
    exists|k: int| w <= k < w + 64 && #[trigger] s[k] == '.'
}

/// A fully qualified domain name: dot-separated labels of letters, digits
/// and hyphens, where no label is empty, starts or ends with a hyphen, or
/// exceeds 63 characters, and the whole name has at most 253 characters.
/// The label bound is stated as: every 64-character window contains a dot.
pub open spec fn valid_fqdn(s: Seq<char>) -> bool {
    &&& 1 <= s.len() <= 253
    &&& forall|i: int| 0 <= i < s.len() ==> is_label_char(#[trigger] s[i]) || s[i] == '.'
    &&& s[0] != '.'
    &&& s[s.len() - 1] != '.'
    &&& forall|i: int| 0 < i < s.len() ==> !(#[trigger] s[i] == '.' && s[i - 1] == '.')
    &&& forall|i: int| 0 <= i < s.len() && #[trigger] s[i] == '-' ==> i > 0 && s[i - 1] != '.'
    &&& forall|i: int|
        0 <= i < s.len() && #[trigger] s[i] == '-' ==> i < s.len() - 1 && s[i + 1] != '.'
    &&& forall|w: int| 0 <= w && w + 64 <= s.len() ==> #[trigger] window_has_dot(s, w)
}

/// A name a client may claim: a valid FQDN that is at least one label
/// below the parent zone, whose tail is `.` followed by the parent zone
/// (case-insensitively).
pub open spec fn valid_subdomain(s: Seq<char>, parent: Seq<char>) -> bool {
    &&& valid_fqdn(s)
    &&& s.len() >= parent.len() + 2
    &&& s[s.len() - parent.len() - 1] == '.'
    &&& lower(s.subrange(s.len() - parent.len(), s.len() as int)) == lower(parent)
}

/// Decides `valid_fqdn` for a name.
pub fn validate_fqdn(domain: &str) -> (r: bool)
    ensures
        r == valid_fqdn(domain@),
{
    let ghost s = domain@;
    let n = domain.unicode_len();
    if n < 1 || n > 253 {
        return false;
    }
    let mut i: usize = 0;
    let mut label_start: usize = 0;
    while i < n
        invariant
            s == domain@,
            n == s.len(),
            1 <= n <= 253,
            label_start <= i <= n,
            i - label_start <= 63,
            forall|j: int| 0 <= j < i ==> is_label_char(#[trigger] s[j]) || s[j] == '.',
            i > 0 ==> s[0] != '.',
            forall|j: int| 0 < j < i ==> !(#[trigger] s[j] == '.' && s[j - 1] == '.'),
            forall|j: int| 0 <= j < i && #[trigger] s[j] == '-' ==> j > 0 && s[j - 1] != '.',
            forall|j: int| 0 <= j < i - 1 && #[trigger] s[j] == '-' ==> s[j + 1] != '.',
            label_start > 0 ==> s[label_start - 1] == '.',
            forall|j: int| label_start <= j < i ==> #[trigger] s[j] != '.',
            forall|w: int| 0 <= w && w + 64 <= i ==> #[trigger] window_has_dot(s, w),
        decreases n - i,
    {
        let c = domain.get_char(i);
        if c == '.' {
            if i == label_start {
                // an empty label: either a leading dot or two dots in a row
                assert(!valid_fqdn(s)) by {
                    if label_start > 0 {
                        assert(s[label_start as int] == '.' && s[label_start - 1] == '.');
                    } else {
                        assert(s[0] == '.');
                    }
                }
                return false;
            }
            let prev = domain.get_char(i - 1);
            if prev == '-' {
                // a label may not end with a hyphen
                assert(!valid_fqdn(s)) by {
                    assert(s[i - 1] == '-' && s[i as int] == '.');
                }
                return false;
            }
            label_start = i + 1;
        } else if is_label_char_exec(c) {
            if c == '-' && i == label_start {
                // a label may not start with a hyphen
                assert(!valid_fqdn(s)) by {
                    if label_start > 0 {
                        assert(s[i as int] == '-' && s[i - 1] == '.');
                    } else {
                        assert(s[0] == '-');
                    }
                }
                return false;
            }
            if i - label_start == 63 {
                // the current label would exceed 63 characters
                assert(!valid_fqdn(s)) by {
                    let w = label_start as int;
                    assert(w + 64 <= s.len());
                    assert(!window_has_dot(s, w)) by {
                        assert(forall|k: int| label_start <= k < i ==> #[trigger] s[k] != '.');
                        assert(s[i as int] != '.');
                    }
                }
                return false;
            }
        } else {
            assert(!valid_fqdn(s)) by {
                assert(!(is_label_char(s[i as int]) || s[i as int] == '.'));
            }
            return false;
        }
        i += 1;
        proof {
            // every 64-character window that now fits in the prefix has a dot
            assert forall|w: int| 0 <= w && w + 64 <= i implies #[trigger] window_has_dot(
                s,
                w,
            ) by {
                if w + 64 == i {
                    if s[i - 1] == '.' {
                        assert(s[i - 1] == '.');
                    } else {
                        assert(label_start > 0 && w <= label_start - 1 < w + 64);
                        assert(s[label_start - 1] == '.');
                    }
                }
            }
        }
    }
    if label_start == n {
        // the name ends with a dot
        assert(!valid_fqdn(s)) by {
            assert(s[label_start - 1] == '.');
        }
        return false;
    }
    let last = domain.get_char(n - 1);
    if last == '-' {
        assert(!valid_fqdn(s)) by {
            assert(s[n - 1] == '-');
        }
        return false;
    }
    assert(valid_fqdn(s)) by {
        assert(s[s.len() - 1] != '.');
        assert forall|j: int|
            0 <= j < s.len() && #[trigger] s[j] == '-' implies j < s.len() - 1 && s[j + 1]
            != '.' by {
            assert(s[n - 1] != '-');
        }
    }
    true
}

/// Decides whether `domain` is a name a client may claim under `parent_zone`:
/// `valid_subdomain(domain@, parent_zone@)`.
pub fn validate_domain(domain: &str, parent_zone: &str) -> (r: bool)
    ensures
        r == valid_subdomain(domain@, parent_zone@),
{
    let ghost s = domain@;
    let ghost parent = parent_zone@;
    if !validate_fqdn(domain) {
        return false;
    }
    let n = domain.unicode_len();
    let p = parent_zone.unicode_len();
    if n < 2 || p > n - 2 {
        assert(s.len() < parent.len() + 2);
        return false;
    }
    let dot = domain.get_char(n - p - 1);
    if dot != '.' {
        return false;
    }
    let mut j: usize = 0;
    while j < p
        invariant
            s == domain@,
            parent == parent_zone@,
            n == s.len(),
            p == parent.len(),
            p <= n - 2,
            2 <= n,
            j <= p,
            forall|t: int|
                0 <= t < j ==> lower_char(#[trigger] s[n - p + t]) == lower_char(parent[t]),
        decreases p - j,
    {
        let cs = domain.get_char(n - p + j);
        let cp = parent_zone.get_char(j);
        if lower_char_exec(cs) != lower_char_exec(cp) {
            assert(!valid_subdomain(s, parent)) by {
                let tail = s.subrange(s.len() - parent.len(), s.len() as int);
                assert(lower(tail)[j as int] == lower_char(s[n - p + j]));
                assert(lower(parent)[j as int] == lower_char(parent[j as int]));
            }
            return false;
        }
        j += 1;
    }
    proof {
        let tail = s.subrange(s.len() - parent.len(), s.len() as int);
        assert forall|t: int| 0 <= t < parent.len() implies lower(tail)[t] == lower(parent)[t] by {
            assert(tail[t] == s[n - p + t]);
            assert(lower_char(s[n - p + t]) == lower_char(parent[t]));
        }
        assert(lower(tail) =~= lower(parent));
    }
    true
}


/// Whether the service can still admit this name: true exactly when no
/// registration exists for it. The record store is the one authoritative
/// existence check; the zone authority moves together with it.
pub fn check_domain_available(server: &DynDnsServer, full_domain: &str) -> (r: bool)
    ensures
        r == spec_available(server@, full_domain@),
{
    server.check_domain_available(full_domain)
}

/// The provisioning workflow: validates the requested domain, checks its
/// availability, and registers it with the credential the key generator
/// minted, returning that credential text to the caller exactly once.
/// The configuration written for an external daemon, and its reload, happen
/// around this call; `zone_section_text` renders the stanza, and a failed
/// reload is compensated through `DynDnsServer::rollback_registration`.
pub fn generate_zone(
    server: &mut DynDnsServer,
    full_domain: &str,
    minted_secret: Option<String>,
    initial_address: &str,
) -> (r: Result<String, PeachDynDnsError>)
    requires
        old(server).wf(),
        old(server)@.zone.soa.serial < u32::MAX,
    ensures
        final(server).wf(),
        register_contract(
            old(server)@,
            final(server)@,
            full_domain@,
            spec_secret(minted_secret),
            initial_address@,
            r,
        ),
{
    server.register_domain(full_domain, minted_secret, initial_address)
}

/// The zone stanza appended to the daemon's local configuration for a newly
/// provisioned domain: a master zone whose records only the holder of the
/// domain's own key may update.
pub open spec fn spec_zone_section(d: Seq<char>) -> Seq<char> {
    "zone \""@ + d + "\" {\n            type master;\n            file \"/var/lib/bind/"@ + d
        + "\";\n            update-policy {\n\t            grant "@ + d + " self "@ + d
        + ";\n            };\n        };\n    "@
}

/// Renders `spec_zone_section` for a domain.
pub fn zone_section_text(full_domain: &str) -> (r: String)
    ensures
        r@ == spec_zone_section(full_domain@),
{
    let mut t = String::from_str("zone \"");
    t.append(full_domain);
    t.append("\" {\n            type master;\n            file \"/var/lib/bind/");
    t.append(full_domain);
    t.append("\";\n            update-policy {\n\t            grant ");
    t.append(full_domain);
    t.append(" self ");
    t.append(full_domain);
    t.append(";\n            };\n        };\n    ");
    proof {
        assert(t@ =~= spec_zone_section(full_domain@));
    }
    t
}

} // verus!
