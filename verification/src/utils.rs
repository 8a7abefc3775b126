//! Small helpers shared by the zone authority and the record store:
//! ASCII case folding (DNS names compare case-insensitively) and a
//! constant-logic string comparison for secrets.
use vstd::prelude::*;

verus! {

/// Errors of the key-file helpers: spawning the key generator can fail,
/// and its output can fail to decode as text.
#[derive(Debug)]
pub enum PeachDynError {
    GenerateTsigIoError(String),
    GenerateTsigParseError(String),
}

/// ASCII lower-casing of one character; other characters are unchanged.
pub open spec fn lower_char(c: char) -> char {
    if 'A' <= c && c <= 'Z' {
        ((c as u8) + 32) as char
    } else {
        c
    }
}

/// Case-folded form of a name: the canonical key of the zone's maps.
pub open spec fn lower(s: Seq<char>) -> Seq<char> {
    s.map_values(|c: char| lower_char(c))
}

/// Executable ASCII case folding of one character.
pub fn lower_char_exec(c: char) -> (r: char)
    ensures
        r == lower_char(c),
{
    if 'A' <= c && c <= 'Z' {
        ((c as u8) + 32) as char
    } else {
        c
    }
}

/// Case-insensitive equality of two names, per DNS convention.
pub fn names_eq_ci(a: &str, b: &str) -> (r: bool)
    ensures
        r == (lower(a@) == lower(b@)),
{
    let alen = a.unicode_len();
    let blen = b.unicode_len();
    if alen != blen {
        assert(lower(a@).len() != lower(b@).len());
        return false;
    }
    let mut i: usize = 0;
    while i < alen
        invariant
            i <= alen,
            alen == a@.len(),
            alen == b@.len(),
            forall|j: int| 0 <= j < i ==> lower_char(#[trigger] a@[j]) == lower_char(b@[j]),
        decreases alen - i,
    {
        let ca = a.get_char(i);
        let cb = b.get_char(i);
        if lower_char_exec(ca) != lower_char_exec(cb) {
            assert(lower(a@)[i as int] != lower(b@)[i as int]);
            return false;
        }
        i += 1;
    }
    assert(lower(a@) =~= lower(b@));
    true
}

/// Equality of two secrets. The comparison inspects every character and
/// only merges the verdicts at the end, so the number of leading characters
/// that happen to match does not change the work done.
pub fn secrets_match(presented: &str, stored: &str) -> (r: bool)
    ensures
        r == (presented@ == stored@),
{
    let plen = presented.unicode_len();
    let slen = stored.unicode_len();
    if plen != slen {
        assert(presented@.len() != stored@.len());
        return false;
    }
    let mut differs: u8 = 0;
    let mut i: usize = 0;
    while i < plen
        invariant
            i <= plen,
            plen == presented@.len(),
            plen == stored@.len(),
            (differs != 0) == exists|j: int| 0 <= j < i && presented@[j] != stored@[j],
        decreases plen - i,
    {
        let ca = presented.get_char(i);
        let cb = stored.get_char(i);
        let step: u8 = if ca != cb {
            1
        } else {
            0
        };
        assert(((differs | step) != 0) == (differs != 0 || step != 0)) by (bit_vector);
        differs = differs | step;
        i += 1;
    }
    if differs != 0 {
        false
    } else {
        assert(presented@ =~= stored@);
        true
    }
}

} // verus!
