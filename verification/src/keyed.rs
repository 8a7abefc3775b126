//! The zone authority and the record store both hold their entries in a
//! vector and are specified against the finite map those entries describe.
//! This module defines that map and the lemmas that relate vector edits
//! (replace, push, remove) to map edits.
use vstd::prelude::*;

verus! {

/// A record addressed by a canonical (case-folded) name.
pub trait Keyed {
    spec fn key(&self) -> Seq<char>;
}

/// The map described by a sequence of keyed records; later records win.
pub open spec fn keyed_map<T: Keyed>(s: Seq<T>) -> Map<Seq<char>, T>
    decreases s.len(),
{
    if s.len() == 0 {
        Map::empty()
    } else {
        keyed_map(s.drop_last()).insert(s.last().key(), s.last())
    }
}

/// No two records of the sequence share a key.
pub open spec fn unique_keys<T: Keyed>(s: Seq<T>) -> bool {
    forall|i: int, j: int|
        0 <= i < j < s.len() ==> (#[trigger] s[i]).key() != (#[trigger] s[j]).key()
}

/// A key is in the map exactly when some record of the sequence carries it.
pub proof fn lemma_keyed_map_contains<T: Keyed>(s: Seq<T>, k: Seq<char>)
    ensures
        keyed_map(s).contains_key(k) <==> exists|i: int|
            0 <= i < s.len() && (#[trigger] s[i]).key() == k,
    decreases s.len(),
{
    if s.len() == 0 {
    } else {
        lemma_keyed_map_contains(s.drop_last(), k);
        if s.last().key() == k {
            assert(s[s.len() - 1].key() == k);
        } else {
            if keyed_map(s).contains_key(k) {
                let i = choose|i: int| 0 <= i < s.drop_last().len() && (#[trigger] s.drop_last()[i]).key() == k;
                assert(s[i].key() == k);
            }
            if exists|i: int| 0 <= i < s.len() && (#[trigger] s[i]).key() == k {
                let i = choose|i: int| 0 <= i < s.len() && (#[trigger] s[i]).key() == k;
                assert(i < s.len() - 1);
                assert(s.drop_last()[i].key() == k);
            }
        }
    }
}

/// Under unique keys, the record at any index is what the map holds for its key.
pub proof fn lemma_keyed_map_index<T: Keyed>(s: Seq<T>, i: int)
    requires
        unique_keys(s),
        0 <= i < s.len(),
    ensures
        keyed_map(s).contains_key(s[i].key()),
        keyed_map(s)[s[i].key()] == s[i],
    decreases s.len(),
{
    if i == s.len() - 1 {
        assert(s.last() == s[i]);
    } else {
        assert(unique_keys(s.drop_last())) by {
            assert(forall|a: int, b: int|
                0 <= a < b < s.drop_last().len() ==> (#[trigger] s.drop_last()[a]).key()
                    != (#[trigger] s.drop_last()[b]).key()) by {
                assert(forall|a: int|
                    0 <= a < s.drop_last().len() ==> #[trigger] s.drop_last()[a] == s[a]);
            }
        }
        lemma_keyed_map_index(s.drop_last(), i);
        assert(s.drop_last()[i] == s[i]);
        assert(s[i].key() != s.last().key());
    }
}

/// Replacing the record at an index, keeping its key, is a map insert.
pub proof fn lemma_keyed_map_update<T: Keyed>(s: Seq<T>, i: int, v: T)
    requires
        unique_keys(s),
        0 <= i < s.len(),
        v.key() == s[i].key(),
    ensures
        keyed_map(s.update(i, v)) == keyed_map(s).insert(v.key(), v),
        unique_keys(s.update(i, v)),
    decreases s.len(),
{
    let su = s.update(i, v);
    assert(unique_keys(su)) by {
        assert(forall|a: int| 0 <= a < s.len() && a != i ==> (#[trigger] su[a]).key() == s[a].key());
        assert(su[i].key() == s[i].key());
    }
    if i == s.len() - 1 {
        assert(su.drop_last() =~= s.drop_last());
        assert(keyed_map(su) =~= keyed_map(s).insert(v.key(), v));
    } else {
        assert(unique_keys(s.drop_last())) by {
            assert(forall|a: int|
                0 <= a < s.drop_last().len() ==> #[trigger] s.drop_last()[a] == s[a]);
        }
        lemma_keyed_map_update(s.drop_last(), i, v);
        assert(su.drop_last() =~= s.drop_last().update(i, v));
        assert(su.last() == s.last());
        assert(s.last().key() != v.key()) by {
            assert(s[i].key() != s[s.len() - 1].key());
        }
        assert(keyed_map(su) =~= keyed_map(s).insert(v.key(), v));
    }
}

/// Appending a record with a fresh key is a map insert.
pub proof fn lemma_keyed_map_push<T: Keyed>(s: Seq<T>, v: T)
    requires
        unique_keys(s),
        forall|i: int| 0 <= i < s.len() ==> (#[trigger] s[i]).key() != v.key(),
    ensures
        keyed_map(s.push(v)) == keyed_map(s).insert(v.key(), v),
        unique_keys(s.push(v)),
{
    let sp = s.push(v);
    assert(sp.drop_last() =~= s);
    assert(sp.last() == v);
    assert(unique_keys(sp)) by {
        assert(forall|a: int| 0 <= a < s.len() ==> (#[trigger] sp[a]).key() == s[a].key());
    }
}

/// Removing the record at an index is a map remove.
pub proof fn lemma_keyed_map_remove<T: Keyed>(s: Seq<T>, i: int)
    requires
        unique_keys(s),
        0 <= i < s.len(),
    ensures
        keyed_map(s.remove(i)) == keyed_map(s).remove(s[i].key()),
        unique_keys(s.remove(i)),
    decreases s.len(),
{
    let sr = s.remove(i);
    assert(unique_keys(sr)) by {
        assert(forall|a: int|
            0 <= a < sr.len() ==> (#[trigger] sr[a]).key() == if a < i {
                s[a].key()
            } else {
                s[a + 1].key()
            });
    }
    if i == s.len() - 1 {
        assert(sr =~= s.drop_last());
        lemma_keyed_map_contains(s.drop_last(), s[i].key());
        assert(forall|a: int|
            0 <= a < s.drop_last().len() ==> (#[trigger] s.drop_last()[a]).key() != s[i].key());
        assert(!keyed_map(s.drop_last()).contains_key(s[i].key()));
        assert(keyed_map(sr) =~= keyed_map(s).remove(s[i].key()));
    } else {
        assert(unique_keys(s.drop_last())) by {
            assert(forall|a: int|
                0 <= a < s.drop_last().len() ==> #[trigger] s.drop_last()[a] == s[a]);
        }
        lemma_keyed_map_remove(s.drop_last(), i);
        assert(sr.drop_last() =~= s.drop_last().remove(i));
        assert(sr.last() == s.last());
        assert(s.last().key() != s[i].key()) by {
            assert(s[i].key() != s[s.len() - 1].key());
        }
        assert(keyed_map(sr) =~= keyed_map(s).remove(s[i].key()));
    }
}

} // verus!
