//! Association vectors keyed by strings: the spec-level map they
//! denote, and the lemmas for updating or extending them while keeping
//! keys unique.

use vstd::prelude::*;

verus! {

/// The map an association vector denotes; later entries win, though
/// unique keys make the order irrelevant.
pub open spec fn spec_assoc_map<T>(s: Seq<(String, T)>) -> Map<Seq<char>, T>
    decreases s.len(),
{
    if s.len() == 0 {
        Map::empty()
    } else {
        spec_assoc_map(s.drop_last()).insert(s.last().0@, s.last().1)
    }
}

/// No two entries share a key.
pub open spec fn spec_assoc_unique<T>(s: Seq<(String, T)>) -> bool {
    forall|i: int, j: int| 0 <= i < j < s.len() ==> s[i].0@ != s[j].0@
}

/// Replacing the entry that holds a key is an insert at the map level.
pub proof fn lemma_assoc_update<T>(s: Seq<(String, T)>, j: int, pair: (String, T))
    requires
        spec_assoc_unique(s),
        0 <= j < s.len(),
        s[j].0@ == pair.0@,
    ensures
        spec_assoc_map(s.update(j, pair)) =~= spec_assoc_map(s).insert(pair.0@, pair.1),
        spec_assoc_unique(s.update(j, pair)),
    decreases s.len(),
{
    let s2 = s.update(j, pair);
    assert(forall|i: int| 0 <= i < s.len() && i != j ==> s2[i] == s[i]);
    if j == s.len() - 1 {
        assert(s2.drop_last() =~= s.drop_last());
    } else {
        assert(s2.drop_last() =~= s.drop_last().update(j, pair));
        assert(spec_assoc_unique(s.drop_last()));
        lemma_assoc_update(s.drop_last(), j, pair);
        assert(s.last().0@ != pair.0@);
    }
}

/// Appending a fresh key is an insert at the map level.
pub proof fn lemma_assoc_push<T>(s: Seq<(String, T)>, pair: (String, T))
    requires
        spec_assoc_unique(s),
        forall|i: int| 0 <= i < s.len() ==> s[i].0@ != pair.0@,
    ensures
        spec_assoc_map(s.push(pair)) =~= spec_assoc_map(s).insert(pair.0@, pair.1),
        spec_assoc_unique(s.push(pair)),
{
    assert(s.push(pair).drop_last() =~= s);
}

/// Every key of the denoted map is the key of some entry.
pub proof fn lemma_assoc_contains<T>(s: Seq<(String, T)>, k: Seq<char>)
    requires
        spec_assoc_unique(s),
        forall|i: int| 0 <= i < s.len() ==> s[i].0@ != k,
    ensures
        !spec_assoc_map(s).contains_key(k),
    decreases s.len(),
{
    if s.len() > 0 {
        assert(spec_assoc_unique(s.drop_last()));
        lemma_assoc_contains(s.drop_last(), k);
    }
}

/// The entry holding a key gives the denoted map's value at that key.
pub proof fn lemma_assoc_lookup<T>(s: Seq<(String, T)>, j: int)
    requires
        spec_assoc_unique(s),
        0 <= j < s.len(),
    ensures
        spec_assoc_map(s).contains_key(s[j].0@),
        spec_assoc_map(s)[s[j].0@] == s[j].1,
    decreases s.len(),
{
    if j == s.len() - 1 {
    } else {
        assert(spec_assoc_unique(s.drop_last()));
        lemma_assoc_lookup(s.drop_last(), j);
        assert(s.last().0@ != s[j].0@);
    }
}

} // verus!
