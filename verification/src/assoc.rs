//! Association lists with `String` keys, and the finite maps they denote.
//!
//! The statistics store keeps its three tables as vectors of key/value pairs
//! whose keys are pairwise distinct; contracts speak about the corresponding
//! `Map<Seq<char>, _>`.

use vstd::prelude::*;

verus! {

/// No two entries of `s` share a key.
pub open spec fn distinct_keys<V>(s: Seq<(String, V)>) -> bool {
    forall|i: int, j: int| 0 <= i < j < s.len() ==> s[i].0@ != s[j].0@
}

/// The finite map an association list denotes; a later entry for a key
/// shadows an earlier one.
pub open spec fn assoc_map<V: View>(s: Seq<(String, V)>) -> Map<Seq<char>, <V as View>::V>
    decreases s.len(),
{
    if s.len() == 0 {
        Map::empty()
    } else {
        assoc_map(s.drop_last()).insert(s.last().0@, s.last().1@)
    }
}

/// A key is in the denoted map exactly when some entry carries it.
pub proof fn lemma_assoc_map_dom<V: View>(s: Seq<(String, V)>, k: Seq<char>)
    ensures
        assoc_map(s).contains_key(k) <==> (exists|i: int| 0 <= i < s.len() && s[i].0@ == k),
    decreases s.len(),
{
    if s.len() > 0 {
        lemma_assoc_map_dom(s.drop_last(), k);
        if s.last().0@ == k {
            assert(s[s.len() - 1].0@ == k);
        } else if assoc_map(s).contains_key(k) {
            let i = choose|i: int| 0 <= i < s.drop_last().len() && s.drop_last()[i].0@ == k;
            assert(s[i].0@ == k);
        } else if exists|i: int| 0 <= i < s.len() && s[i].0@ == k {
            let i = choose|i: int| 0 <= i < s.len() && s[i].0@ == k;
            assert(s.drop_last()[i].0@ == k);
        }
    }
}

/// With distinct keys, the denoted map sends each entry's key to that
/// entry's value.
pub proof fn lemma_assoc_map_index<V: View>(s: Seq<(String, V)>, i: int)
    requires
        distinct_keys(s),
        0 <= i < s.len(),
    ensures
        assoc_map(s).contains_key(s[i].0@),
        assoc_map(s)[s[i].0@] == s[i].1@,
    decreases s.len(),
{
    if i < s.len() - 1 {
        assert(distinct_keys(s.drop_last())) by {
            assert(forall|x: int, y: int|
                0 <= x < y < s.drop_last().len() ==> s.drop_last()[x].0@ != s.drop_last()[y].0@);
        }
        lemma_assoc_map_index(s.drop_last(), i);
        assert(s.drop_last()[i] == s[i]);
        assert(s.last().0@ != s[i].0@);
    }
}

/// Replacing the value of the entry at `i` (keeping its key) updates the
/// denoted map at that key and keeps the keys distinct.
pub proof fn lemma_assoc_map_update<V: View>(s: Seq<(String, V)>, i: int, t: (String, V))
    requires
        distinct_keys(s),
        0 <= i < s.len(),
        t.0@ == s[i].0@,
    ensures
        assoc_map(s.update(i, t)) =~= assoc_map(s).insert(t.0@, t.1@),
        distinct_keys(s.update(i, t)),
    decreases s.len(),
{
    let s2 = s.update(i, t);
    assert(distinct_keys(s2)) by {
        assert(forall|x: int| 0 <= x < s2.len() ==> s2[x].0@ == s[x].0@);
    }
    if i == s.len() - 1 {
        assert(s2.drop_last() =~= s.drop_last());
        assert(s2.last() == t);
    } else {
        assert(distinct_keys(s.drop_last())) by {
            assert(forall|x: int, y: int|
                0 <= x < y < s.drop_last().len() ==> s.drop_last()[x].0@ != s.drop_last()[y].0@);
        }
        assert(s2.drop_last() =~= s.drop_last().update(i, t));
        lemma_assoc_map_update(s.drop_last(), i, t);
        assert(s.last().0@ != s[i].0@);
        assert(s2.last() == s.last());
        assert(assoc_map(s2) =~= assoc_map(s).insert(t.0@, t.1@));
    }
}

/// Appending an entry updates the denoted map at the new entry's key; if that
/// key was absent, the keys stay distinct.
pub proof fn lemma_assoc_map_push<V: View>(s: Seq<(String, V)>, s2: Seq<(String, V)>)
    requires
        s2.len() == s.len() + 1,
        s2.drop_last() =~= s,
    ensures
        assoc_map(s2) =~= assoc_map(s).insert(s2.last().0@, s2.last().1@),
        (distinct_keys(s) && (forall|i: int| 0 <= i < s.len() ==> s[i].0@ != s2.last().0@))
            ==> distinct_keys(s2),
{
    if distinct_keys(s) && (forall|i: int| 0 <= i < s.len() ==> s[i].0@ != s2.last().0@) {
        assert(distinct_keys(s2)) by {
            assert(forall|x: int| 0 <= x < s.len() ==> s2[x] == s[x]);
        }
    }
}

/// Finds the index of the entry carrying `key`, if any.
pub fn assoc_find<V>(s: &Vec<(String, V)>, key: &String) -> (r: Option<usize>)
    ensures
        match r {
            Some(i) => i < s@.len() && s@[i as int].0@ == key@,
            None => forall|i: int| 0 <= i < s@.len() ==> s@[i].0@ != key@,
        },
{
    let mut i: usize = 0;
    while i < s.len()
        invariant
            i <= s@.len(),
            forall|j: int| 0 <= j < i ==> s@[j].0@ != key@,
        decreases s@.len() - i,
    {
        if s[i].0 == *key {
            return Some(i);
        }
        i = i + 1;
    }
    None
}

} // verus!
