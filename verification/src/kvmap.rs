//! Association lists viewed as maps.
//!
//! The engine keeps three small keyed collections: notification records per
//! item identity, monitors per channel, and configurations per channel. Each
//! is a vector of key/value pairs with pairwise-distinct keys, and each is
//! specified against the `Map` obtained by folding the pairs up. This module
//! holds that fold and the lemmas relating it to the vector operations the
//! collections use.

use vstd::prelude::*;

verus! {

/// The map described by a sequence of key/value pairs; later pairs win.
pub open spec fn map_of<K: View, V>(s: Seq<(K, V)>) -> Map<<K as View>::V, V>
    decreases s.len(),
{
    if s.len() == 0 {
        Map::empty()
    } else {
        map_of(s.drop_last()).insert(s.last().0@, s.last().1)
    }
}

/// No two pairs share a key.
pub open spec fn keys_distinct<K: View, V>(s: Seq<(K, V)>) -> bool {
    forall|i: int, j: int| 0 <= i < j < s.len() ==> s[i].0@ !== s[j].0@
}

/// A key is in the map's domain exactly when some pair carries it.
pub proof fn lemma_contains<K: View, V>(s: Seq<(K, V)>, k: <K as View>::V)
    ensures
        map_of(s).dom().contains(k) <==> exists|i: int| 0 <= i < s.len() && s[i].0@ == k,
    decreases s.len(),
{
    if s.len() > 0 {
        lemma_contains(s.drop_last(), k);
        if s.last().0@ == k {
            assert(s[s.len() - 1].0@ == k);
        } else if map_of(s).dom().contains(k) {
            let i = choose|i: int| 0 <= i < s.drop_last().len() && s.drop_last()[i].0@ == k;
            assert(s[i].0@ == k);
        } else {
            assert forall|i: int| 0 <= i < s.len() implies s[i].0@ !== k by {
                if i < s.len() - 1 {
                    assert(s.drop_last()[i] == s[i]);
                }
            }
        }
    }
}

/// With distinct keys, each pair's key maps to that pair's value.
pub proof fn lemma_get<K: View, V>(s: Seq<(K, V)>, i: int)
    requires
        keys_distinct(s),
        0 <= i < s.len(),
    ensures
        map_of(s).dom().contains(s[i].0@),
        map_of(s)[s[i].0@] == s[i].1,
    decreases s.len(),
{
    if i < s.len() - 1 {
        assert(s.drop_last()[i] == s[i]);
        lemma_get(s.drop_last(), i);
        assert(s[i].0@ !== s.last().0@);
    }
}

/// With distinct keys, the map's domain is as large as the sequence.
pub proof fn lemma_len<K: View, V>(s: Seq<(K, V)>)
    requires
        keys_distinct(s),
    ensures
        map_of(s).dom().finite(),
        map_of(s).dom().len() == s.len(),
    decreases s.len(),
{
    broadcast use vstd::set::axiom_set_insert_len;

    if s.len() > 0 {
        lemma_len(s.drop_last());
        lemma_contains(s.drop_last(), s.last().0@);
        assert(forall|i: int| 0 <= i < s.drop_last().len() ==> s.drop_last()[i] == s[i]);
        assert(!map_of(s.drop_last()).dom().contains(s.last().0@));
    }
}

/// Appending a fresh pair inserts it into the map.
pub proof fn lemma_push<K: View, V>(s: Seq<(K, V)>, p: (K, V))
    ensures
        map_of(s.push(p)) == map_of(s).insert(p.0@, p.1),
{
    assert(s.push(p).drop_last() =~= s);
    assert(s.push(p).last() == p);
}

/// Replacing the pair at `i` by one with the same key updates the map there.
pub proof fn lemma_update<K: View, V>(s: Seq<(K, V)>, i: int, p: (K, V))
    requires
        keys_distinct(s),
        0 <= i < s.len(),
        p.0@ == s[i].0@,
    ensures
        map_of(s.update(i, p)) == map_of(s).insert(p.0@, p.1),
    decreases s.len(),
{
    let t = s.update(i, p);
    if i == s.len() - 1 {
        assert(t.drop_last() =~= s.drop_last());
        assert(map_of(t) =~= map_of(s).insert(p.0@, p.1));
    } else {
        assert(t.drop_last() =~= s.drop_last().update(i, p));
        assert(s.drop_last()[i] == s[i]);
        lemma_update(s.drop_last(), i, p);
        assert(s[i].0@ !== s.last().0@);
        assert(t.last() == s.last());
        assert(map_of(t) =~= map_of(s).insert(p.0@, p.1));
    }
}

/// Removing the pair at `i` removes its key from the map.
pub proof fn lemma_remove<K: View, V>(s: Seq<(K, V)>, i: int)
    requires
        keys_distinct(s),
        0 <= i < s.len(),
    ensures
        map_of(s.remove(i)) == map_of(s).remove(s[i].0@),
    decreases s.len(),
{
    let t = s.remove(i);
    if i == s.len() - 1 {
        assert(t =~= s.drop_last());
        lemma_contains(s.drop_last(), s.last().0@);
        assert(forall|j: int| 0 <= j < s.drop_last().len() ==> s.drop_last()[j] == s[j]);
        assert(!map_of(s.drop_last()).dom().contains(s.last().0@));
        assert(map_of(t) =~= map_of(s).remove(s[i].0@));
    } else {
        assert(t.drop_last() =~= s.drop_last().remove(i));
        assert(s.drop_last()[i] == s[i]);
        lemma_remove(s.drop_last(), i);
        assert(s[i].0@ !== s.last().0@);
        assert(t.last() == s.last());
        assert(map_of(t) =~= map_of(s).remove(s[i].0@));
    }
}

/// Distinctness survives replacing a pair by one with the same key.
pub proof fn lemma_distinct_update<K: View, V>(s: Seq<(K, V)>, i: int, p: (K, V))
    requires
        keys_distinct(s),
        0 <= i < s.len(),
        p.0@ == s[i].0@,
    ensures
        keys_distinct(s.update(i, p)),
{
}

/// Distinctness survives removing a pair.
pub proof fn lemma_distinct_remove<K: View, V>(s: Seq<(K, V)>, i: int)
    requires
        keys_distinct(s),
        0 <= i < s.len(),
    ensures
        keys_distinct(s.remove(i)),
{
    let t = s.remove(i);
    assert forall|a: int, b: int| 0 <= a < b < t.len() implies t[a].0@ !== t[b].0@ by {
        let sa: int = if a < i { a } else { a + 1 };
        let sb: int = if b < i { b } else { b + 1 };
        assert(t[a] == s[sa]);
        assert(t[b] == s[sb]);
    }
}

/// Distinctness survives appending a pair whose key no pair carries.
pub proof fn lemma_distinct_push<K: View, V>(s: Seq<(K, V)>, p: (K, V))
    requires
        keys_distinct(s),
        forall|i: int| 0 <= i < s.len() ==> s[i].0@ !== p.0@,
    ensures
        keys_distinct(s.push(p)),
{
}

} // verus!
