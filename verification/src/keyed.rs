//! Finite maps kept as sequences of key/value pairs with distinct keys.
//!
//! The session and rate-limit tables are small vectors of entries; these
//! definitions and lemmas let their contracts speak of plain `Map`s.
use vstd::prelude::*;

verus! {

broadcast use vstd::seq::group_seq_axioms;

/// No key occurs twice.
pub open spec fn unique_keys<K, V>(s: Seq<(K, V)>) -> bool {
    forall|i: int, j: int| 0 <= i < s.len() && 0 <= j < s.len() && i != j ==> s[i].0 != s[j].0
}

/// The map a pair sequence stands for; later pairs win over earlier ones.
pub open spec fn to_map<K, V>(s: Seq<(K, V)>) -> Map<K, V>
    decreases s.len(),
{
    if s.len() == 0 {
        Map::empty()
    } else {
        to_map(s.drop_last()).insert(s.last().0, s.last().1)
    }
}

/// The entries of `m` whose key and value satisfy `keep`.
pub open spec fn map_filter<K, V>(m: Map<K, V>, keep: spec_fn(K, V) -> bool) -> Map<K, V> {
    Map::new(|k: K| m.contains_key(k) && keep(k, m[k]), |k: K| m[k])
}

pub proof fn lemma_to_map_finite<K, V>(s: Seq<(K, V)>)
    ensures
        to_map(s).dom().finite(),
    decreases s.len(),
{
    if s.len() > 0 {
        lemma_to_map_finite(s.drop_last());
    }
}

/// A key is in the map exactly when some pair carries it.
pub proof fn lemma_to_map_contains<K, V>(s: Seq<(K, V)>, k: K)
    ensures
        to_map(s).contains_key(k) <==> exists|i: int| 0 <= i < s.len() && s[i].0 == k,
    decreases s.len(),
{
    if s.len() > 0 {
        lemma_to_map_contains(s.drop_last(), k);
        if to_map(s).contains_key(k) && s.last().0 != k {
            let i = choose|i: int| 0 <= i < s.drop_last().len() && s.drop_last()[i].0 == k;
            assert(s[i].0 == k);
        }
        if exists|i: int| 0 <= i < s.len() && s[i].0 == k {
            let i = choose|i: int| 0 <= i < s.len() && s[i].0 == k;
            if i < s.len() - 1 {
                assert(s.drop_last()[i].0 == k);
            }
        }
    }
}

/// With distinct keys, every pair is an entry of the map.
pub proof fn lemma_to_map_index<K, V>(s: Seq<(K, V)>, i: int)
    requires
        unique_keys(s),
        0 <= i < s.len(),
    ensures
        to_map(s).contains_key(s[i].0),
        to_map(s)[s[i].0] == s[i].1,
    decreases s.len(),
{
    if i < s.len() - 1 {
        let d = s.drop_last();
        assert(d[i] == s[i]);
        assert(unique_keys(d)) by {
            assert forall|a: int, b: int| 0 <= a < d.len() && 0 <= b < d.len() && a != b implies d[a].0
                != d[b].0 by {
                assert(d[a] == s[a] && d[b] == s[b]);
            }
        }
        lemma_to_map_index(d, i);
    }
}

/// Appending a pair with a fresh key inserts it.
pub proof fn lemma_push_unique<K, V>(s: Seq<(K, V)>, p: (K, V))
    requires
        unique_keys(s),
        !to_map(s).contains_key(p.0),
    ensures
        unique_keys(s.push(p)),
        to_map(s.push(p)) == to_map(s).insert(p.0, p.1),
{
    assert(s.push(p).drop_last() =~= s);
    assert forall|i: int, j: int|
        0 <= i < s.push(p).len() && 0 <= j < s.push(p).len() && i != j implies s.push(p)[i].0 != s.push(
        p,
    )[j].0 by {
        if i < s.len() && j < s.len() {
        } else if i < s.len() {
            lemma_to_map_contains(s, p.0);
            assert(s.push(p)[i] == s[i]);
        } else {
            lemma_to_map_contains(s, p.0);
            assert(s.push(p)[j] == s[j]);
        }
    }
}

/// Replacing the value of the pair at `i` updates that key.
pub proof fn lemma_update_value<K, V>(s: Seq<(K, V)>, i: int, v: V)
    requires
        unique_keys(s),
        0 <= i < s.len(),
    ensures
        unique_keys(s.update(i, (s[i].0, v))),
        to_map(s.update(i, (s[i].0, v))) == to_map(s).insert(s[i].0, v),
    decreases s.len(),
{
    let t = s.update(i, (s[i].0, v));
    assert forall|a: int, b: int| 0 <= a < t.len() && 0 <= b < t.len() && a != b implies t[a].0
        != t[b].0 by {
        assert(t[a].0 == s[a].0 && t[b].0 == s[b].0);
    }
    let d = s.drop_last();
    assert(unique_keys(d)) by {
        assert forall|a: int, b: int| 0 <= a < d.len() && 0 <= b < d.len() && a != b implies d[a].0
            != d[b].0 by {
            assert(d[a] == s[a] && d[b] == s[b]);
        }
    }
    if i == s.len() - 1 {
        assert(t.drop_last() =~= d);
        assert(to_map(t) =~= to_map(s).insert(s[i].0, v));
    } else {
        lemma_update_value(d, i, v);
        assert(t.drop_last() =~= d.update(i, (d[i].0, v)));
        assert(s.last().0 != s[i].0);
        assert(to_map(t) =~= to_map(s).insert(s[i].0, v));
    }
}

/// Keeping the pairs that satisfy `keep` (in order) keeps exactly those
/// entries of the map. Stated for one more pair at a time.
pub proof fn lemma_filter_step<K, V>(
    s: Seq<(K, V)>,
    j: int,
    kept: Seq<(K, V)>,
    keep: spec_fn(K, V) -> bool,
)
    requires
        unique_keys(s),
        0 <= j < s.len(),
        unique_keys(kept),
        to_map(kept) == map_filter(to_map(s.take(j)), keep),
    ensures
        keep(s[j].0, s[j].1) ==> unique_keys(kept.push(s[j])) && to_map(kept.push(s[j]))
            == map_filter(to_map(s.take(j + 1)), keep),
        !keep(s[j].0, s[j].1) ==> to_map(kept) == map_filter(to_map(s.take(j + 1)), keep),
{
    assert(s.take(j + 1).drop_last() =~= s.take(j));
    assert(s.take(j + 1).last() == s[j]);
    lemma_to_map_contains(s.take(j), s[j].0);
    assert(!to_map(s.take(j)).contains_key(s[j].0)) by {
        if to_map(s.take(j)).contains_key(s[j].0) {
            let i = choose|i: int| 0 <= i < s.take(j).len() && s.take(j)[i].0 == s[j].0;
            assert(s[i].0 == s[j].0);
        }
    }
    if keep(s[j].0, s[j].1) {
        lemma_push_unique(kept, s[j]);
        assert(to_map(kept.push(s[j])) =~= map_filter(to_map(s.take(j + 1)), keep));
    } else {
        assert(to_map(kept) =~= map_filter(to_map(s.take(j + 1)), keep));
    }
}

pub proof fn lemma_take_all<A>(s: Seq<A>)
    ensures
        s.take(s.len() as int) == s,
{
    assert(s.take(s.len() as int) =~= s);
}

} // verus!
