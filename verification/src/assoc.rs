use vstd::prelude::*;

verus! {

/// The map that a list of key-value pairs stands for: later pairs win.
pub open spec fn to_map<K, V>(s: Seq<(K, V)>) -> Map<K, V>
    decreases s.len(),
{
    if s.len() == 0 {
        Map::empty()
    } else {
        to_map(s.drop_last()).insert(s.last().0, s.last().1)
    }
}

/// No key occurs twice in the list.
pub open spec fn unique_keys<K, V>(s: Seq<(K, V)>) -> bool {
    forall|i: int, j: int| 0 <= i < s.len() && 0 <= j < s.len() && i != j ==> s[i].0 != s[j].0
}

/// In a list without repeated keys, the map holds exactly the listed keys,
/// each with its listed value.
pub proof fn lemma_to_map_unique<K, V>(s: Seq<(K, V)>)
    requires
        unique_keys(s),
    ensures
        forall|k: K| #[trigger] to_map(s).dom().contains(k) <==> exists|i: int| 0 <= i < s.len() && s[i].0 == k,
        forall|i: int| 0 <= i < s.len() ==> #[trigger] to_map(s)[s[i].0] == s[i].1,
    decreases s.len(),
{
    if s.len() > 0 {
        let p = s.drop_last();
        assert(unique_keys(p));
        lemma_to_map_unique(p);
        assert(to_map(s) == to_map(p).insert(s.last().0, s.last().1));
        assert forall|k: K| #[trigger] to_map(s).dom().contains(k) <==> exists|i: int|
            0 <= i < s.len() && s[i].0 == k by {
            if to_map(s).dom().contains(k) {
                if k == s.last().0 {
                    assert(s[s.len() - 1].0 == k);
                } else {
                    assert(to_map(p).dom().contains(k));
                    let i = choose|i: int| 0 <= i < p.len() && p[i].0 == k;
                    assert(s[i].0 == k);
                }
            }
            if exists|i: int| 0 <= i < s.len() && s[i].0 == k {
                let i = choose|i: int| 0 <= i < s.len() && s[i].0 == k;
                if i < s.len() - 1 {
                    assert(p[i].0 == k);
                    assert(to_map(p).dom().contains(k));
                }
            }
        }
        assert forall|i: int| 0 <= i < s.len() implies #[trigger] to_map(s)[s[i].0] == s[i].1 by {
            if i < s.len() - 1 {
                assert(p[i] == s[i]);
                assert(s[i].0 != s.last().0);
            }
        }
    }
}

/// A list without repeated keys that lists the keys of `m` with their
/// values stands for `m`.
pub proof fn lemma_same_map<K, V>(s: Seq<(K, V)>, m: Map<K, V>)
    requires
        unique_keys(s),
        forall|k: K| #[trigger] m.dom().contains(k) <==> exists|i: int| 0 <= i < s.len() && s[i].0 == k,
        forall|i: int| 0 <= i < s.len() ==> #[trigger] m[s[i].0] == s[i].1,
    ensures
        to_map(s) == m,
{
    lemma_to_map_unique(s);
    assert forall|k: K| #[trigger] to_map(s).dom().contains(k) implies to_map(s)[k] == m[k] by {
        let i = choose|i: int| 0 <= i < s.len() && s[i].0 == k;
    }
    assert(to_map(s) =~= m);
}

/// Replacing the value of the `i`-th pair replaces the value of its key.
pub proof fn lemma_update<K, V>(s: Seq<(K, V)>, i: int, v: V)
    requires
        unique_keys(s),
        0 <= i < s.len(),
    ensures
        unique_keys(s.update(i, (s[i].0, v))),
        to_map(s.update(i, (s[i].0, v))) == to_map(s).insert(s[i].0, v),
{
    lemma_to_map_unique(s);
    let k = s[i].0;
    let t = s.update(i, (k, v));
    assert(unique_keys(t)) by {
        assert forall|a: int, b: int| 0 <= a < t.len() && 0 <= b < t.len() && a != b implies t[a].0
            != t[b].0 by {
            assert(t[a].0 == s[a].0 && t[b].0 == s[b].0);
        }
    }
    let m = to_map(s).insert(k, v);
    assert forall|key2: K| #[trigger] m.dom().contains(key2) <==> exists|j: int|
        0 <= j < t.len() && t[j].0 == key2 by {
        if m.dom().contains(key2) {
            if key2 == k {
                assert(t[i].0 == key2);
            } else {
                let j = choose|j: int| 0 <= j < s.len() && s[j].0 == key2;
                assert(t[j].0 == key2);
            }
        }
        if exists|j: int| 0 <= j < t.len() && t[j].0 == key2 {
            let j = choose|j: int| 0 <= j < t.len() && t[j].0 == key2;
            assert(s[j].0 == key2);
        }
    }
    assert forall|j: int| 0 <= j < t.len() implies #[trigger] m[t[j].0] == t[j].1 by {
        if j != i {
            assert(t[j] == s[j]);
            assert(s[j].0 != s[i].0);
        }
    }
    lemma_same_map(t, m);
}

/// Adding a pair with a new key adds that key.
pub proof fn lemma_push<K, V>(s: Seq<(K, V)>, k: K, v: V)
    requires
        unique_keys(s),
        !to_map(s).dom().contains(k),
    ensures
        unique_keys(s.push((k, v))),
        to_map(s.push((k, v))) == to_map(s).insert(k, v),
{
    lemma_to_map_unique(s);
    let t = s.push((k, v));
    assert(t.drop_last() =~= s);
    assert(unique_keys(t)) by {
        assert forall|a: int, b: int| 0 <= a < t.len() && 0 <= b < t.len() && a != b implies t[a].0
            != t[b].0 by {
            if a < s.len() && b < s.len() {
                assert(t[a] == s[a] && t[b] == s[b]);
            } else if a < s.len() {
                assert(t[a] == s[a]);
                assert(to_map(s).dom().contains(s[a].0));
            } else {
                assert(t[b] == s[b]);
                assert(to_map(s).dom().contains(s[b].0));
            }
        }
    }
}

/// Taking out the `i`-th pair takes its key out of the map.
pub proof fn lemma_remove<K, V>(s: Seq<(K, V)>, i: int)
    requires
        unique_keys(s),
        0 <= i < s.len(),
    ensures
        unique_keys(s.remove(i)),
        to_map(s.remove(i)) == to_map(s).remove(s[i].0),
{
    lemma_to_map_unique(s);
    let t = s.remove(i);
    assert(unique_keys(t)) by {
        assert forall|a: int, b: int| 0 <= a < t.len() && 0 <= b < t.len() && a != b implies t[a].0
            != t[b].0 by {
            let oa = if a < i { a } else { a + 1 };
            let ob = if b < i { b } else { b + 1 };
            assert(t[a] == s[oa] && t[b] == s[ob]);
        }
    }
    let m = to_map(s).remove(s[i].0);
    assert forall|key2: K| #[trigger] m.dom().contains(key2) <==> exists|j: int|
        0 <= j < t.len() && t[j].0 == key2 by {
        if m.dom().contains(key2) {
            let j = choose|j: int| 0 <= j < s.len() && s[j].0 == key2;
            assert(j != i);
            let tj = if j < i { j } else { j - 1 };
            assert(t[tj] == s[j]);
        }
        if exists|j: int| 0 <= j < t.len() && t[j].0 == key2 {
            let j = choose|j: int| 0 <= j < t.len() && t[j].0 == key2;
            let oj = if j < i { j } else { j + 1 };
            assert(t[j] == s[oj]);
            assert(oj != i);
        }
    }
    assert forall|j: int| 0 <= j < t.len() implies #[trigger] m[t[j].0] == t[j].1 by {
        let oj = if j < i { j } else { j + 1 };
        assert(t[j] == s[oj]);
        assert(s[oj].0 != s[i].0);
    }
    lemma_same_map(t, m);
}

/// The number of keys of a list without repeated keys is its length.
pub proof fn lemma_dom_len<K, V>(s: Seq<(K, V)>)
    requires
        unique_keys(s),
    ensures
        to_map(s).dom().finite(),
        to_map(s).dom().len() == s.len(),
{
    lemma_to_map_unique(s);
    let keys = Seq::new(s.len(), |i: int| s[i].0);
    assert(keys.no_duplicates());
    assert(keys.to_set() =~= to_map(s).dom()) by {
        assert forall|k: K| keys.to_set().contains(k) <==> to_map(s).dom().contains(k) by {
            if to_map(s).dom().contains(k) {
                let i = choose|i: int| 0 <= i < s.len() && s[i].0 == k;
                assert(keys[i] == k);
            }
        }
    }
    keys.unique_seq_to_set();
}

} // verus!
