//! Association lists keyed by `String`: the in-memory store behind every
//! keyed collection of the ledger. Keys are kept unique, so each list is a
//! finite map from the key's characters to a value.
use vstd::prelude::*;

verus! {

/// No key occurs twice.
pub open spec fn keys_unique<V>(s: Seq<(String, V)>) -> bool {
    forall|i: int, j: int|
        0 <= i < s.len() && 0 <= j < s.len() && #[trigger] s[i].0@ == #[trigger] s[j].0@ ==> i == j
}

pub open spec fn has_key<V>(s: Seq<(String, V)>, k: Seq<char>) -> bool {
    exists|i: int| 0 <= i < s.len() && #[trigger] s[i].0@ == k
}

pub open spec fn index_of<V>(s: Seq<(String, V)>, k: Seq<char>) -> int {
    choose|i: int| 0 <= i < s.len() && #[trigger] s[i].0@ == k
}

/// The map that the list stands for.
pub open spec fn to_map<V>(s: Seq<(String, V)>) -> Map<Seq<char>, V> {
    Map::new(|k: Seq<char>| has_key(s, k), |k: Seq<char>| s[index_of(s, k)].1)
}

/// Sum of the values of a list of amounts.
pub open spec fn sum_values(s: Seq<(String, u128)>) -> int
    decreases s.len(),
{
    if s.len() == 0 {
        0
    } else {
        sum_values(s.drop_last()) + s.last().1
    }
}

pub proof fn lemma_index<V>(s: Seq<(String, V)>, i: int)
    requires
        keys_unique(s),
        0 <= i < s.len(),
    ensures
        has_key(s, s[i].0@),
        index_of(s, s[i].0@) == i,
        to_map(s).contains_key(s[i].0@),
        to_map(s)[s[i].0@] == s[i].1,
{
    assert(has_key(s, s[i].0@));
}

pub proof fn lemma_update<V>(s: Seq<(String, V)>, i: int, k: String, v: V)
    requires
        keys_unique(s),
        0 <= i < s.len(),
        k@ == s[i].0@,
    ensures
        keys_unique(s.update(i, (k, v))),
        to_map(s.update(i, (k, v))) == to_map(s).insert(k@, v),
{
    let t = s.update(i, (k, v));
    assert(keys_unique(t)) by {
        assert forall|a: int, b: int|
            0 <= a < t.len() && 0 <= b < t.len() && #[trigger] t[a].0@ == #[trigger] t[b].0@ implies a
            == b by {
            assert(t[a].0@ == s[a].0@);
            assert(t[b].0@ == s[b].0@);
        }
    }
    assert forall|key: Seq<char>| #[trigger] has_key(t, key) == has_key(s, key) by {
        if has_key(s, key) {
            let j = index_of(s, key);
            assert(t[j].0@ == key);
        }
        if has_key(t, key) {
            let j = index_of(t, key);
            assert(s[j].0@ == key);
        }
    }
    lemma_index(t, i);
    assert forall|key: Seq<char>| key != k@ && has_key(s, key) implies #[trigger] to_map(t)[key]
        == to_map(s)[key] by {
        let j = index_of(s, key);
        lemma_index(s, j);
        assert(j != i);
        assert(t[j] == s[j]);
        lemma_index(t, j);
    }
    assert(to_map(t) =~= to_map(s).insert(k@, v));
}

pub proof fn lemma_push<V>(s: Seq<(String, V)>, k: String, v: V)
    requires
        keys_unique(s),
        !has_key(s, k@),
    ensures
        keys_unique(s.push((k, v))),
        to_map(s.push((k, v))) == to_map(s).insert(k@, v),
{
    let t = s.push((k, v));
    assert(keys_unique(t)) by {
        assert forall|a: int, b: int|
            0 <= a < t.len() && 0 <= b < t.len() && #[trigger] t[a].0@ == #[trigger] t[b].0@ implies a
            == b by {
            if a < s.len() {
                assert(t[a] == s[a]);
            }
            if b < s.len() {
                assert(t[b] == s[b]);
            }
        }
    }
    assert forall|key: Seq<char>| #[trigger] has_key(t, key) == (has_key(s, key) || key == k@) by {
        if has_key(s, key) {
            let j = index_of(s, key);
            assert(t[j] == s[j]);
        }
        if key == k@ {
            assert(t[s.len() as int].0@ == key);
        }
        if has_key(t, key) && key != k@ {
            let j = index_of(t, key);
            assert(j < s.len());
            assert(s[j] == t[j]);
        }
    }
    lemma_index(t, s.len() as int);
    assert forall|key: Seq<char>| key != k@ && has_key(s, key) implies #[trigger] to_map(t)[key]
        == to_map(s)[key] by {
        let j = index_of(s, key);
        lemma_index(s, j);
        assert(t[j] == s[j]);
        lemma_index(t, j);
    }
    assert(to_map(t) =~= to_map(s).insert(k@, v));
}

pub proof fn lemma_sum_update(s: Seq<(String, u128)>, i: int, k: String, v: u128)
    requires
        0 <= i < s.len(),
    ensures
        sum_values(s.update(i, (k, v))) == sum_values(s) - s[i].1 + v,
    decreases s.len(),
{
    let t = s.update(i, (k, v));
    if i == s.len() - 1 {
        assert(t.drop_last() =~= s.drop_last());
    } else {
        assert(t.drop_last() =~= s.drop_last().update(i, (k, v)));
        lemma_sum_update(s.drop_last(), i, k, v);
    }
}

pub proof fn lemma_sum_push(s: Seq<(String, u128)>, k: String, v: u128)
    ensures
        sum_values(s.push((k, v))) == sum_values(s) + v,
{
    assert(s.push((k, v)).drop_last() =~= s);
}

pub proof fn lemma_sum_bounds(s: Seq<(String, u128)>, i: int)
    requires
        0 <= i < s.len(),
    ensures
        s[i].1 <= sum_values(s),
        0 <= sum_values(s),
    decreases s.len(),
{
    lemma_sum_nonneg(s.drop_last());
    if i < s.len() - 1 {
        lemma_sum_bounds(s.drop_last(), i);
    }
}

pub proof fn lemma_sum_nonneg(s: Seq<(String, u128)>)
    ensures
        0 <= sum_values(s),
    decreases s.len(),
{
    if s.len() > 0 {
        lemma_sum_nonneg(s.drop_last());
    }
}

/// An element-for-element copy of a list.
pub fn copy_entries<V: Copy>(v: &Vec<(String, V)>) -> (r: Vec<(String, V)>)
    ensures
        r@ == v@,
{
    let mut r: Vec<(String, V)> = Vec::new();
    let mut i: usize = 0;
    while i < v.len()
        invariant
            i <= v@.len(),
            r@ == v@.take(i as int),
        decreases v@.len() - i,
    {
        r.push((v[i].0.clone(), v[i].1));
        i = i + 1;
        assert(r@ =~= v@.take(i as int));
    }
    assert(v@.take(v@.len() as int) =~= v@);
    r
}

/// Position of `k` in the list, if it is there.
pub fn find<V>(v: &Vec<(String, V)>, k: &String) -> (r: Option<usize>)
    ensures
        match r {
            Some(i) => i < v@.len() && v@[i as int].0@ == k@,
            None => !has_key(v@, k@),
        },
{
    let mut i: usize = 0;
    while i < v.len()
        invariant
            i <= v@.len(),
            forall|j: int| 0 <= j < i ==> #[trigger] v@[j].0@ != k@,
        decreases v@.len() - i,
    {
        if v[i].0 == *k {
            return Some(i);
        }
        i = i + 1;
    }
    None
}

} // verus!
