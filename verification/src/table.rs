//! Association lists keyed by 128-bit identifiers, together with the
//! mathematical map each one stands for. The keyed stores of the
//! crate (shared buffers, health histories, pending requests) keep
//! their entries in such a list and state their contracts over the
//! map view.

use vstd::prelude::*;

verus! {

/// No identifier occurs twice among the entries.
pub open spec fn unique_keys<V>(s: Seq<(u128, V)>) -> bool {
    forall|i: int, j: int| 0 <= i < j < s.len() ==> s[i].0 != s[j].0
}

/// The map an entry list stands for; on a repeated key the later
/// entry wins.
pub open spec fn table_map<V>(s: Seq<(u128, V)>) -> Map<u128, V>
    decreases s.len(),
{
    if s.len() == 0 {
        Map::empty()
    } else {
        table_map(s.drop_last()).insert(s.last().0, s.last().1)
    }
}

/// A key is in the map exactly when some entry carries it.
pub proof fn lemma_table_contains<V>(s: Seq<(u128, V)>, k: u128)
    ensures
        table_map(s).contains_key(k) <==> (exists|i: int| 0 <= i < s.len() && s[i].0 == k),
    decreases s.len(),
{
    if s.len() == 0 {
    } else {
        lemma_table_contains(s.drop_last(), k);
        if s.last().0 == k {
            assert(s[s.len() - 1].0 == k);
        } else if table_map(s).contains_key(k) {
            let i = choose|i: int| 0 <= i < s.drop_last().len() && s.drop_last()[i].0 == k;
            assert(s[i].0 == k);
        } else if exists|i: int| 0 <= i < s.len() && s[i].0 == k {
            let i = choose|i: int| 0 <= i < s.len() && s[i].0 == k;
            assert(s.drop_last()[i].0 == k);
        }
    }
}

/// With unique keys, the map sends each entry's key to its value.
pub proof fn lemma_table_index<V>(s: Seq<(u128, V)>, i: int)
    requires
        unique_keys(s),
        0 <= i < s.len(),
    ensures
        table_map(s).contains_key(s[i].0),
        table_map(s)[s[i].0] == s[i].1,
    decreases s.len(),
{
    if i < s.len() - 1 {
        assert(unique_keys(s.drop_last()));
        lemma_table_index(s.drop_last(), i);
        assert(s.drop_last()[i] == s[i]);
    }
}

/// With unique keys the map has one key per entry.
pub proof fn lemma_table_dom_len<V>(s: Seq<(u128, V)>)
    requires
        unique_keys(s),
    ensures
        table_map(s).dom().finite(),
        table_map(s).dom().len() == s.len(),
    decreases s.len(),
{
    if s.len() == 0 {
        assert(table_map(s).dom() =~= Set::<u128>::empty());
    } else {
        assert(unique_keys(s.drop_last()));
        lemma_table_dom_len(s.drop_last());
        lemma_table_contains(s.drop_last(), s.last().0);
        assert(forall|i: int|
            0 <= i < s.drop_last().len() ==> s.drop_last()[i] == s[i]);
        assert(!table_map(s.drop_last()).contains_key(s.last().0));
    }
}

/// Appending an entry with a fresh key inserts it into the map.
pub proof fn lemma_table_push<V>(s: Seq<(u128, V)>, k: u128, v: V)
    requires
        unique_keys(s),
        forall|i: int| 0 <= i < s.len() ==> s[i].0 != k,
    ensures
        unique_keys(s.push((k, v))),
        table_map(s.push((k, v))) == table_map(s).insert(k, v),
{
    let t = s.push((k, v));
    assert(forall|i: int| 0 <= i < s.len() ==> t[i] == s[i]);
    assert(t.drop_last() =~= s);
}

/// Removing one entry removes exactly its key from the map.
pub proof fn lemma_table_remove<V>(s: Seq<(u128, V)>, i: int)
    requires
        unique_keys(s),
        0 <= i < s.len(),
    ensures
        unique_keys(s.remove(i)),
        table_map(s.remove(i)) == table_map(s).remove(s[i].0),
    decreases s.len(),
{
    let k = s[i].0;
    let t = s.remove(i);
    assert(forall|j: int| 0 <= j < i ==> t[j] == s[j]);
    assert(forall|j: int| i <= j < t.len() ==> t[j] == s[j + 1]);
    if i == s.len() - 1 {
        assert(t =~= s.drop_last());
        lemma_table_contains(s.drop_last(), k);
        assert(forall|j: int|
            0 <= j < s.drop_last().len() ==> s.drop_last()[j] == s[j]);
        assert(!table_map(s.drop_last()).contains_key(k));
        assert(table_map(s.drop_last()).insert(k, s.last().1).remove(k)
            =~= table_map(s.drop_last()));
    } else {
        assert(unique_keys(s.drop_last()));
        assert(s.drop_last()[i] == s[i]);
        lemma_table_remove(s.drop_last(), i);
        assert(t.drop_last() =~= s.drop_last().remove(i));
        assert(t.last() == s.last());
        assert(s[s.len() - 1].0 != k);
        assert(table_map(s.drop_last()).remove(k).insert(s.last().0, s.last().1)
            =~= table_map(s.drop_last()).insert(s.last().0, s.last().1).remove(k));
    }
}

/// The sum of a measure over a sequence.
pub open spec fn sum_by<T>(s: Seq<T>, f: spec_fn(T) -> int) -> int
    decreases s.len(),
{
    if s.len() == 0 {
        0
    } else {
        sum_by(s.drop_last(), f) + f(s.last())
    }
}

/// Extending the summed prefix by one element adds its measure.
pub proof fn lemma_sum_take_step<T>(s: Seq<T>, i: int, f: spec_fn(T) -> int)
    requires
        0 <= i < s.len(),
    ensures
        sum_by(s.take(i + 1), f) == sum_by(s.take(i), f) + f(s[i]),
{
    assert(s.take(i + 1).drop_last() =~= s.take(i));
    assert(s.take(i + 1).last() == s[i]);
}

/// Summing every entry is summing the whole-length prefix.
pub proof fn lemma_sum_take_all<T>(s: Seq<T>, f: spec_fn(T) -> int)
    ensures
        sum_by(s.take(s.len() as int), f) == sum_by(s, f),
{
    assert(s.take(s.len() as int) =~= s);
}

/// Removing one element subtracts its measure from the sum.
pub proof fn lemma_sum_remove<T>(s: Seq<T>, i: int, f: spec_fn(T) -> int)
    requires
        0 <= i < s.len(),
    ensures
        sum_by(s.remove(i), f) == sum_by(s, f) - f(s[i]),
    decreases s.len(),
{
    let t = s.remove(i);
    if i == s.len() - 1 {
        assert(t =~= s.drop_last());
    } else {
        lemma_sum_remove(s.drop_last(), i, f);
        assert(t.drop_last() =~= s.drop_last().remove(i));
        assert(t.last() == s.last());
        assert(s.drop_last()[i] == s[i]);
    }
}

/// Linear search for a key among the entries.
pub fn table_find<V>(entries: &Vec<(u128, V)>, k: u128) -> (r: Option<usize>)
    ensures
        match r {
            Some(i) => i < entries@.len() && entries@[i as int].0 == k,
            None => forall|i: int| 0 <= i < entries@.len() ==> entries@[i].0 != k,
        },
{
    let mut i: usize = 0;
    while i < entries.len()
        invariant
            i <= entries@.len(),
            forall|j: int| 0 <= j < i ==> entries@[j].0 != k,
        decreases entries@.len() - i,
    {
        if entries[i].0 == k {
            return Some(i);
        }
        i = i + 1;
    }
    None
}

/// No name occurs twice among the entries, under the key projection
/// `key`.
pub open spec fn named_unique<T>(s: Seq<T>, key: spec_fn(T) -> Seq<char>) -> bool {
    forall|i: int, j: int| 0 <= i < j < s.len() ==> key(s[i]) != key(s[j])
}

/// The name-keyed map an entry list stands for; on a repeated name
/// the later entry wins.
pub open spec fn named_map<T>(s: Seq<T>, key: spec_fn(T) -> Seq<char>) -> Map<Seq<char>, T>
    decreases s.len(),
{
    if s.len() == 0 {
        Map::empty()
    } else {
        named_map(s.drop_last(), key).insert(key(s.last()), s.last())
    }
}

/// A name is in the map exactly when some entry carries it.
pub proof fn lemma_named_contains<T>(s: Seq<T>, key: spec_fn(T) -> Seq<char>, n: Seq<char>)
    ensures
        named_map(s, key).contains_key(n) <==> (exists|i: int| 0 <= i < s.len() && key(s[i]) == n),
    decreases s.len(),
{
    if s.len() == 0 {
    } else {
        lemma_named_contains(s.drop_last(), key, n);
        if key(s.last()) == n {
            assert(key(s[s.len() - 1]) == n);
        } else if named_map(s, key).contains_key(n) {
            let i = choose|i: int| 0 <= i < s.drop_last().len() && key(s.drop_last()[i]) == n;
            assert(key(s[i]) == n);
        } else if exists|i: int| 0 <= i < s.len() && key(s[i]) == n {
            let i = choose|i: int| 0 <= i < s.len() && key(s[i]) == n;
            assert(key(s.drop_last()[i]) == n);
        }
    }
}

/// With unique names, the map sends each entry's name to the entry.
pub proof fn lemma_named_index<T>(s: Seq<T>, key: spec_fn(T) -> Seq<char>, i: int)
    requires
        named_unique(s, key),
        0 <= i < s.len(),
    ensures
        named_map(s, key).contains_key(key(s[i])),
        named_map(s, key)[key(s[i])] == s[i],
    decreases s.len(),
{
    if i < s.len() - 1 {
        assert(named_unique(s.drop_last(), key));
        lemma_named_index(s.drop_last(), key, i);
        assert(s.drop_last()[i] == s[i]);
    }
}

/// With unique names the map has one name per entry.
pub proof fn lemma_named_dom_len<T>(s: Seq<T>, key: spec_fn(T) -> Seq<char>)
    requires
        named_unique(s, key),
    ensures
        named_map(s, key).dom().finite(),
        named_map(s, key).dom().len() == s.len(),
    decreases s.len(),
{
    if s.len() == 0 {
        assert(named_map(s, key).dom() =~= Set::<Seq<char>>::empty());
    } else {
        assert(named_unique(s.drop_last(), key));
        lemma_named_dom_len(s.drop_last(), key);
        lemma_named_contains(s.drop_last(), key, key(s.last()));
        assert(forall|i: int|
            0 <= i < s.drop_last().len() ==> s.drop_last()[i] == s[i]);
        assert(!named_map(s.drop_last(), key).contains_key(key(s.last())));
    }
}

/// Appending an entry with a fresh name inserts it into the map.
pub proof fn lemma_named_push<T>(s: Seq<T>, key: spec_fn(T) -> Seq<char>, x: T)
    requires
        named_unique(s, key),
        forall|i: int| 0 <= i < s.len() ==> key(s[i]) != key(x),
    ensures
        named_unique(s.push(x), key),
        named_map(s.push(x), key) == named_map(s, key).insert(key(x), x),
{
    let t = s.push(x);
    assert(forall|i: int| 0 <= i < s.len() ==> t[i] == s[i]);
    assert(t.drop_last() =~= s);
}

/// Removing one entry removes exactly its name from the map.
pub proof fn lemma_named_remove<T>(s: Seq<T>, key: spec_fn(T) -> Seq<char>, i: int)
    requires
        named_unique(s, key),
        0 <= i < s.len(),
    ensures
        named_unique(s.remove(i), key),
        named_map(s.remove(i), key) == named_map(s, key).remove(key(s[i])),
    decreases s.len(),
{
    let n = key(s[i]);
    let t = s.remove(i);
    assert(forall|j: int| 0 <= j < i ==> t[j] == s[j]);
    assert(forall|j: int| i <= j < t.len() ==> t[j] == s[j + 1]);
    if i == s.len() - 1 {
        assert(t =~= s.drop_last());
        lemma_named_contains(s.drop_last(), key, n);
        assert(forall|j: int|
            0 <= j < s.drop_last().len() ==> s.drop_last()[j] == s[j]);
        assert(!named_map(s.drop_last(), key).contains_key(n));
        assert(named_map(s.drop_last(), key).insert(n, s.last()).remove(n)
            =~= named_map(s.drop_last(), key));
    } else {
        assert(named_unique(s.drop_last(), key));
        assert(s.drop_last()[i] == s[i]);
        lemma_named_remove(s.drop_last(), key, i);
        assert(t.drop_last() =~= s.drop_last().remove(i));
        assert(t.last() == s.last());
        assert(key(s[s.len() - 1]) != n);
        assert(named_map(s.drop_last(), key).remove(n).insert(key(s.last()), s.last())
            =~= named_map(s.drop_last(), key).insert(key(s.last()), s.last()).remove(n));
    }
}

} // verus!

