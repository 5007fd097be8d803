//! Vectors of entries with distinct text keys, viewed as finite maps.
use vstd::prelude::*;

verus! {

broadcast use vstd::std_specs::vec::group_vec_axioms;

/// A value stored under a text key.
#[derive(Debug)]
pub struct Keyed<T> {
    pub key: String,
    pub value: T,
}

impl<T: DeepView> DeepView for Keyed<T> {
    type V = (Seq<char>, T::V);

    open spec fn deep_view(&self) -> (Seq<char>, T::V) {
        (self.key@, self.value.deep_view())
    }
}

pub open spec fn has_key<V>(s: Seq<(Seq<char>, V)>, k: Seq<char>) -> bool {
    exists|i: int| 0 <= i < s.len() && #[trigger] s[i].0 == k
}

pub open spec fn distinct_keys<V>(s: Seq<(Seq<char>, V)>) -> bool {
    forall|i: int, j: int| 0 <= i < s.len() && 0 <= j < s.len() && i != j ==> #[trigger] s[i].0 != #[trigger] s[j].0
}

pub open spec fn index_of_key<V>(s: Seq<(Seq<char>, V)>, k: Seq<char>) -> int {
    choose|i: int| 0 <= i < s.len() && #[trigger] s[i].0 == k
}

/// The map from keys to values that a sequence of entries stands for.
pub open spec fn as_map<V>(s: Seq<(Seq<char>, V)>) -> Map<Seq<char>, V> {
    Map::new(|k: Seq<char>| has_key(s, k), |k: Seq<char>| s[index_of_key(s, k)].1)
}

pub proof fn lemma_index_of_key<V>(s: Seq<(Seq<char>, V)>, i: int)
    requires
        distinct_keys(s),
        0 <= i < s.len(),
    ensures
        index_of_key(s, s[i].0) == i,
        has_key(s, s[i].0),
        as_map(s).contains_key(s[i].0),
        as_map(s)[s[i].0] == s[i].1,
{
    assert(has_key(s, s[i].0));
    let j = index_of_key(s, s[i].0);
    if j != i {
        assert(s[j].0 != s[i].0);
    }
}

pub proof fn lemma_push<V>(s: Seq<(Seq<char>, V)>, k: Seq<char>, v: V)
    requires
        distinct_keys(s),
        !has_key(s, k),
    ensures
        distinct_keys(s.push((k, v))),
        as_map(s.push((k, v))) == as_map(s).insert(k, v),
{
    let t = s.push((k, v));
    assert forall|i: int, j: int| 0 <= i < t.len() && 0 <= j < t.len() && i != j implies #[trigger] t[i].0 != #[trigger] t[j].0 by {
        if i < s.len() && j < s.len() {
            assert(s[i].0 != s[j].0);
        } else if i < s.len() {
            assert(s[i].0 != k);
        } else {
            assert(s[j].0 != k);
        }
    }
    assert forall|q: Seq<char>| has_key(t, q) == (has_key(s, q) || q == k) by {
        if has_key(s, q) {
            let i = choose|i: int| 0 <= i < s.len() && #[trigger] s[i].0 == q;
            assert(t[i].0 == q);
        }
        if q == k {
            assert(t[s.len() as int].0 == q);
        }
        if has_key(t, q) && q != k {
            let i = choose|i: int| 0 <= i < t.len() && #[trigger] t[i].0 == q;
            assert(s[i].0 == q);
        }
    }
    assert forall|q: Seq<char>| #[trigger] has_key(t, q) implies as_map(t)[q] == as_map(s).insert(k, v)[q] by {
        let i = index_of_key(t, q);
        lemma_index_of_key(t, i);
        if q != k {
            assert(i < s.len());
            lemma_index_of_key(s, i);
        }
    }
    assert(as_map(t) =~= as_map(s).insert(k, v));
}

pub proof fn lemma_remove<V>(s: Seq<(Seq<char>, V)>, i: int)
    requires
        distinct_keys(s),
        0 <= i < s.len(),
    ensures
        distinct_keys(s.remove(i)),
        as_map(s.remove(i)) == as_map(s).remove(s[i].0),
        !has_key(s.remove(i), s[i].0),
{
    let t = s.remove(i);
    let k = s[i].0;
    assert forall|a: int, b: int| 0 <= a < t.len() && 0 <= b < t.len() && a != b implies #[trigger] t[a].0 != #[trigger] t[b].0 by {
        let a2 = if a < i { a } else { a + 1 };
        let b2 = if b < i { b } else { b + 1 };
        assert(t[a] == s[a2]);
        assert(t[b] == s[b2]);
        assert(s[a2].0 != s[b2].0);
    }
    assert forall|q: Seq<char>| has_key(t, q) == (has_key(s, q) && q != k) by {
        if has_key(t, q) {
            let a = choose|a: int| 0 <= a < t.len() && #[trigger] t[a].0 == q;
            let a2 = if a < i { a } else { a + 1 };
            assert(s[a2].0 == q);
            assert(a2 != i);
        }
        if has_key(s, q) && q != k {
            let a = choose|a: int| 0 <= a < s.len() && #[trigger] s[a].0 == q;
            assert(a != i);
            let a2 = if a < i { a } else { a - 1 };
            assert(t[a2].0 == q);
        }
    }
    assert forall|q: Seq<char>| #[trigger] has_key(t, q) implies as_map(t)[q] == as_map(s).remove(k)[q] by {
        let a = index_of_key(t, q);
        lemma_index_of_key(t, a);
        let a2 = if a < i { a } else { a + 1 };
        assert(s[a2] == t[a]);
        lemma_index_of_key(s, a2);
    }
    assert(as_map(t) =~= as_map(s).remove(k));
}

pub proof fn lemma_update<V>(s: Seq<(Seq<char>, V)>, i: int, v: V)
    requires
        distinct_keys(s),
        0 <= i < s.len(),
    ensures
        distinct_keys(s.update(i, (s[i].0, v))),
        as_map(s.update(i, (s[i].0, v))) == as_map(s).insert(s[i].0, v),
{
    let t = s.update(i, (s[i].0, v));
    let k = s[i].0;
    assert forall|a: int, b: int| 0 <= a < t.len() && 0 <= b < t.len() && a != b implies #[trigger] t[a].0 != #[trigger] t[b].0 by {
        assert(t[a].0 == s[a].0);
        assert(t[b].0 == s[b].0);
    }
    assert forall|q: Seq<char>| has_key(t, q) == has_key(s, q) by {
        if has_key(t, q) {
            let a = choose|a: int| 0 <= a < t.len() && #[trigger] t[a].0 == q;
            assert(s[a].0 == q);
        }
        if has_key(s, q) {
            let a = choose|a: int| 0 <= a < s.len() && #[trigger] s[a].0 == q;
            assert(t[a].0 == q);
        }
    }
    assert forall|q: Seq<char>| #[trigger] has_key(t, q) implies as_map(t)[q] == as_map(s).insert(k, v)[q] by {
        let a = index_of_key(t, q);
        lemma_index_of_key(t, a);
        lemma_index_of_key(s, a);
    }
    assert(as_map(t) =~= as_map(s).insert(k, v));
}

/// The entries after storing `v` under `k`: in the place of the entry with that
/// key, if there is one, else at the end.
pub open spec fn upserted<V>(s: Seq<(Seq<char>, V)>, k: Seq<char>, v: V) -> Seq<(Seq<char>, V)> {
    if has_key(s, k) {
        s.update(index_of_key(s, k), (k, v))
    } else {
        s.push((k, v))
    }
}

/// The entries of a sequence of insertions into a map: a later insertion under
/// a key replaces an earlier one.
pub open spec fn last_wins<V>(insertions: Seq<(Seq<char>, V)>) -> Seq<(Seq<char>, V)>
    decreases insertions.len(),
{
    if insertions.len() == 0 {
        Seq::empty()
    } else {
        upserted(last_wins(insertions.drop_last()), insertions.last().0, insertions.last().1)
    }
}

/// Stores `value` under `key`, in the place of the entry with that key if there is one.
pub fn upsert<T: DeepView>(entries: &mut Vec<Keyed<T>>, key: String, value: T)
    requires
        distinct_keys(old(entries).deep_view()),
    ensures
        final(entries).deep_view() == upserted(old(entries).deep_view(), key@, value.deep_view()),
        distinct_keys(final(entries).deep_view()),
{
    let ghost s = entries.deep_view();
    match find_key(entries, &key) {
        Some(i) => {
            proof {
                lemma_index_of_key(s, i as int);
                lemma_update(s, i as int, value.deep_view());
            }
            let ghost k = key@;
            let ghost v = value.deep_view();
            entries.set(i, Keyed { key, value });
            assert(entries.deep_view() =~= s.update(i as int, (k, v)));
        },
        None => {
            let ghost k = key@;
            let ghost v = value.deep_view();
            proof { lemma_push(s, k, v); }
            entries.push(Keyed { key, value });
            assert(entries.deep_view() =~= s.push((k, v)));
        },
    }
}

/// The value of the last of the pairs whose key is `key`, if any.
pub open spec fn last_match<V>(pairs: Seq<(Seq<char>, V)>, key: Seq<char>) -> Option<V>
    decreases pairs.len(),
{
    if pairs.len() == 0 {
        None
    } else if pairs.last().0 == key {
        Some(pairs.last().1)
    } else {
        last_match(pairs.drop_last(), key)
    }
}

/// The position of the entry whose key is `key`, if any.
pub fn find_key<T: DeepView>(entries: &Vec<Keyed<T>>, key: &String) -> (r: Option<usize>)
    ensures
        match r {
            Some(i) => i < entries.len() && entries.deep_view()[i as int].0 == key@,
            None => !has_key(entries.deep_view(), key@),
        },
{
    let ghost s = entries.deep_view();
    let mut i: usize = 0;
    while i < entries.len()
        invariant
            i <= entries.len(),
            s == entries.deep_view(),
            forall|j: int| 0 <= j < i ==> #[trigger] s[j].0 != key@,
        decreases entries.len() - i,
    {
        if entries[i].key == *key {
            return Some(i);
        }
        i += 1;
    }
    None
}

} // verus!
