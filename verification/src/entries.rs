//! Named entries: the maps of the configuration, as lists of `(name, value)` pairs.

use vstd::prelude::*;

use crate::types::identifier::Identifier;

verus! {

/// `s` without its later repetitions: each value kept at its first position.
pub open spec fn dedup<T>(s: Seq<T>) -> Seq<T>
    decreases s.len(),
{
    if s.len() == 0 {
        s
    } else {
        let d = dedup(s.drop_last());
        if d.contains(s.last()) {
            d
        } else {
            d.push(s.last())
        }
    }
}

/// `i` is the first position of the name `k`.
pub open spec fn key_at<T>(m: Seq<(Identifier, T)>, k: Seq<char>, i: int) -> bool {
    &&& 0 <= i < m.len()
    &&& m[i].0@ == k
    &&& forall|j: int| 0 <= j < i ==> m[j].0@ != k
}

/// The name `k` occurs.
pub open spec fn has_key<T>(m: Seq<(Identifier, T)>, k: Seq<char>) -> bool {
    exists|i: int| 0 <= i < m.len() && m[i].0@ == k
}

/// The value of the first entry named `k`.
pub open spec fn lookup<T>(m: Seq<(Identifier, T)>, k: Seq<char>) -> Option<T> {
    if has_key(m, k) {
        Some(m[choose|i: int| key_at(m, k, i)].1)
    } else {
        None
    }
}

/// The names, in order.
pub open spec fn keys<T>(m: Seq<(Identifier, T)>) -> Seq<Seq<char>> {
    m.map_values(|e: (Identifier, T)| e.0@)
}

/// Below a position holding `k` there is a first position of `k`.
proof fn lemma_first_below<T>(m: Seq<(Identifier, T)>, k: Seq<char>, w: int)
    requires
        0 <= w < m.len(),
        m[w].0@ == k,
    ensures
        exists|i: int| key_at(m, k, i),
    decreases w,
{
    if forall|j: int| 0 <= j < w ==> m[j].0@ != k {
        assert(key_at(m, k, w));
    } else {
        let j = choose|j: int| 0 <= j < w && m[j].0@ == k;
        lemma_first_below(m, k, j);
    }
}

/// A name that occurs has a first position.
pub proof fn lemma_key_at_exists<T>(m: Seq<(Identifier, T)>, k: Seq<char>)
    requires
        has_key(m, k),
    ensures
        exists|i: int| key_at(m, k, i),
{
    let w = choose|i: int| 0 <= i < m.len() && m[i].0@ == k;
    lemma_first_below(m, k, w);
}

/// The value at the first position of `k` is what `lookup` gives.
pub proof fn lemma_lookup_at<T>(m: Seq<(Identifier, T)>, k: Seq<char>, i: int)
    requires
        key_at(m, k, i),
    ensures
        lookup(m, k) == Some(m[i].1),
{
    assert(has_key(m, k));
    lemma_key_at_exists(m, k);
    let j = choose|j: int| key_at(m, k, j);
    if j < i {
        assert(m[j].0@ != k);
    }
    if i < j {
        assert(m[i].0@ != k);
    }
}

/// Finds the first entry named `k`.
pub fn find_key<T>(m: &Vec<(Identifier, T)>, k: &Identifier) -> (r: Option<usize>)
    ensures
        match r {
            Some(i) => key_at(m@, k@, i as int) && lookup(m@, k@) == Some(m@[i as int].1),
            None => !has_key(m@, k@) && lookup(m@, k@) == None::<T>,
        },
{
    let mut i: usize = 0;
    while i < m.len()
        invariant
            i <= m.len(),
            forall|j: int| 0 <= j < i ==> m@[j].0@ != k@,
        decreases m.len() - i,
    {
        if m[i].0.same(k) {
            proof {
                lemma_lookup_at(m@, k@, i as int);
            }
            return Some(i);
        }
        i = i + 1;
    }
    None
}

/// No name occurs twice among the entries.
pub open spec fn keys_distinct<T>(m: Seq<(Identifier, T)>) -> bool {
    forall|i: int, j: int| 0 <= i < j < m.len() ==> (#[trigger] m[i]).0@ != (#[trigger] m[j]).0@
}

/// Sets the value of the entry named `key`, as a map does: an entry of that name gets the
/// new value in its place and its old value is returned; otherwise the entry is added at the
/// end. Entries whose names were distinct stay distinct.
pub fn insert_entry<T>(m: &mut Vec<(Identifier, T)>, key: Identifier, value: T) -> (r: Option<T>)
    ensures
        match r {
            Some(old_value) => exists|i: int|
                #[trigger] key_at(old(m)@, key@, i) && old_value == old(m)@[i].1 && final(m)@ == old(m)@.update(
                    i,
                    (old(m)@[i].0, value),
                ),
            None => !has_key(old(m)@, key@) && final(m)@ == old(m)@.push((key, value)),
        },
        lookup(final(m)@, key@) == Some(value),
        keys_distinct(old(m)@) ==> keys_distinct(final(m)@),
{
    match find_key(m, &key) {
        Some(i) => {
            let ghost before = m@;
            let (name, old_value) = m.remove(i);
            m.insert(i, (name, value));
            proof {
                assert(m@ =~= before.update(i as int, (before[i as int].0, value)));
                assert(key_at(m@, key@, i as int));
                lemma_lookup_at(m@, key@, i as int);
                assert forall|a: int, b: int| keys_distinct(before) && 0 <= a < b < m@.len() implies (
                #[trigger] m@[a]).0@ != (#[trigger] m@[b]).0@ by {
                    assert(before[a].0 == m@[a].0 && before[b].0 == m@[b].0);
                }
            }
            Some(old_value)
        },
        None => {
            let ghost before = m@;
            m.push((key, value));
            proof {
                let n = before.len() as int;
                assert forall|j: int| 0 <= j < n implies m@[j].0@ != key@ by {
                    assert(m@[j] == before[j]);
                    if before[j].0@ == key@ {
                        assert(has_key(before, key@));
                    }
                }
                assert(key_at(m@, key@, n));
                lemma_lookup_at(m@, key@, n);
                assert forall|a: int, b: int| keys_distinct(before) && 0 <= a < b < m@.len() implies (
                #[trigger] m@[a]).0@ != (#[trigger] m@[b]).0@ by {
                    assert(m@[a] == before[a]);
                    if b < n {
                        assert(m@[b] == before[b]);
                    }
                }
            }
            None
        },
    }
}

/// Whether no name occurs twice among the entries.
pub fn has_distinct_keys<T>(m: &Vec<(Identifier, T)>) -> (r: bool)
    ensures
        r == keys_distinct(m@),
{
    let mut j: usize = 0;
    while j < m.len()
        invariant
            j <= m@.len(),
            forall|a: int, b: int| 0 <= a < b < j ==> (#[trigger] m@[a]).0@ != (#[trigger] m@[b]).0@,
        decreases m@.len() - j,
    {
        let mut i: usize = 0;
        while i < j
            invariant
                i <= j < m@.len(),
                forall|a: int| 0 <= a < i ==> m@[a].0@ != m@[j as int].0@,
            decreases j - i,
        {
            if m[i].0.same(&m[j].0) {
                assert(m@[i as int].0@ == m@[j as int].0@);
                return false;
            }
            i = i + 1;
        }
        j = j + 1;
    }
    true
}

/// What `f` gives for one element of `s` is part of `s.flat_map(f)`.
pub proof fn lemma_flat_map_has<A, B>(s: Seq<A>, f: spec_fn(A) -> Seq<B>, i: int, k: int)
    requires
        0 <= i < s.len(),
        0 <= k < f(s[i]).len(),
    ensures
        s.flat_map(f).contains(f(s[i])[k]),
    decreases s.len(),
{
    let rest = s.drop_last();
    rest.lemma_flat_map_push(f, s.last());
    assert(rest.push(s.last()) =~= s);
    let y = f(s[i])[k];
    if i < s.len() - 1 {
        assert(rest[i] == s[i]);
        lemma_flat_map_has(rest, f, i, k);
        let w = choose|w: int| 0 <= w < rest.flat_map(f).len() && rest.flat_map(f)[w] == y;
        assert(s.flat_map(f)[w] == y);
    } else {
        assert(s.flat_map(f)[rest.flat_map(f).len() + k] == y);
    }
}

/// What `f` keeps of one element of `s` is part of `s.filter_map(f)`.
pub proof fn lemma_filter_map_has<A, B>(s: Seq<A>, f: spec_fn(A) -> Option<B>, i: int)
    requires
        0 <= i < s.len(),
        f(s[i]) is Some,
    ensures
        s.filter_map(f).contains(f(s[i])->0),
    decreases s.len(),
{
    let rest = s.drop_last();
    let y = f(s[i])->0;
    if i < s.len() - 1 {
        assert(rest[i] == s[i]);
        lemma_filter_map_has(rest, f, i);
        let w = choose|w: int| 0 <= w < rest.filter_map(f).len() && rest.filter_map(f)[w] == y;
        if f(s.last()) is Some {
            assert(s.filter_map(f) == rest.filter_map(f) + seq![f(s.last())->0]);
        }
        assert(s.filter_map(f)[w] == y);
    } else {
        assert(s.filter_map(f) == rest.filter_map(f) + seq![y]);
        assert(s.filter_map(f)[rest.filter_map(f).len() as int] == y);
    }
}

/// Removing repetitions keeps every value.
pub proof fn lemma_dedup_keeps<T>(s: Seq<T>, x: T)
    requires
        s.contains(x),
    ensures
        dedup(s).contains(x),
    decreases s.len(),
{
    let rest = s.drop_last();
    let d = dedup(rest);
    if s.last() == x {
        if !d.contains(x) {
            assert(dedup(s) == d.push(x));
            assert(dedup(s)[d.len() as int] == x);
        }
    } else {
        let i = choose|i: int| 0 <= i < s.len() && s[i] == x;
        assert(rest[i] == x);
        lemma_dedup_keeps(rest, x);
        let w = choose|w: int| 0 <= w < d.len() && d[w] == x;
        if !d.contains(s.last()) {
            assert(dedup(s)[w] == x);
        }
    }
}

} // verus!
