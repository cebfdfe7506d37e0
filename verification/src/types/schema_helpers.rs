//! A set of values given in the config as one value or as a list.

use vstd::prelude::*;

verus! {

broadcast use vstd::seq_lib::group_seq_properties;

/// Values that can tell whether they stand for the same thing.
pub trait SameValue: Sized {
    /// What a value stands for.
    type Meaning;

    /// What this value stands for.
    spec fn meaning(&self) -> Self::Meaning;

    /// Whether `self` and `other` stand for the same thing.
    fn same_value(&self, other: &Self) -> (r: bool)
        ensures
            r == (self.meaning() == other.meaning());
}

/// No two values of `s` stand for the same thing.
pub open spec fn unique_views<T: SameValue>(s: Seq<T>) -> bool {
    forall|i: int, j: int| 0 <= i < j < s.len() ==> (#[trigger] s[i]).meaning() != (#[trigger] s[j]).meaning()
}

/// Some value of `s` stands for the same thing as `x`.
pub open spec fn has_view<T: SameValue>(s: Seq<T>, x: T) -> bool {
    exists|k: int| 0 <= k < s.len() && (#[trigger] s[k]).meaning() == x.meaning()
}

/// `s` without the values that stand for one seen before: each value kept at its first
/// position.
pub open spec fn dedup_views<T: SameValue>(s: Seq<T>) -> Seq<T>
    decreases s.len(),
{
    if s.len() == 0 {
        s
    } else {
        let d = dedup_views(s.drop_last());
        if has_view(d, s.last()) {
            d
        } else {
            d.push(s.last())
        }
    }
}

/// A set of values, given in the config either as a single value or as a list.
/// Built by `from_vec`, duplicates in the list count once; `is_unique` states that no value
/// occurs twice, and `has_unique_values` checks it.
#[derive(Debug, Clone)]
pub struct OneOrManyUnique<T>(pub Vec<T>);

impl<T> View for OneOrManyUnique<T> {
    type V = Seq<T>;

    open spec fn view(&self) -> Seq<T> {
        self.0@
    }
}

impl<T: SameValue> OneOrManyUnique<T> {
    /// No value occurs twice.
    pub open spec fn is_unique(&self) -> bool {
        unique_views(self@)
    }

    /// The empty set.
    pub fn new() -> (r: Self)
        ensures
            r@ == Seq::<T>::empty(),
            r.is_unique(),
    {
        OneOrManyUnique(Vec::new())
    }

    /// The set of the given values: each value once, at its first position.
    pub fn from_vec(items: Vec<T>) -> (r: Self)
        ensures
            r@ == dedup_views(items@),
            r.is_unique(),
    {
        let ghost s = items@;
        assert(items@.len() == items.len());
        let mut items = items;
        let mut out: Vec<T> = Vec::new();
        let mut k: usize = 0;
        while items.len() > 0
            invariant
                k <= s.len(),
                s.len() <= usize::MAX,
                items@ == s.skip(k as int),
                out@ == dedup_views(s.take(k as int)),
                unique_views(out@),
            decreases items@.len(),
        {
            let x = items.remove(0);
            assert(s.skip(k as int)[0] == s[k as int]);
            assert(items@ =~= s.skip(k + 1));
            assert(s.take(k + 1).drop_last() =~= s.take(k as int));
            assert(s.take(k + 1).last() == s[k as int]);
            let mut seen = false;
            let mut j: usize = 0;
            while j < out.len()
                invariant
                    j <= out@.len(),
                    seen == exists|m: int| 0 <= m < j && (#[trigger] out@[m]).meaning() == x.meaning(),
                decreases out@.len() - j,
            {
                if out[j].same_value(&x) {
                    seen = true;
                }
                j = j + 1;
            }
            assert(seen == has_view(out@, x));
            if !seen {
                let ghost ob = out@;
                out.push(x);
                assert forall|i: int, m: int| 0 <= i < m < out@.len() implies (#[trigger] out@[i]).meaning() != (
                #[trigger] out@[m]).meaning() by {
                    if m == ob.len() {
                        assert(out@[i] == ob[i]);
                    } else {
                        assert(out@[i] == ob[i] && out@[m] == ob[m]);
                    }
                }
            }
            k = k + 1;
        }
        assert(s.take(k as int) =~= s);
        OneOrManyUnique(out)
    }

    /// Whether no value occurs twice.
    pub fn has_unique_values(&self) -> (r: bool)
        ensures
            r == self.is_unique(),
    {
        let v = &self.0;
        let mut j: usize = 0;
        while j < v.len()
            invariant
                j <= v@.len(),
                v@ == self@,
                forall|a: int, b: int| 0 <= a < b < j ==> (#[trigger] v@[a]).meaning() != (#[trigger] v@[b]).meaning(),
            decreases v@.len() - j,
        {
            let mut i: usize = 0;
            while i < j
                invariant
                    i <= j < v@.len(),
                    v@ == self@,
                    forall|a: int| 0 <= a < i ==> v@[a].meaning() != v@[j as int].meaning(),
                decreases j - i,
            {
                if v[i].same_value(&v[j]) {
                    assert(self@[i as int].meaning() == self@[j as int].meaning());
                    assert(!unique_views(self@));
                    return false;
                }
                i = i + 1;
            }
            j = j + 1;
        }
        true
    }
}

impl<T> OneOrManyUnique<T> {
    /// The number of values.
    pub fn len(&self) -> (r: usize)
        ensures
            r == self@.len(),
    {
        self.0.len()
    }

    /// Whether there is no value.
    pub fn is_empty(&self) -> (r: bool)
        ensures
            r == (self@.len() == 0),
    {
        self.0.len() == 0
    }

    /// The values.
    pub fn items(&self) -> (r: &Vec<T>)
        ensures
            r@ == self@,
    {
        &self.0
    }
}

impl<T> Default for OneOrManyUnique<T> {
    fn default() -> (r: Self)
        ensures
            r@ == Seq::<T>::empty(),
    {
        OneOrManyUnique(Vec::new())
    }
}

} // verus!
