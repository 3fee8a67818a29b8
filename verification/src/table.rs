//! Small tables keyed by text, and searching in sequences.
use crate::text::same_text;
use vstd::prelude::*;
use vstd::string::*;

verus! {

/// The index of the first item with a property.
pub open spec fn first_where<T>(s: Seq<T>, p: spec_fn(T) -> bool) -> Option<int>
    decreases s.len(),
{
    if s.len() == 0 {
        None
    } else if p(s[0]) {
        Some(0)
    } else {
        match first_where(s.drop_first(), p) {
            Some(i) => Some(i + 1),
            None => None,
        }
    }
}

pub proof fn lemma_first_where<T>(s: Seq<T>, p: spec_fn(T) -> bool)
    ensures
        match first_where(s, p) {
            Some(i) => 0 <= i < s.len() && p(s[i]) && forall|j: int| 0 <= j < i ==> !p(#[trigger] s[j]),
            None => forall|j: int| 0 <= j < s.len() ==> !p(#[trigger] s[j]),
        },
    decreases s.len(),
{
    if s.len() > 0 && !p(s[0]) {
        let rest = s.drop_first();
        lemma_first_where(rest, p);
        assert forall|j: int|
            0 < j < s.len() && (first_where(s, p) is None || j < first_where(s, p)->0) implies !p(
            #[trigger] s[j],
        ) by {
            assert(rest[j - 1] == s[j]);
        }
    }
}

pub proof fn lemma_first_where_is<T>(s: Seq<T>, p: spec_fn(T) -> bool, i: int)
    requires
        0 <= i < s.len(),
        p(s[i]),
        forall|j: int| 0 <= j < i ==> !p(#[trigger] s[j]),
    ensures
        first_where(s, p) == Some(i),
{
    lemma_first_where(s, p);
}

pub proof fn lemma_first_where_none<T>(s: Seq<T>, p: spec_fn(T) -> bool)
    requires
        forall|j: int| 0 <= j < s.len() ==> !p(#[trigger] s[j]),
    ensures
        first_where(s, p) is None,
{
    lemma_first_where(s, p);
}

/// The index of the last item with a property.
pub open spec fn last_where<T>(s: Seq<T>, p: spec_fn(T) -> bool) -> Option<int>
    decreases s.len(),
{
    if s.len() == 0 {
        None
    } else if p(s.last()) {
        Some(s.len() - 1)
    } else {
        last_where(s.drop_last(), p)
    }
}

pub proof fn lemma_last_where<T>(s: Seq<T>, p: spec_fn(T) -> bool)
    ensures
        match last_where(s, p) {
            Some(i) => 0 <= i < s.len() && p(s[i]) && forall|j: int| i < j < s.len() ==> !p(#[trigger] s[j]),
            None => forall|j: int| 0 <= j < s.len() ==> !p(#[trigger] s[j]),
        },
    decreases s.len(),
{
    if s.len() > 0 && !p(s.last()) {
        let rest = s.drop_last();
        lemma_last_where(rest, p);
        assert forall|j: int|
            0 <= j < s.len() && (last_where(s, p) is None || j > last_where(s, p)->0) implies !p(
            #[trigger] s[j],
        ) by {
            if j < rest.len() {
                assert(rest[j] == s[j]);
            }
        }
    }
}

pub proof fn lemma_last_where_is<T>(s: Seq<T>, p: spec_fn(T) -> bool, i: int)
    requires
        0 <= i < s.len(),
        p(s[i]),
        forall|j: int| i < j < s.len() ==> !p(#[trigger] s[j]),
    ensures
        last_where(s, p) == Some(i),
{
    lemma_last_where(s, p);
}

pub proof fn lemma_last_where_none<T>(s: Seq<T>, p: spec_fn(T) -> bool)
    requires
        forall|j: int| 0 <= j < s.len() ==> !p(#[trigger] s[j]),
    ensures
        last_where(s, p) is None,
{
    lemma_last_where(s, p);
}

/// The value under a key.
pub open spec fn lookup<W>(s: Seq<(Seq<char>, W)>, key: Seq<char>) -> Option<W>
    decreases s.len(),
{
    if s.len() == 0 {
        None
    } else if s[0].0 == key {
        Some(s[0].1)
    } else {
        lookup(s.drop_first(), key)
    }
}

/// Whether there is a value under a key.
pub open spec fn has_key<W>(s: Seq<(Seq<char>, W)>, key: Seq<char>) -> bool {
    lookup(s, key) is Some
}

/// The table with a value under a key: in place of the one that was there, or
/// at the end.
pub open spec fn put<W>(s: Seq<(Seq<char>, W)>, key: Seq<char>, value: W) -> Seq<(Seq<char>, W)>
    decreases s.len(),
{
    if s.len() == 0 {
        seq![(key, value)]
    } else if s[0].0 == key {
        s.update(0, (key, value))
    } else {
        seq![s[0]] + put(s.drop_first(), key, value)
    }
}

/// The table without a key.
pub open spec fn without<W>(s: Seq<(Seq<char>, W)>, key: Seq<char>) -> Seq<(Seq<char>, W)>
    decreases s.len(),
{
    if s.len() == 0 {
        s
    } else if s[0].0 == key {
        without(s.drop_first(), key)
    } else {
        seq![s[0]] + without(s.drop_first(), key)
    }
}

/// Taking one entry with a key out first changes nothing.
proof fn lemma_without_remove<W>(s: Seq<(Seq<char>, W)>, key: Seq<char>, i: int)
    requires
        0 <= i < s.len(),
        s[i].0 == key,
    ensures
        without(s.remove(i), key) == without(s, key),
    decreases s.len(),
{
    if i == 0 {
        assert(s.remove(0) =~= s.drop_first());
    } else {
        lemma_without_remove(s.drop_first(), key, i - 1);
        assert(s.remove(i).drop_first() =~= s.drop_first().remove(i - 1));
        assert(s.remove(i)[0] == s[0]);
    }
}

/// Taking out a key that is not there changes nothing.
pub proof fn lemma_without_absent<W>(s: Seq<(Seq<char>, W)>, key: Seq<char>)
    requires
        lookup(s, key) is None,
    ensures
        without(s, key) == s,
    decreases s.len(),
{
    if s.len() > 0 {
        lemma_without_absent(s.drop_first(), key);
        assert(seq![s[0]] + s.drop_first() =~= s);
    }
}

/// No key stands twice in the table.
pub open spec fn distinct_keys<W>(s: Seq<(Seq<char>, W)>) -> bool {
    forall|i: int, j: int| 0 <= i < j < s.len() ==> (#[trigger] s[i]).0 != (#[trigger] s[j]).0
}

pub proof fn lemma_lookup<W>(s: Seq<(Seq<char>, W)>, key: Seq<char>)
    ensures
        lookup(s, key) is None <==> forall|i: int| 0 <= i < s.len() ==> (#[trigger] s[i]).0 != key,
        lookup(s, key) matches Some(v) ==> exists|i: int| 0 <= i < s.len() && #[trigger] s[i] == (key, v),
    decreases s.len(),
{
    if s.len() > 0 {
        lemma_lookup(s.drop_first(), key);
        if s[0].0 != key {
            let rest = s.drop_first();
            assert forall|i: int| 0 <= i < s.len() && lookup(rest, key) is None implies (
            #[trigger] s[i]).0 != key by {
                if i > 0 {
                    assert(rest[i - 1] == s[i]);
                }
            }
            if lookup(rest, key) is Some {
                let i = choose|i: int|
                    0 <= i < rest.len() && #[trigger] rest[i] == (key, lookup(rest, key)->0);
                assert(s[i + 1] == rest[i]);
            }
        } else {
            assert(s[0] == (key, s[0].1));
        }
    }
}

/// What was put under a key is found there, other keys are not touched, and a
/// key that was taken out is not found.
pub proof fn lemma_put_lookup<W>(s: Seq<(Seq<char>, W)>, key: Seq<char>, value: W, other: Seq<char>)
    ensures
        lookup(put(s, key, value), key) == Some(value),
        other != key ==> lookup(put(s, key, value), other) == lookup(s, other),
        lookup(without(s, key), key) is None,
        other != key ==> lookup(without(s, key), other) == lookup(s, other),
    decreases s.len(),
{
    if s.len() > 0 {
        let rest = s.drop_first();
        lemma_put_lookup(rest, key, value, other);
        if s[0].0 == key {
            let t = s.update(0, (key, value));
            assert(t.drop_first() =~= rest);
        } else {
            let t = seq![s[0]] + put(rest, key, value);
            assert(t.drop_first() =~= put(rest, key, value));
            let u = seq![s[0]] + without(rest, key);
            assert(u.drop_first() =~= without(rest, key));
        }
    } else {
        let t = seq![(key, value)];
        assert(t[0] == (key, value));
        assert(t.drop_first() =~= s);
    }
}

/// Putting and taking out keep keys distinct.
pub proof fn lemma_distinct_keys<W>(s: Seq<(Seq<char>, W)>, key: Seq<char>, value: W)
    requires
        distinct_keys(s),
    ensures
        distinct_keys(put(s, key, value)),
        distinct_keys(without(s, key)),
    decreases s.len(),
{
    if s.len() > 0 {
        let rest = s.drop_first();
        assert(distinct_keys(rest)) by {
            assert forall|i: int, j: int| 0 <= i < j < rest.len() implies (#[trigger] rest[i]).0 != (
            #[trigger] rest[j]).0 by {
                assert(rest[i] == s[i + 1] && rest[j] == s[j + 1]);
            }
        }
        lemma_distinct_keys(rest, key, value);
        assert(lookup(rest, s[0].0) is None) by {
            lemma_lookup(rest, s[0].0);
            assert forall|i: int| 0 <= i < rest.len() implies (#[trigger] rest[i]).0 != s[0].0 by {
                assert(rest[i] == s[i + 1]);
            }
        }
        if s[0].0 != key {
            lemma_put_lookup(rest, key, value, s[0].0);
            lemma_lookup(put(rest, key, value), s[0].0);
            lemma_lookup(without(rest, key), s[0].0);
        }
    }
}

/// A table from texts to values, each key at most once.
#[derive(Debug, PartialEq)]
pub struct Table<T> {
    pub entries: Vec<(String, T)>,
}

impl<T: DeepView> DeepView for Table<T> {
    type V = Seq<(Seq<char>, T::V)>;

    open spec fn deep_view(&self) -> Seq<(Seq<char>, T::V)> {
        self.entries.deep_view()
    }
}

impl<T: DeepView> Table<T> {
    pub fn new() -> (r: Self)
        ensures
            r.deep_view() == Seq::<(Seq<char>, T::V)>::empty(),
            distinct_keys(r.deep_view()),
    {
        let r = Table { entries: Vec::new() };
        assert(r.entries.deep_view() =~= Seq::<(Seq<char>, T::V)>::empty());
        r
    }

    pub fn len(&self) -> (r: usize)
        ensures
            r == self.deep_view().len(),
    {
        self.entries.len()
    }

    pub fn is_empty(&self) -> (r: bool)
        ensures
            r == (self.deep_view().len() == 0),
    {
        self.entries.len() == 0
    }

    pub fn clear(&mut self)
        ensures
            final(self).deep_view() == Seq::<(Seq<char>, T::V)>::empty(),
            distinct_keys(final(self).deep_view()),
    {
        self.entries.clear();
        assert(self.entries.deep_view() =~= Seq::<(Seq<char>, T::V)>::empty());
    }

    /// Where a key stands.
    pub fn index_of(&self, key: &str) -> (r: Option<usize>)
        ensures
            match r {
                Some(i) => {
                    &&& i < self.deep_view().len()
                    &&& self.deep_view()[i as int].0 == key@
                    &&& lookup(self.deep_view(), key@) == Some(self.deep_view()[i as int].1)
                    &&& forall|w: T::V|
                        #[trigger] put(self.deep_view(), key@, w) == self.deep_view().update(
                            i as int,
                            (key@, w),
                        )
                },
                None => {
                    &&& lookup(self.deep_view(), key@) is None
                    &&& forall|w: T::V|
                        #[trigger] put(self.deep_view(), key@, w) == self.deep_view().push((key@, w))
                },
            },
    {
        let ghost all = self.deep_view();
        let mut i: usize = 0;
        assert(all.skip(0) =~= all);
        assert forall|w: T::V| #[trigger] put(all, key@, w) == all.take(0) + put(all.skip(0), key@, w) by {
            assert(all.take(0) + put(all.skip(0), key@, w) =~= put(all, key@, w));
        }
        while i < self.entries.len()
            invariant
                i <= self.entries@.len(),
                all == self.deep_view(),
                all == self.entries.deep_view(),
                lookup(all, key@) == lookup(all.skip(i as int), key@),
                forall|w: T::V|
                    #[trigger] put(all, key@, w) == all.take(i as int) + put(
                        all.skip(i as int),
                        key@,
                        w,
                    ),
            decreases self.entries@.len() - i,
        {
            let ghost rest = all.skip(i as int);
            assert(rest[0] == all[i as int]);
            assert(all[i as int].0 == self.entries@[i as int].0@);
            if same_text(self.entries[i].0.as_str(), key) {
                assert forall|w: T::V| #[trigger] put(all, key@, w) == all.update(i as int, (key@, w)) by {
                    assert(all.take(i as int) + rest.update(0, (key@, w)) =~= all.update(
                        i as int,
                        (key@, w),
                    ));
                }
                return Some(i);
            }
            assert(rest.drop_first() =~= all.skip(i as int + 1));
            assert forall|w: T::V| #[trigger] put(all, key@, w) == all.take(i as int + 1) + put(
                all.skip(i as int + 1),
                key@,
                w,
            ) by {
                assert(all.take(i as int) + (seq![rest[0]] + put(rest.drop_first(), key@, w))
                    =~= all.take(i as int + 1) + put(all.skip(i as int + 1), key@, w));
            }
            i += 1;
        }
        assert(all.skip(i as int).len() == 0);
        assert(all.take(i as int) =~= all);
        assert forall|w: T::V| #[trigger] put(all, key@, w) == all.push((key@, w)) by {
            assert(all + seq![(key@, w)] =~= all.push((key@, w)));
        }
        None
    }

    pub fn get(&self, key: &str) -> (r: Option<&T>)
        ensures
            r.deep_view() == lookup(self.deep_view(), key@),
    {
        match self.index_of(key) {
            Some(i) => Some(&self.entries[i].1),
            None => None,
        }
    }

    pub fn contains_key(&self, key: &str) -> (r: bool)
        ensures
            r == has_key(self.deep_view(), key@),
    {
        match self.index_of(key) {
            Some(_) => true,
            None => false,
        }
    }

    pub fn insert(&mut self, key: String, value: T)
        ensures
            final(self).deep_view() == put(old(self).deep_view(), key@, value.deep_view()),
            distinct_keys(old(self).deep_view()) ==> distinct_keys(final(self).deep_view()),
    {
        let ghost before = self.deep_view();
        proof {
            if distinct_keys(before) {
                lemma_distinct_keys(before, key@, value.deep_view());
            }
        }
        match self.index_of(key.as_str()) {
            Some(i) => {
                self.entries.set(i, (key, value));
                assert(self.deep_view() =~= before.update(i as int, (key@, value.deep_view())));
            },
            None => {
                self.entries.push((key, value));
                assert(self.deep_view() =~= before.push((key@, value.deep_view())));
            },
        }
    }

    /// Takes a key out with its value.
    pub fn take(&mut self, key: &str) -> (r: Option<T>)
        ensures
            final(self).deep_view() == without(old(self).deep_view(), key@),
            r.deep_view() == lookup(old(self).deep_view(), key@),
            r is None ==> final(self).deep_view() == old(self).deep_view(),
            distinct_keys(old(self).deep_view()) ==> distinct_keys(final(self).deep_view()),
    {
        proof {
            if distinct_keys(self.deep_view()) && self.deep_view().len() > 0 {
                lemma_distinct_keys(self.deep_view(), key@, self.deep_view()[0].1);
            }
        }
        let ghost before = self.deep_view();
        let found = match self.index_of(key) {
            Some(i) => {
                let entry = self.entries.remove(i);
                proof {
                    assert(self.deep_view() =~= before.remove(i as int));
                    lemma_without_remove(before, key@, i as int);
                }
                Some(entry.1)
            },
            None => {
                proof {
                    lemma_without_absent(before, key@);
                }
                None
            },
        };
        self.remove(key);
        found
    }

    pub fn remove(&mut self, key: &str)
        ensures
            final(self).deep_view() == without(old(self).deep_view(), key@),
            distinct_keys(old(self).deep_view()) ==> distinct_keys(final(self).deep_view()),
    {
        let ghost before = self.deep_view();
        proof {
            if distinct_keys(before) && before.len() > 0 {
                lemma_distinct_keys(before, key@, before[0].1);
            }
        }
        let mut i: usize = 0;
        assert(before.skip(0) =~= before);
        assert(before.take(0) + without(before, key@) =~= without(before, key@));
        while i < self.entries.len()
            invariant
                i <= self.entries@.len(),
                without(before, key@) == self.deep_view().take(i as int) + without(
                    self.deep_view().skip(i as int),
                    key@,
                ),
            decreases self.entries@.len() - i,
        {
            let ghost now = self.deep_view();
            let ghost rest = now.skip(i as int);
            assert(rest[0] == now[i as int]);
            assert(now[i as int].0 == self.entries@[i as int].0@);
            if same_text(self.entries[i].0.as_str(), key) {
                let _gone = self.entries.remove(i);
                proof {
                    assert(self.deep_view() =~= now.remove(i as int));
                    assert(self.deep_view().take(i as int) =~= now.take(i as int));
                    assert(self.deep_view().skip(i as int) =~= rest.drop_first());
                }
            } else {
                proof {
                    assert(now.skip(i as int + 1) =~= rest.drop_first());
                    assert(now.take(i as int) + (seq![rest[0]] + without(rest.drop_first(), key@))
                        =~= now.take(i as int + 1) + without(now.skip(i as int + 1), key@));
                }
                i += 1;
            }
        }
        proof {
            assert(self.deep_view().skip(i as int).len() == 0);
            assert(self.deep_view().take(i as int) =~= self.deep_view());
            assert(self.deep_view() + without(self.deep_view().skip(i as int), key@)
                =~= self.deep_view());
        }
    }
}

} // verus!
