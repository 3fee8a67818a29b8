//! Stable sorting, stated as repeated insertion, and the order of texts.
use crate::text::{chars_of, text_less};
use vstd::prelude::*;
use vstd::string::*;

verus! {

/// The sequence with `x` put behind everything that is not greater.
pub open spec fn insert_by<T>(sorted: Seq<T>, x: T, less: spec_fn(T, T) -> bool) -> Seq<T>
    decreases sorted.len(),
{
    if sorted.len() > 0 && less(x, sorted.last()) {
        insert_by(sorted.drop_last(), x, less).push(sorted.last())
    } else {
        sorted.push(x)
    }
}

/// The sequence sorted; equal items keep their order.
pub open spec fn sorted_by<T>(s: Seq<T>, less: spec_fn(T, T) -> bool) -> Seq<T>
    decreases s.len(),
{
    if s.len() == 0 {
        s
    } else {
        insert_by(sorted_by(s.drop_last(), less), s.last(), less)
    }
}

/// Insertion at the place behind the last item that is not greater.
pub proof fn lemma_insert_by<T>(sorted: Seq<T>, x: T, less: spec_fn(T, T) -> bool, at: int)
    requires
        0 <= at <= sorted.len(),
        forall|j: int| at <= j < sorted.len() ==> less(x, #[trigger] sorted[j]),
        at > 0 ==> !less(x, sorted[at - 1]),
    ensures
        insert_by(sorted, x, less) == sorted.insert(at, x),
    decreases sorted.len(),
{
    if at == sorted.len() {
        assert(sorted.insert(at, x) =~= sorted.push(x));
    } else {
        assert(less(x, sorted[sorted.len() - 1]));
        let rest = sorted.drop_last();
        assert forall|j: int| at <= j < rest.len() implies less(x, #[trigger] rest[j]) by {
            assert(rest[j] == sorted[j]);
        }
        lemma_insert_by(rest, x, less, at);
        assert(rest.insert(at, x).push(sorted.last()) =~= sorted.insert(at, x));
    }
}

/// Whether no item comes before one that is less than it.
pub open spec fn is_sorted<T>(s: Seq<T>, less: spec_fn(T, T) -> bool) -> bool {
    forall|i: int, j: int| 0 <= i < j < s.len() ==> !less(#[trigger] s[j], #[trigger] s[i])
}

/// A strict order in which being no less is transitive.
pub open spec fn is_strict_order<T>(less: spec_fn(T, T) -> bool) -> bool {
    &&& forall|a: T, b: T| #[trigger] less(a, b) ==> !less(b, a)
    &&& forall|a: T, b: T, c: T|
        !(#[trigger] less(b, a)) && !(#[trigger] less(c, b)) ==> !less(c, a)
}

proof fn lemma_insert_by_sorted<T>(s: Seq<T>, x: T, less: spec_fn(T, T) -> bool)
    requires
        is_strict_order(less),
        is_sorted(s, less),
    ensures
        is_sorted(insert_by(s, x, less), less),
        insert_by(s, x, less).len() == s.len() + 1,
        insert_by(s, x, less).to_multiset() == s.to_multiset().insert(x),
        forall|k: int|
            0 <= k <= s.len() ==> #[trigger] insert_by(s, x, less)[k] == x || s.contains(
                insert_by(s, x, less)[k],
            ),
    decreases s.len(),
{
    broadcast use vstd::seq_lib::group_to_multiset_ensures;

    if s.len() > 0 && less(x, s.last()) {
        let rest = s.drop_last();
        assert(is_sorted(rest, less));
        lemma_insert_by_sorted(rest, x, less);
        let inner = insert_by(rest, x, less);
        let all = inner.push(s.last());
        assert forall|i: int, j: int| 0 <= i < j < all.len() implies !less(
            #[trigger] all[j],
            #[trigger] all[i],
        ) by {
            if j == inner.len() {
                if inner[i] == x {
                    assert(less(x, s.last()));
                } else {
                    let k = choose|k: int| 0 <= k < rest.len() && rest[k] == inner[i];
                    assert(s[k] == inner[i]);
                }
            } else {
                assert(inner[j] == all[j] && inner[i] == all[i]);
            }
        }
        assert forall|k: int| 0 <= k <= s.len() implies all[k] == x || s.contains(all[k]) by {
            if k < inner.len() {
                assert(all[k] == inner[k]);
                if inner[k] != x {
                    let m = choose|m: int| 0 <= m < rest.len() && rest[m] == inner[k];
                    assert(s[m] == all[k]);
                }
            } else {
                assert(s[s.len() - 1] == all[k]);
            }
        }
        assert(rest.push(s.last()) =~= s);
        assert(all.to_multiset() =~= s.to_multiset().insert(x));
    } else {
        let all = s.push(x);
        assert forall|i: int, j: int| 0 <= i < j < all.len() implies !less(
            #[trigger] all[j],
            #[trigger] all[i],
        ) by {
            if j == s.len() {
                if i < s.len() - 1 {
                    assert(!less(s[s.len() - 1], s[i]));
                    assert(!less(x, s.last()));
                }
            }
        }
        assert forall|k: int| 0 <= k <= s.len() implies all[k] == x || s.contains(all[k]) by {
            if k < s.len() {
                assert(s[k] == all[k]);
            }
        }
    }
}

/// Sorting gives a sorted sequence of the same items.
pub proof fn lemma_sorted_by<T>(s: Seq<T>, less: spec_fn(T, T) -> bool)
    requires
        is_strict_order(less),
    ensures
        is_sorted(sorted_by(s, less), less),
        sorted_by(s, less).to_multiset() == s.to_multiset(),
        sorted_by(s, less).len() == s.len(),
    decreases s.len(),
{
    broadcast use vstd::seq_lib::group_to_multiset_ensures;

    if s.len() > 0 {
        lemma_sorted_by(s.drop_last(), less);
        lemma_insert_by_sorted(sorted_by(s.drop_last(), less), s.last(), less);
        assert(s.drop_last().push(s.last()) =~= s);
    }
}

/// The order of texts is a strict order.
pub proof fn lemma_text_less_strict(a: Seq<char>, b: Seq<char>, c: Seq<char>)
    ensures
        text_less(a, b) ==> !text_less(b, a),
        !text_less(b, a) && !text_less(c, b) ==> !text_less(c, a),
        !text_less(a, b) && !text_less(b, a) ==> a == b,
    decreases a.len(),
{
    if a.len() > 0 && b.len() > 0 && c.len() > 0 {
        lemma_text_less_strict(a.drop_first(), b.drop_first(), c.drop_first());
    } else if a.len() > 0 && b.len() > 0 {
        lemma_text_less_strict(a.drop_first(), b.drop_first(), c);
    }
    if a.len() > 0 && b.len() > 0 && a[0] == b[0] && a.drop_first() == b.drop_first() {
        assert(a =~= seq![a[0]] + a.drop_first());
        assert(b =~= seq![b[0]] + b.drop_first());
    }
    if a.len() == 0 && b.len() == 0 {
        assert(a =~= b);
    }
}

/// What comes before a text comes before all that the text comes before.
pub proof fn lemma_text_less_joins(a: Seq<char>, b: Seq<char>, c: Seq<char>)
    requires
        text_less(a, b),
        text_less(b, c),
    ensures
        text_less(a, c),
{
    lemma_text_less_strict(a, b, c);
    lemma_text_less_strict(b, c, a);
    lemma_text_less_strict(a, c, b);
}

/// Whether the first text comes before the second.
pub fn text_before(a: &str, b: &str) -> (r: bool)
    ensures
        r == text_less(a@, b@),
{
    let x = chars_of(a);
    let y = chars_of(b);
    let mut i: usize = 0;
    assert(a@.skip(0) =~= a@ && b@.skip(0) =~= b@);
    while i < x.len() && i < y.len()
        invariant
            i <= x@.len(),
            i <= y@.len(),
            x@ == a@,
            y@ == b@,
            text_less(a@, b@) == text_less(a@.skip(i as int), b@.skip(i as int)),
        decreases x@.len() - i,
    {
        assert(a@.skip(i as int)[0] == x@[i as int] && b@.skip(i as int)[0] == y@[i as int]);
        if x[i] != y[i] {
            return x[i] < y[i];
        }
        assert(a@.skip(i as int).drop_first() =~= a@.skip(i as int + 1));
        assert(b@.skip(i as int).drop_first() =~= b@.skip(i as int + 1));
        i += 1;
    }
    i < y.len()
}

} // verus!
