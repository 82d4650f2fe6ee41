//! Sorting that keeps equals in their order, and the order of texts.
use vstd::prelude::*;

use crate::text::chars_of;

verus! {

/// `s`, which is sorted, with `x` put behind everything that does not come
/// after it.
pub open spec fn inserted<T>(s: Seq<T>, x: T, less: spec_fn(T, T) -> bool) -> Seq<T>
    decreases s.len(),
{
    if s.len() > 0 && less(x, s.last()) {
        inserted(s.drop_last(), x, less).push(s.last())
    } else {
        s.push(x)
    }
}

/// `s` sorted by `less`; elements of which neither is less keep their order.
pub open spec fn sorted<T>(s: Seq<T>, less: spec_fn(T, T) -> bool) -> Seq<T>
    decreases s.len(),
{
    if s.len() == 0 {
        Seq::empty()
    } else {
        inserted(sorted(s.drop_last(), less), s.last(), less)
    }
}

/// Whether no element is less than one before it.
pub open spec fn in_order<T>(s: Seq<T>, less: spec_fn(T, T) -> bool) -> bool {
    forall|i: int, j: int| 0 <= i < j < s.len() ==> !less(#[trigger] s[j], #[trigger] s[i])
}

/// Whether `less` can be sorted by: it is asymmetric, and what is not less is
/// transitive.
pub open spec fn is_order<T>(less: spec_fn(T, T) -> bool) -> bool {
    &&& forall|a: T, b: T| #[trigger] less(a, b) ==> !less(b, a)
    &&& forall|a: T, b: T, c: T| !#[trigger] less(b, a) && !#[trigger] less(c, b) ==> !less(c, a)
}

proof fn lemma_inserted<T>(s: Seq<T>, x: T, less: spec_fn(T, T) -> bool)
    ensures
        inserted(s, x, less).len() == s.len() + 1,
        inserted(s, x, less).to_multiset() == s.to_multiset().insert(x),
        is_order(less) && in_order(s, less) ==> in_order(inserted(s, x, less), less),
        forall|i: int|
            0 <= i < inserted(s, x, less).len() ==> (#[trigger] inserted(s, x, less)[i]) == x
                || s.contains(inserted(s, x, less)[i]),
    decreases s.len(),
{
    broadcast use vstd::seq_lib::group_to_multiset_ensures;

    let r = inserted(s, x, less);
    if s.len() > 0 && less(x, s.last()) {
        let t = s.drop_last();
        lemma_inserted(t, x, less);
        let m = inserted(t, x, less);
        assert(s =~= t.push(s.last()));
        assert(r.to_multiset() =~= s.to_multiset().insert(x));
        assert forall|i: int| 0 <= i < r.len() implies (#[trigger] r[i]) == x || s.contains(
            r[i],
        ) by {
            if i < m.len() {
                assert(r[i] == m[i]);
                if m[i] != x {
                    let k = choose|k: int| 0 <= k < t.len() && t[k] == m[i];
                    assert(s[k] == r[i]);
                }
            } else {
                assert(s[s.len() - 1] == r[i]);
            }
        }
        if is_order(less) && in_order(s, less) {
            assert forall|i: int, j: int| 0 <= i < j < t.len() implies !less(
                #[trigger] t[j],
                #[trigger] t[i],
            ) by {
                assert(t[i] == s[i] && t[j] == s[j]);
            }
            assert forall|i: int, j: int| 0 <= i < j < r.len() implies !less(
                #[trigger] r[j],
                #[trigger] r[i],
            ) by {
                if j < m.len() {
                    assert(r[i] == m[i] && r[j] == m[j]);
                } else {
                    assert(r[i] == m[i]);
                    assert(r[j] == s.last());
                    if m[i] == x {
                        assert(less(x, s.last()));
                    } else {
                        let k = choose|k: int| 0 <= k < t.len() && t[k] == m[i];
                        assert(s[k] == m[i]);
                        assert(!less(s[s.len() - 1], s[k]));
                    }
                }
            }
        }
    } else {
        assert forall|i: int| 0 <= i < r.len() implies (#[trigger] r[i]) == x || s.contains(
            r[i],
        ) by {
            if i < s.len() {
                assert(s[i] == r[i]);
            }
        }
        if is_order(less) && in_order(s, less) {
            assert forall|i: int, j: int| 0 <= i < j < r.len() implies !less(
                #[trigger] r[j],
                #[trigger] r[i],
            ) by {
                if j < s.len() {
                    assert(!less(s[j], s[i]));
                } else {
                    assert(!less(x, s.last()));
                    if i < s.len() - 1 {
                        assert(!less(s[s.len() - 1], s[i]));
                    }
                }
            }
        }
    }
}

/// Sorting gives the same elements, in order.
pub proof fn law_sorted<T>(s: Seq<T>, less: spec_fn(T, T) -> bool)
    ensures
        sorted(s, less).len() == s.len(),
        sorted(s, less).to_multiset() == s.to_multiset(),
        is_order(less) ==> in_order(sorted(s, less), less),
    decreases s.len(),
{
    broadcast use vstd::seq_lib::group_to_multiset_ensures;

    if s.len() > 0 {
        law_sorted(s.drop_last(), less);
        lemma_inserted(sorted(s.drop_last(), less), s.last(), less);
        assert(s =~= s.drop_last().push(s.last()));
    } else {
        assert(s =~= Seq::<T>::empty());
    }
}

proof fn lemma_inserted_through<T, U>(
    s: Seq<T>,
    x: T,
    less: spec_fn(T, T) -> bool,
    f: spec_fn(T) -> U,
    shown: spec_fn(U, U) -> bool,
)
    requires
        forall|a: T, b: T| #[trigger] less(a, b) == shown(f(a), f(b)),
    ensures
        inserted(s, x, less).map_values(f) == inserted(s.map_values(f), f(x), shown),
    decreases s.len(),
{
    if s.len() > 0 && less(x, s.last()) {
        let t = s.drop_last();
        lemma_inserted_through(t, x, less, f, shown);
        assert(s.map_values(f).drop_last() =~= t.map_values(f));
        assert(inserted(t, x, less).push(s.last()).map_values(f) =~= inserted(
            t,
            x,
            less,
        ).map_values(f).push(f(s.last())));
    } else {
        assert(s.push(x).map_values(f) =~= s.map_values(f).push(f(x)));
        if s.len() > 0 {
            assert(s.map_values(f).last() == f(s.last()));
            assert(less(x, s.last()) == shown(f(x), f(s.last())));
        }
    }
}

/// Sorting by what `f` shows of the elements sorts what `f` shows.
pub proof fn lemma_sorted_through<T, U>(
    s: Seq<T>,
    less: spec_fn(T, T) -> bool,
    f: spec_fn(T) -> U,
    shown: spec_fn(U, U) -> bool,
)
    requires
        forall|a: T, b: T| #[trigger] less(a, b) == shown(f(a), f(b)),
    ensures
        sorted(s, less).map_values(f) == sorted(s.map_values(f), shown),
    decreases s.len(),
{
    if s.len() > 0 {
        lemma_sorted_through(s.drop_last(), less, f, shown);
        assert(s.map_values(f).drop_last() =~= s.drop_last().map_values(f));
        lemma_inserted_through(sorted(s.drop_last(), less), s.last(), less, f, shown);
    } else {
        assert(sorted(s, less).map_values(f) =~= Seq::<U>::empty());
    }
}

proof fn lemma_inserted_at<T>(s: Seq<T>, x: T, less: spec_fn(T, T) -> bool, p: int)
    requires
        0 <= p <= s.len(),
        forall|i: int| p <= i < s.len() ==> less(x, #[trigger] s[i]),
        p > 0 ==> !less(x, s[p - 1]),
    ensures
        inserted(s, x, less) == s.insert(p, x),
    decreases s.len() - p,
{
    if p < s.len() {
        assert(less(x, s.last()));
        let t = s.drop_last();
        assert forall|i: int| p <= i < t.len() implies less(x, #[trigger] t[i]) by {
            assert(t[i] == s[i]);
        }
        lemma_inserted_at(t, x, less, p);
        assert(t.insert(p, x).push(s.last()) =~= s.insert(p, x));
    } else {
        assert(s.push(x) =~= s.insert(p, x));
    }
}

/// Sorts `items` by `before`, which decides `less`.
pub(crate) fn sort_by<T, F: Fn(&T, &T) -> bool>(
    items: Vec<T>,
    before: F,
    Ghost(less): Ghost<spec_fn(T, T) -> bool>,
) -> (r: Vec<T>)
    requires
        forall|a: &T, b: &T| #[trigger] before.requires((a, b)),
        forall|a: &T, b: &T, c: bool| #[trigger] before.ensures((a, b), c) ==> c == less(*a, *b),
    ensures
        r@ == sorted(items@, less),
{
    let ghost all = items@;
    let mut rest: Vec<T> = items;
    let mut out: Vec<T> = Vec::new();
    let ghost mut done: int = 0;
    assert(all.skip(0) =~= all);
    while rest.len() > 0
        invariant
            0 <= done <= all.len(),
            rest@ == all.skip(done),
            out@ == sorted(all.take(done), less),
            forall|a: &T, b: &T| #[trigger] before.requires((a, b)),
            forall|a: &T, b: &T, c: bool|
                #[trigger] before.ensures((a, b), c) ==> c == less(*a, *b),
        decreases rest.len(),
    {
        let item: T = rest.remove(0);
        let ghost x = item;
        assert(x == all[done]);
        let mut p: usize = out.len();
        while p > 0 && before(&item, &out[p - 1])
            invariant
                p <= out.len(),
                item == x,
                forall|i: int| p <= i < out@.len() ==> less(x, #[trigger] out@[i]),
                forall|a: &T, b: &T| #[trigger] before.requires((a, b)),
                forall|a: &T, b: &T, c: bool|
                    #[trigger] before.ensures((a, b), c) ==> c == less(*a, *b),
            decreases p,
        {
            p -= 1;
        }
        proof {
            lemma_inserted_at(out@, x, less, p as int);
            assert(all.take(done + 1).drop_last() =~= all.take(done));
            assert(all.take(done + 1).last() == x);
            assert(rest@ =~= all.skip(done + 1));
            done = done + 1;
        }
        out.insert(p, item);
    }
    assert(all.take(all.len() as int) =~= all);
    assert(done == all.len());
    out
}

/// Whether text `a` comes before text `b`: at the first difference, the smaller
/// character decides, and a text comes before its continuations.
pub open spec fn text_less(a: Seq<char>, b: Seq<char>) -> bool
    decreases a.len(),
{
    if b.len() == 0 {
        false
    } else if a.len() == 0 {
        true
    } else if a[0] != b[0] {
        a[0] < b[0]
    } else {
        text_less(a.drop_first(), b.drop_first())
    }
}

proof fn lemma_text_less_asymmetric(a: Seq<char>, b: Seq<char>)
    ensures
        text_less(a, b) ==> !text_less(b, a),
        !text_less(a, b) && !text_less(b, a) ==> a == b,
    decreases a.len(),
{
    if a.len() > 0 && b.len() > 0 && a[0] == b[0] {
        lemma_text_less_asymmetric(a.drop_first(), b.drop_first());
        if a.drop_first() == b.drop_first() {
            assert(a =~= seq![a[0]] + a.drop_first());
            assert(b =~= seq![b[0]] + b.drop_first());
        }
    } else if a.len() == 0 && b.len() == 0 {
        assert(a =~= b);
    }
}

proof fn lemma_text_less_transitive(a: Seq<char>, b: Seq<char>, c: Seq<char>)
    ensures
        text_less(a, b) && text_less(b, c) ==> text_less(a, c),
    decreases a.len(),
{
    if a.len() > 0 && b.len() > 0 && c.len() > 0 {
        lemma_text_less_transitive(a.drop_first(), b.drop_first(), c.drop_first());
    }
}

/// The order of texts is total, and can be sorted by.
pub proof fn law_text_order(a: Seq<char>, b: Seq<char>, c: Seq<char>)
    ensures
        text_less(a, b) ==> !text_less(b, a),
        text_less(a, b) || text_less(b, a) || a == b,
        !text_less(b, a) && !text_less(c, b) ==> !text_less(c, a),
{
    lemma_text_less_asymmetric(a, b);
    lemma_text_less_asymmetric(b, c);
    lemma_text_less_asymmetric(a, c);
    lemma_text_less_transitive(a, b, c);
    lemma_text_less_transitive(c, a, b);
}

/// Whether text `a` comes before text `b`.
pub fn text_before(a: &str, b: &str) -> (r: bool)
    ensures
        r == text_less(a@, b@),
{
    let x: Vec<char> = chars_of(a);
    let y: Vec<char> = chars_of(b);
    let mut i: usize = 0;
    assert(x@.skip(0) =~= x@);
    assert(y@.skip(0) =~= y@);
    while i < x.len() && i < y.len()
        invariant
            i <= x.len(),
            i <= y.len(),
            x@ == a@,
            y@ == b@,
            text_less(a@, b@) == text_less(x@.skip(i as int), y@.skip(i as int)),
        decreases x.len() - i,
    {
        assert(x@.skip(i as int).drop_first() =~= x@.skip(i + 1));
        assert(y@.skip(i as int).drop_first() =~= y@.skip(i + 1));
        if x[i] != y[i] {
            return x[i] < y[i];
        }
        i += 1;
    }
    i < y.len()
}

} // verus!
