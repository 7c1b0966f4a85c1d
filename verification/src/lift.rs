//! Lifting items of a stack above those that they have to lie above, where they do
//! not lie there yet.

use vstd::prelude::*;

verus! {

/// The items that have to lie above `y`.
pub open spec fn over_it<T>(over: spec_fn(T, T) -> bool, y: T) -> spec_fn(T) -> bool {
    |x: T| over(x, y)
}

/// The items below the topmost one that may stay below it.
pub open spec fn staying<T>(s: Seq<T>, over: spec_fn(T, T) -> bool) -> Seq<T> {
    let it = over_it(over, s.last());
    s.drop_last().filter(|x: T| !it(x))
}

/// The items below the topmost one that have to lie above it.
pub open spec fn following<T>(s: Seq<T>, over: spec_fn(T, T) -> bool) -> Seq<T> {
    s.drop_last().filter(over_it(over, s.last()))
}

/// The stack with every item that lies below one that it has to lie above moved
/// up, to right above the highest such one; all others stay in their order. Where
/// several items move up to one place, the same holds among them.
pub open spec fn lifted<T>(s: Seq<T>, over: spec_fn(T, T) -> bool) -> Seq<T>
    decreases s.len(),
{
    if s.len() == 0 {
        Seq::empty()
    } else {
        proof {
            lemma_parts_are_shorter(s, over);
        }
        lifted(staying(s, over), over).push(s.last()) + lifted(following(s, over), over)
    }
}

/// Which item has to lie above which is a strict order.
pub open spec fn strict<T>(s: Seq<T>, over: spec_fn(T, T) -> bool) -> bool {
    &&& forall|x: T, y: T| #[trigger]
        s.contains(x) && #[trigger] s.contains(y) ==> !(over(x, y) && over(y, x))
    &&& forall|x: T, y: T, z: T| #[trigger]
        s.contains(x) && #[trigger] s.contains(y) && #[trigger] s.contains(z) && over(x, y)
            && over(y, z) ==> over(x, z)
}

/// No item lies below one that it has to lie above.
pub open spec fn settled<T>(s: Seq<T>, over: spec_fn(T, T) -> bool) -> bool {
    forall|i: int, j: int|
        0 <= i < j < s.len() ==> !over(#[trigger] s[i], #[trigger] s[j])
}

/// Both parts below the topmost item are shorter than the whole.
pub proof fn lemma_parts_are_shorter<T>(s: Seq<T>, over: spec_fn(T, T) -> bool)
    requires
        s.len() > 0,
    ensures
        staying(s, over).len() < s.len(),
        following(s, over).len() < s.len(),
{
    crate::stack::lemma_filter_split(s.drop_last(), over_it(over, s.last()));
}

/// What the two parts hold.
proof fn lemma_parts_hold<T>(s: Seq<T>, over: spec_fn(T, T) -> bool)
    requires
        s.len() > 0,
    ensures
        forall|x: T| #[trigger]
            staying(s, over).contains(x) <==> s.drop_last().contains(x) && !over(x, s.last()),
        forall|x: T| #[trigger]
            following(s, over).contains(x) <==> s.drop_last().contains(x) && over(x, s.last()),
        forall|x: T| #[trigger] s.drop_last().contains(x) ==> s.contains(x),
        s.contains(s.last()),
        forall|x: T| #[trigger] s.contains(x) ==> x == s.last() || s.drop_last().contains(x),
{
    let it = over_it(over, s.last());
    let rest = s.drop_last();
    crate::stack::lemma_filter_holds(rest, it);
    crate::stack::lemma_filter_holds(rest, |x: T| !it(x));
    assert forall|x: T| #[trigger] rest.contains(x) implies s.contains(x) by {
        let i = choose|i: int| 0 <= i < rest.len() && rest[i] == x;
        assert(s[i] == x);
    }
    assert(s[s.len() - 1] == s.last());
    assert forall|x: T| #[trigger] s.contains(x) implies x == s.last() || rest.contains(x) by {
        let i = choose|i: int| 0 <= i < s.len() && s[i] == x;
        if i < rest.len() {
            assert(rest[i] == x);
        }
    }
}

/// The order of the items carries over to parts of the stack.
proof fn lemma_strict_in_part<T>(s: Seq<T>, part: Seq<T>, over: spec_fn(T, T) -> bool)
    requires
        strict(s, over),
        forall|x: T| #[trigger] part.contains(x) ==> s.contains(x),
    ensures
        strict(part, over),
{
}

/// Lifting loses no item and adds none.
pub proof fn lemma_lifted_permutes<T>(s: Seq<T>, over: spec_fn(T, T) -> bool)
    ensures
        lifted(s, over).to_multiset() == s.to_multiset(),
        lifted(s, over).len() == s.len(),
        forall|x: T| #[trigger] lifted(s, over).contains(x) <==> s.contains(x),
    decreases s.len(),
{
    broadcast use vstd::seq_lib::group_to_multiset_ensures;

    let r = lifted(s, over);
    if s.len() > 0 {
        let low = staying(s, over);
        let high = following(s, over);
        let last = s.last();
        lemma_parts_are_shorter(s, over);
        lemma_lifted_permutes(low, over);
        lemma_lifted_permutes(high, over);
        crate::stack::lemma_filter_split(s.drop_last(), over_it(over, last));
        vstd::seq_lib::lemma_multiset_commutative(
            lifted(low, over).push(last),
            lifted(high, over),
        );
        assert(s.drop_last().push(last) =~= s);
        assert(r.to_multiset() =~= s.to_multiset());
    } else {
        assert(r =~= s);
    }
    assert(r.to_multiset().len() == r.len());
    assert(s.to_multiset().len() == s.len());
    assert forall|x: T| #[trigger] r.contains(x) <==> s.contains(x) by {
        assert(r.to_multiset().count(x) > 0 <==> r.contains(x));
        assert(s.to_multiset().count(x) > 0 <==> s.contains(x));
    }
}

/// After lifting no item lies below one that it has to lie above.
pub proof fn lemma_lifted_settles<T>(s: Seq<T>, over: spec_fn(T, T) -> bool)
    requires
        strict(s, over),
    ensures
        settled(lifted(s, over), over),
    decreases s.len(),
{
    if s.len() > 0 {
        let low = staying(s, over);
        let high = following(s, over);
        let last = s.last();
        let a = lifted(low, over);
        let b = lifted(high, over);
        let r = lifted(s, over);
        lemma_parts_are_shorter(s, over);
        lemma_parts_hold(s, over);
        lemma_strict_in_part(s, low, over);
        lemma_strict_in_part(s, high, over);
        lemma_lifted_settles(low, over);
        lemma_lifted_settles(high, over);
        lemma_lifted_permutes(low, over);
        lemma_lifted_permutes(high, over);
        assert forall|i: int, j: int| 0 <= i < j < r.len() implies !over(
            #[trigger] r[i],
            #[trigger] r[j],
        ) by {
            let x = r[i];
            let y = r[j];
            if i < a.len() {
                assert(x == a[i]);
                assert(a.contains(x));
                assert(low.contains(x));
            }
            if j > a.len() {
                assert(y == b[j - a.len() - 1]);
                assert(b.contains(y));
                assert(high.contains(y));
            }
            if j < a.len() {
                assert(!over(a[i], a[j]));
            } else if i > a.len() {
                assert(!over(b[i - a.len() - 1], b[j - a.len() - 1]));
            } else {
                assert(s.contains(x) && s.contains(y) && s.contains(last));
            }
        }
    }
}

/// Where no item lies below one that it has to lie above, lifting changes nothing.
pub proof fn lemma_settled_stays<T>(s: Seq<T>, over: spec_fn(T, T) -> bool)
    requires
        settled(s, over),
    ensures
        lifted(s, over) == s,
    decreases s.len(),
{
    if s.len() > 0 {
        let rest = s.drop_last();
        let it = over_it(over, s.last());
        assert forall|i: int| 0 <= i < rest.len() implies !it(#[trigger] rest[i]) by {
            assert(!over(s[i], s[s.len() - 1]));
        }
        crate::stack::lemma_filter_all_or_none(rest, it);
        crate::stack::lemma_filter_all_or_none(rest, |x: T| !it(x));
        assert(settled(rest, over)) by {
            assert forall|i: int, j: int| 0 <= i < j < rest.len() implies !over(
                #[trigger] rest[i],
                #[trigger] rest[j],
            ) by {
                assert(!over(s[i], s[j]));
            }
        }
        lemma_settled_stays(rest, over);
        assert(lifted(following(s, over), over) =~= Seq::<T>::empty());
        assert(lifted(s, over) =~= s);
    } else {
        assert(lifted(s, over) =~= s);
    }
}

/// An item stays below another one unless it has to lie above that one, or above
/// one that lies above that one.
pub proof fn lemma_lifted_keeps<T>(s: Seq<T>, over: spec_fn(T, T) -> bool, x: T, y: T)
    requires
        crate::stack::precedes(s, x, y),
        !over(x, y),
        forall|z: T| #[trigger] s.contains(z) && over(x, z) ==> crate::stack::precedes(s, z, y),
        forall|i: int, j: int|
            0 <= i < j < s.len() ==> #[trigger] s[i] != #[trigger] s[j],
    ensures
        crate::stack::precedes(lifted(s, over), x, y),
    decreases s.len(),
{
    let low = staying(s, over);
    let high = following(s, over);
    let last = s.last();
    let rest = s.drop_last();
    let it = over_it(over, last);
    let not_it = |v: T| !it(v);
    let (i, j) = choose|i: int, j: int|
        0 <= i < j < s.len() && #[trigger] s[i] == x && #[trigger] s[j] == y;
    assert(rest[i] == x);
    lemma_parts_are_shorter(s, over);
    lemma_parts_hold(s, over);
    lemma_lifted_permutes(low, over);
    lemma_lifted_permutes(high, over);
    if over(x, last) {
        assert(s.contains(last));
        let (m, k) = choose|m: int, k: int|
            0 <= m < k < s.len() && #[trigger] s[m] == last && #[trigger] s[k] == y;
        assert(s[m] != s[s.len() - 1]);
    }
    assert(low.contains(x)) by {
        assert(rest.contains(x));
    }
    if y == last {
        let top = seq![y];
        assert(top[0] == y);
        crate::stack::lemma_precedes_across(lifted(low, over), top, x, y);
        assert(lifted(low, over).push(last) =~= lifted(low, over) + top);
        crate::stack::lemma_precedes_in_part(
            lifted(low, over).push(last),
            lifted(high, over),
            x,
            y,
        );
    } else {
        assert(j < rest.len()) by {
            assert(s[s.len() - 1] == last);
        }
        assert(rest[j] == y);
        assert(rest.contains(y));
        if over(y, last) {
            assert(high.contains(y));
            let a = lifted(low, over);
            assert(a.contains(x));
            let p = choose|p: int| 0 <= p < a.len() && a[p] == x;
            assert(a.push(last)[p] == x);
            crate::stack::lemma_precedes_across(a.push(last), lifted(high, over), x, y);
        } else {
            assert(crate::stack::precedes(rest, x, y));
            crate::stack::lemma_filter_precedes(rest, not_it, x, y);
            assert forall|z: T| #[trigger] low.contains(z) && over(x, z) implies
                crate::stack::precedes(low, z, y) by {
                assert(s.contains(z));
                let (m, k) = choose|m: int, k: int|
                    0 <= m < k < s.len() && #[trigger] s[m] == z && #[trigger] s[k] == y;
                assert(k < rest.len()) by {
                    assert(s[s.len() - 1] == last);
                }
                assert(rest[m] == z && rest[k] == y);
                assert(crate::stack::precedes(rest, z, y));
                crate::stack::lemma_filter_precedes(rest, not_it, z, y);
            }
            lemma_part_is_distinct(s, not_it);
            lemma_lifted_keeps(low, over, x, y);
            let top = seq![last];
            crate::stack::lemma_precedes_in_part(lifted(low, over), top, x, y);
            assert(lifted(low, over).push(last) =~= lifted(low, over) + top);
            crate::stack::lemma_precedes_in_part(
                lifted(low, over).push(last),
                lifted(high, over),
                x,
                y,
            );
        }
    }
}

/// Different items are different in every part.
proof fn lemma_part_is_distinct<T>(s: Seq<T>, p: spec_fn(T) -> bool)
    requires
        s.len() > 0,
        forall|i: int, j: int|
            0 <= i < j < s.len() ==> #[trigger] s[i] != #[trigger] s[j],
    ensures
        forall|i: int, j: int|
            0 <= i < j < s.drop_last().filter(p).len() ==> #[trigger] s.drop_last().filter(p)[i]
                != #[trigger] s.drop_last().filter(p)[j],
{
    let rest = s.drop_last();
    assert(rest.no_duplicates());
    lemma_filter_distinct(rest, p);
}

/// Filtering makes no duplicates.
proof fn lemma_filter_distinct<T>(s: Seq<T>, p: spec_fn(T) -> bool)
    requires
        s.no_duplicates(),
    ensures
        s.filter(p).no_duplicates(),
    decreases s.len(),
{
    reveal(Seq::filter);
    if s.len() > 0 {
        let rest = s.drop_last();
        lemma_filter_distinct(rest, p);
        crate::stack::lemma_filter_holds(rest, p);
        assert forall|i: int| 0 <= i < rest.filter(p).len() implies #[trigger] rest.filter(p)[i]
            != s.last() by {
            assert(rest.filter(p).contains(rest.filter(p)[i]));
            let k = choose|k: int| 0 <= k < rest.len() && rest[k] == rest.filter(p)[i];
            assert(s[k] != s[s.len() - 1]);
        }
    }
}

// ---------------------------------------------------------------------------
// Lifting after sorting by key
// ---------------------------------------------------------------------------

/// The last item with the highest key stands at `t`.
spec fn top_at<T>(u: Seq<T>, key: spec_fn(T) -> int, t: int) -> bool {
    &&& 0 <= t < u.len()
    &&& forall|i: int| 0 <= i < u.len() ==> key(#[trigger] u[i]) <= key(u[t])
    &&& forall|i: int| t < i < u.len() ==> key(#[trigger] u[i]) < key(u[t])
}

/// The last item with the highest key stands at `t`, and above it lies exactly what
/// has to lie there.
spec fn parted_at<T>(
    u: Seq<T>,
    over: spec_fn(T, T) -> bool,
    key: spec_fn(T) -> int,
    t: int,
) -> bool {
    &&& top_at(u, key, t)
    &&& forall|i: int| 0 <= i < t ==> !over(#[trigger] u[i], u[t])
    &&& forall|i: int| t < i < u.len() ==> over(#[trigger] u[i], u[t])
}

/// Above the last item with the highest key lies exactly what has to lie there, and
/// so on below and above it.
spec fn layered<T>(u: Seq<T>, over: spec_fn(T, T) -> bool, key: spec_fn(T) -> int) -> bool
    decreases u.len(),
{
    u.len() == 0 || exists|t: int|
        {
            &&& #[trigger] parted_at(u, over, key, t)
            &&& 0 <= t < u.len()
            &&& layered(u.take(t), over, key)
            &&& layered(u.skip(t + 1), over, key)
        }
}

/// An item with the highest key of all can be put on top after sorting the rest.
proof fn lemma_by_key_without_top<T>(u: Seq<T>, key: spec_fn(T) -> int, t: int, n: int)
    requires
        top_at(u, key, t),
        0 <= key(u[t]) < n,
    ensures
        crate::stack::by_key(u, key, n) == crate::stack::by_key(
            u.take(t) + u.skip(t + 1),
            key,
            key(u[t]) + 1,
        ).push(u[t]),
    decreases n,
{
    let rest = u.take(t) + u.skip(t + 1);
    let k = key(u[t]);
    let here = crate::stack::has_key(key, n - 1);
    if n - 1 > k {
        lemma_by_key_without_top(u, key, t, n - 1);
        crate::stack::lemma_filter_all_or_none(u, here);
        assert(crate::stack::by_key(u, key, n) =~= crate::stack::by_key(u, key, n - 1));
    } else {
        lemma_by_key_skips(u, key, t, k);
        lemma_filter_parts(u, t, here);
        let above = u.skip(t + 1);
        assert forall|i: int| 0 <= i < above.len() implies !here(#[trigger] above[i]) by {
            assert(above[i] == u[t + 1 + i]);
        }
        crate::stack::lemma_filter_all_or_none(above, here);
        assert(crate::stack::by_key(u, key, n) =~= crate::stack::by_key(rest, key, n).push(u[t]));
    }
}

/// Filtering a list part by part.
proof fn lemma_filter_parts<T>(u: Seq<T>, t: int, p: spec_fn(T) -> bool)
    requires
        0 <= t < u.len(),
    ensures
        u.filter(p) == u.take(t).filter(p) + (if p(u[t]) {
            seq![u[t]]
        } else {
            Seq::empty()
        }) + u.skip(t + 1).filter(p),
        (u.take(t) + u.skip(t + 1)).filter(p) == u.take(t).filter(p) + u.skip(t + 1).filter(p),
{
    let low = u.take(t);
    let it = seq![u[t]];
    let high = u.skip(t + 1);
    assert(u =~= low + it + high);
    Seq::<T>::filter_distributes_over_add(low + it, high, p);
    Seq::<T>::filter_distributes_over_add(low, it, p);
    Seq::<T>::filter_distributes_over_add(low, high, p);
    crate::stack::lemma_filter_all_or_none(it, p);
    assert(it[0] == u[t]);
}

/// Sorting by lower keys does not see an item with a higher one.
proof fn lemma_by_key_skips<T>(u: Seq<T>, key: spec_fn(T) -> int, t: int, n: int)
    requires
        0 <= t < u.len(),
        n <= key(u[t]),
    ensures
        crate::stack::by_key(u, key, n) == crate::stack::by_key(
            u.take(t) + u.skip(t + 1),
            key,
            n,
        ),
    decreases n,
{
    if n > 0 {
        lemma_by_key_skips(u, key, t, n - 1);
        lemma_filter_parts(u, t, crate::stack::has_key(key, n - 1));
        assert(u.filter(crate::stack::has_key(key, n - 1)) =~= (u.take(t) + u.skip(
            t + 1,
        )).filter(crate::stack::has_key(key, n - 1)));
    }
}

/// Sorting and filtering can change places.
proof fn lemma_by_key_filter<T>(
    s: Seq<T>,
    key: spec_fn(T) -> int,
    n: int,
    q: spec_fn(T) -> bool,
)
    ensures
        crate::stack::by_key(s, key, n).filter(q) == crate::stack::by_key(s.filter(q), key, n),
    decreases n,
{
    if n <= 0 {
        crate::stack::lemma_filter_all_or_none(Seq::<T>::empty(), q);
        assert(Seq::<T>::empty().filter(q) =~= Seq::<T>::empty());
    } else {
        let it = crate::stack::has_key(key, n - 1);
        let both = |x: T| it(x) && q(x);
        lemma_by_key_filter(s, key, n - 1, q);
        Seq::<T>::filter_distributes_over_add(
            crate::stack::by_key(s, key, n - 1),
            s.filter(it),
            q,
        );
        crate::stack::lemma_filter_filter(s, it, q, both);
        crate::stack::lemma_filter_filter(s, q, it, both);
    }
}

/// Sorting by key makes the parts around the last item with the highest key the
/// parts below the topmost one.
proof fn lemma_parts_sorted<T>(
    u: Seq<T>,
    over: spec_fn(T, T) -> bool,
    key: spec_fn(T) -> int,
    t: int,
    n: int,
)
    requires
        parted_at(u, over, key, t),
        0 <= key(u[t]) < n,
    ensures
        ({
            let sorted = crate::stack::by_key(u, key, n);
            let m = key(u[t]) + 1;
            &&& sorted.len() > 0
            &&& sorted.last() == u[t]
            &&& staying(sorted, over) == crate::stack::by_key(u.take(t), key, m)
            &&& following(sorted, over) == crate::stack::by_key(u.skip(t + 1), key, m)
        }),
{
    let sorted = crate::stack::by_key(u, key, n);
    let low = u.take(t);
    let high = u.skip(t + 1);
    let rest = low + high;
    let m = key(u[t]) + 1;
    let it = over_it(over, u[t]);
    let not_it = |x: T| !it(x);
    lemma_by_key_without_top(u, key, t, n);
    assert(sorted.last() == u[t]);
    assert(sorted.drop_last() =~= crate::stack::by_key(rest, key, m));
    assert forall|i: int| 0 <= i < low.len() implies !it(#[trigger] low[i]) by {
        assert(low[i] == u[i]);
    }
    assert forall|i: int| 0 <= i < high.len() implies it(#[trigger] high[i]) by {
        assert(high[i] == u[t + 1 + i]);
    }
    crate::stack::lemma_filter_all_or_none(low, it);
    crate::stack::lemma_filter_all_or_none(low, not_it);
    crate::stack::lemma_filter_all_or_none(high, it);
    crate::stack::lemma_filter_all_or_none(high, not_it);
    lemma_filter_parts(u, t, it);
    lemma_filter_parts(u, t, not_it);
    assert(rest.filter(it) =~= high);
    assert(rest.filter(not_it) =~= low);
    lemma_by_key_filter(rest, key, m, it);
    lemma_by_key_filter(rest, key, m, not_it);
}

/// A layered stack comes back when it is sorted by key and lifted.
proof fn lemma_layered_comes_back<T>(
    u: Seq<T>,
    over: spec_fn(T, T) -> bool,
    key: spec_fn(T) -> int,
    n: int,
)
    requires
        n >= 0,
        layered(u, over, key),
        crate::stack::keys_within(u, key, n),
    ensures
        lifted(crate::stack::by_key(u, key, n), over) == u,
    decreases u.len(),
{
    let sorted = crate::stack::by_key(u, key, n);
    if u.len() == 0 {
        crate::stack::lemma_by_key_permutes(u, key, n);
        assert(lifted(sorted, over) =~= u);
    } else {
        let t = choose|t: int|
            {
                &&& #[trigger] parted_at(u, over, key, t)
                &&& 0 <= t < u.len()
                &&& layered(u.take(t), over, key)
                &&& layered(u.skip(t + 1), over, key)
            };
        let low = u.take(t);
        let high = u.skip(t + 1);
        let m = key(u[t]) + 1;
        lemma_parts_sorted(u, over, key, t, n);
        assert(crate::stack::keys_within(low, key, m)) by {
            assert forall|i: int| 0 <= i < low.len() implies 0 <= key(#[trigger] low[i]) < m by {
                assert(low[i] == u[i]);
            }
        }
        assert(crate::stack::keys_within(high, key, m)) by {
            assert forall|i: int| 0 <= i < high.len() implies 0 <= key(#[trigger] high[i]) < m by {
                assert(high[i] == u[t + 1 + i]);
            }
        }
        lemma_layered_comes_back(low, over, key, m);
        lemma_layered_comes_back(high, over, key, m);
        assert(lifted(sorted, over) == low.push(u[t]) + high);
        assert(low.push(u[t]) + high =~= u);
    }
}

/// Two layered parts stay so around an item with the highest key, above which the
/// upper one has to lie and the lower one has not.
proof fn lemma_layered_around<T>(
    a: Seq<T>,
    r: T,
    b: Seq<T>,
    over: spec_fn(T, T) -> bool,
    key: spec_fn(T) -> int,
)
    requires
        layered(a, over, key),
        layered(b, over, key),
        strict(a.push(r) + b, over),
        forall|i: int| 0 <= i < a.len() ==> key(#[trigger] a[i]) <= key(r) && !over(a[i], r),
        forall|i: int| 0 <= i < b.len() ==> key(#[trigger] b[i]) <= key(r) && over(b[i], r),
    ensures
        layered(a.push(r) + b, over, key),
    decreases b.len(),
{
    let u = a.push(r) + b;
    let n = a.len() as int;
    assert(forall|i: int| 0 <= i < n ==> u[i] == a[i]);
    assert(u[n] == r);
    assert(forall|i: int| 0 <= i < b.len() ==> u[n + 1 + i] == #[trigger] b[i]);
    if exists|i: int| 0 <= i < b.len() && key(#[trigger] b[i]) == key(r) {
        let e = choose|i: int| 0 <= i < b.len() && key(#[trigger] b[i]) == key(r);
        let tb = choose|t: int|
            {
                &&& #[trigger] parted_at(b, over, key, t)
                &&& 0 <= t < b.len()
                &&& layered(b.take(t), over, key)
                &&& layered(b.skip(t + 1), over, key)
            };
        let t = n + 1 + tb;
        let top = b[tb];
        assert(key(b[e]) <= key(top));
        assert(u[t] == top);
        assert forall|i: int| 0 <= i < u.len() implies key(#[trigger] u[i]) <= key(u[t]) by {
            if i > n {
                assert(u[i] == b[i - n - 1]);
            }
        }
        assert forall|i: int| t < i < u.len() implies key(#[trigger] u[i]) < key(u[t]) && over(
            u[i],
            u[t],
        ) by {
            assert(u[i] == b[i - n - 1]);
        }
        assert(top_at(u, key, t));
        assert(u.contains(top) && u.contains(r)) by {
            assert(u[t] == top && u[n] == r);
        }
        assert(over(top, r));
        assert forall|i: int| 0 <= i < t implies !over(#[trigger] u[i], u[t]) by {
            assert(u.contains(u[i]));
            if i < n {
                assert(!over(a[i], r));
            } else if i > n {
                assert(u[i] == b[i - n - 1]);
            }
        }
        assert(parted_at(u, over, key, t));
        let part = b.take(tb);
        assert(u.take(t) =~= a.push(r) + part);
        assert(u.skip(t + 1) =~= b.skip(tb + 1));
        assert forall|x: T| #[trigger] u.take(t).contains(x) implies u.contains(x) by {
            let i = choose|i: int| 0 <= i < u.take(t).len() && u.take(t)[i] == x;
            assert(u[i] == x);
        }
        lemma_strict_in_part(u, u.take(t), over);
        assert forall|i: int| 0 <= i < part.len() implies key(#[trigger] part[i]) <= key(r)
            && over(part[i], r) by {
            assert(part[i] == b[i]);
        }
        lemma_layered_around(a, r, part, over, key);
        assert(layered(u, over, key));
    } else {
        assert forall|i: int| n < i < u.len() implies key(#[trigger] u[i]) < key(r) && over(
            u[i],
            r,
        ) by {
            assert(u[i] == b[i - n - 1]);
        }
        assert(parted_at(u, over, key, n));
        assert(u.take(n) =~= a);
        assert(u.skip(n + 1) =~= b);
        assert(layered(u, over, key));
    }
}

/// Lifting a stack that is sorted by key makes it layered.
proof fn lemma_lifted_is_layered<T>(
    s: Seq<T>,
    over: spec_fn(T, T) -> bool,
    key: spec_fn(T) -> int,
)
    requires
        strict(s, over),
        forall|i: int, j: int|
            0 <= i < j < s.len() ==> key(#[trigger] s[i]) <= key(#[trigger] s[j]),
    ensures
        layered(lifted(s, over), over, key),
    decreases s.len(),
{
    if s.len() > 0 {
        let low = staying(s, over);
        let high = following(s, over);
        let last = s.last();
        let rest = s.drop_last();
        let it = over_it(over, last);
        let a = lifted(low, over);
        let b = lifted(high, over);
        lemma_parts_are_shorter(s, over);
        lemma_parts_hold(s, over);
        lemma_strict_in_part(s, low, over);
        lemma_strict_in_part(s, high, over);
        lemma_filter_ascends(rest, it, key);
        lemma_filter_ascends(rest, |x: T| !it(x), key);
        lemma_lifted_is_layered(low, over, key);
        lemma_lifted_is_layered(high, over, key);
        lemma_lifted_permutes(low, over);
        lemma_lifted_permutes(high, over);
        lemma_lifted_permutes(s, over);
        lemma_strict_in_part(s, lifted(s, over), over);
        assert forall|x: T| #[trigger] rest.contains(x) implies key(x) <= key(last) by {
            let i = choose|i: int| 0 <= i < rest.len() && rest[i] == x;
            assert(key(s[i]) <= key(s[s.len() - 1]));
        }
        assert forall|i: int| 0 <= i < a.len() implies key(#[trigger] a[i]) <= key(last) && !over(
            a[i],
            last,
        ) by {
            assert(a.contains(a[i]));
            assert(low.contains(a[i]));
        }
        assert forall|i: int| 0 <= i < b.len() implies key(#[trigger] b[i]) <= key(last) && over(
            b[i],
            last,
        ) by {
            assert(b.contains(b[i]));
            assert(high.contains(b[i]));
        }
        lemma_layered_around(a, last, b, over, key);
    }
}

/// Filtering keeps keys ascending.
proof fn lemma_filter_ascends<T>(s: Seq<T>, p: spec_fn(T) -> bool, key: spec_fn(T) -> int)
    requires
        forall|i: int, j: int|
            0 <= i < j < s.len() ==> key(#[trigger] s[i]) <= key(#[trigger] s[j]),
    ensures
        forall|i: int, j: int|
            0 <= i < j < s.filter(p).len() ==> key(#[trigger] s.filter(p)[i]) <= key(
                #[trigger] s.filter(p)[j],
            ),
    decreases s.len(),
{
    reveal(Seq::filter);
    if s.len() > 0 {
        let rest = s.drop_last();
        lemma_filter_ascends(rest, p, key);
        crate::stack::lemma_filter_holds(rest, p);
        assert forall|i: int| 0 <= i < rest.filter(p).len() implies key(
            #[trigger] rest.filter(p)[i],
        ) <= key(s.last()) by {
            assert(rest.filter(p).contains(rest.filter(p)[i]));
            let k = choose|k: int| 0 <= k < rest.len() && rest[k] == rest.filter(p)[i];
            assert(key(s[k]) <= key(s[s.len() - 1]));
        }
    }
}

/// Sorting by key and lifting twice is the same as doing both once.
pub proof fn lemma_sorted_and_lifted_twice<T>(
    s: Seq<T>,
    over: spec_fn(T, T) -> bool,
    key: spec_fn(T) -> int,
    n: int,
)
    requires
        n >= 0,
        strict(s, over),
        crate::stack::keys_within(s, key, n),
    ensures
        ({
            let once = lifted(crate::stack::by_key(s, key, n), over);
            lifted(crate::stack::by_key(once, key, n), over) == once
        }),
{
    let sorted = crate::stack::by_key(s, key, n);
    let once = lifted(sorted, over);
    crate::stack::lemma_by_key_ascends(s, key, n);
    assert forall|x: T| #[trigger] sorted.contains(x) implies s.contains(x) && 0 <= key(x) < n by {
        let i = choose|i: int| 0 <= i < sorted.len() && sorted[i] == x;
        assert(s.contains(sorted[i]));
    }
    lemma_strict_in_part(s, sorted, over);
    lemma_lifted_is_layered(sorted, over, key);
    lemma_lifted_permutes(sorted, over);
    assert forall|i: int| 0 <= i < once.len() implies 0 <= key(#[trigger] once[i]) < n by {
        assert(once.contains(once[i]));
        assert(sorted.contains(once[i]));
    }
    lemma_layered_comes_back(once, over, key, n);
}

} // verus!
