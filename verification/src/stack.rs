//! Stable reordering of a stack whose last item is the topmost.

use vstd::prelude::*;

verus! {

/// The stack after every item with property `p` was raised above all others;
/// among themselves both groups keep their order.
pub open spec fn to_top<T>(stack: Seq<T>, p: spec_fn(T) -> bool) -> Seq<T> {
    stack.filter(|x: T| !p(x)) + stack.filter(p)
}

/// The first item with property `p` stands at `i`.
pub open spec fn first_at<T>(s: Seq<T>, p: spec_fn(T) -> bool, i: int) -> bool {
    &&& 0 <= i < s.len()
    &&& p(s[i])
    &&& forall|j: int| 0 <= j < i ==> !p(#[trigger] s[j])
}

/// The first item with property `p`.
pub open spec fn first_of<T>(s: Seq<T>, p: spec_fn(T) -> bool) -> Option<T> {
    if exists|i: int| first_at(s, p, i) {
        Some(s[choose|i: int| first_at(s, p, i)])
    } else {
        None
    }
}

/// The last item with property `p` stands at `i`.
pub open spec fn last_at<T>(s: Seq<T>, p: spec_fn(T) -> bool, i: int) -> bool {
    &&& 0 <= i < s.len()
    &&& p(s[i])
    &&& forall|j: int| i < j < s.len() ==> !p(#[trigger] s[j])
}

/// The last item with property `p`.
pub open spec fn last_of<T>(s: Seq<T>, p: spec_fn(T) -> bool) -> Option<T> {
    if exists|i: int| last_at(s, p, i) {
        Some(s[choose|i: int| last_at(s, p, i)])
    } else {
        None
    }
}

/// There is only one first item and one last item with a property.
pub(crate) proof fn lemma_ends_are_unique<T>(s: Seq<T>, p: spec_fn(T) -> bool, i: int)
    ensures
        first_at(s, p, i) ==> (choose|k: int| first_at(s, p, k)) == i && first_of(s, p) == Some(
            s[i],
        ),
        last_at(s, p, i) ==> (choose|k: int| last_at(s, p, k)) == i && last_of(s, p) == Some(s[i]),
{
    if first_at(s, p, i) {
        let k = choose|k: int| first_at(s, p, k);
        if k < i {
            assert(!p(s[k]));
        }
        if i < k {
            assert(!p(s[i]));
        }
    }
    if last_at(s, p, i) {
        let k = choose|k: int| last_at(s, p, k);
        if k < i {
            assert(!p(s[i]));
        }
        if i < k {
            assert(!p(s[k]));
        }
    }
}

/// Filtering one item more.
pub(crate) proof fn lemma_filter_take<T>(s: Seq<T>, p: spec_fn(T) -> bool, i: int)
    requires
        0 <= i < s.len(),
    ensures
        s.take(i + 1).filter(p) == (if p(s[i]) {
            s.take(i).filter(p).push(s[i])
        } else {
            s.take(i).filter(p)
        }),
{
    reveal(Seq::filter);
    assert(s.take(i + 1).drop_last() =~= s.take(i));
    assert(s.take(i + 1).last() == s[i]);
}

/// Filtering twice keeps what has both properties.
pub(crate) proof fn lemma_filter_filter<T>(
    s: Seq<T>,
    p: spec_fn(T) -> bool,
    q: spec_fn(T) -> bool,
    both: spec_fn(T) -> bool,
)
    requires
        forall|x: T| #[trigger] both(x) == (p(x) && q(x)),
    ensures
        s.filter(p).filter(q) == s.filter(both),
    decreases s.len(),
{
    reveal(Seq::filter);
    if s.len() > 0 {
        let rest = s.drop_last();
        lemma_filter_filter(rest, p, q, both);
        assert(both(s.last()) == (p(s.last()) && q(s.last())));
        if p(s.last()) {
            assert(s.filter(p).drop_last() =~= rest.filter(p));
        }
    }
}

/// Filtering by a property that all items have changes nothing, and by one that
/// none has leaves nothing.
pub(crate) proof fn lemma_filter_all_or_none<T>(s: Seq<T>, p: spec_fn(T) -> bool)
    ensures
        (forall|i: int| 0 <= i < s.len() ==> p(#[trigger] s[i])) ==> s.filter(p) == s,
        (forall|i: int| 0 <= i < s.len() ==> !p(#[trigger] s[i])) ==> s.filter(p) == Seq::<
            T,
        >::empty(),
    decreases s.len(),
{
    reveal(Seq::filter);
    if s.len() > 0 {
        let rest = s.drop_last();
        lemma_filter_all_or_none(rest, p);
        assert(s.last() == s[s.len() - 1]);
        assert forall|i: int| 0 <= i < rest.len() implies #[trigger] rest[i] == s[i] by {}
        assert(rest.push(s.last()) =~= s);
    } else {
        assert(s =~= Seq::<T>::empty());
    }
}

/// Both groups together are what was there.
pub(crate) proof fn lemma_filter_split<T>(s: Seq<T>, p: spec_fn(T) -> bool)
    ensures
        s.filter(|x: T| !p(x)).to_multiset().add(s.filter(p).to_multiset()) =~= s.to_multiset(),
        s.filter(|x: T| !p(x)).len() + s.filter(p).len() == s.len(),
    decreases s.len(),
{
    broadcast use vstd::seq_lib::group_to_multiset_ensures;

    reveal(Seq::filter);
    if s.len() > 0 {
        let rest = s.drop_last();
        lemma_filter_split(rest, p);
        assert(rest.push(s.last()) =~= s);
        assert(s.to_multiset() =~= rest.to_multiset().insert(s.last()));
        if p(s.last()) {
            assert(s.filter(p).to_multiset() =~= rest.filter(p).to_multiset().insert(s.last()));
        } else {
            let np = |x: T| !p(x);
            assert(s.filter(np).to_multiset() =~= rest.filter(np).to_multiset().insert(s.last()));
        }
    }
}

/// Raising a group adds no item.
pub(crate) proof fn lemma_to_top_members<T>(stack: Seq<T>, p: spec_fn(T) -> bool)
    ensures
        forall|x: T| #[trigger] to_top(stack, p).contains(x) ==> stack.contains(x),
{
    let np = |x: T| !p(x);
    let low = stack.filter(np);
    let high = stack.filter(p);
    assert forall|x: T| #[trigger] to_top(stack, p).contains(x) implies stack.contains(x) by {
        let i = choose|i: int| 0 <= i < to_top(stack, p).len() && to_top(stack, p)[i] == x;
        if i < low.len() {
            assert(low[i] == x);
            stack.lemma_filter_contains_rev(np, x);
        } else {
            assert(high[i - low.len()] == x);
            stack.lemma_filter_contains_rev(p, x);
        }
    }
}

/// Parts the marked items from all others.
pub(crate) fn split_marked<T>(items: Vec<T>, marks: &Vec<bool>, p: Ghost<spec_fn(T) -> bool>) -> (r: (
    Vec<T>,
    Vec<T>,
))
    requires
        marks.len() == items.len(),
        forall|i: int| 0 <= i < items.len() ==> #[trigger] marks@[i] == p@(items@[i]),
    ensures
        r.0@ == items@.filter(|x: T| !p@(x)),
        r.1@ == items@.filter(p@),
{
    let ghost all = items@;
    let ghost np = |x: T| !p@(x);
    let mut items: Vec<T> = items;
    let mut low: Vec<T> = Vec::new();
    let mut high: Vec<T> = Vec::new();
    let mut i: usize = 0;
    proof {
        reveal(Seq::filter);
        assert(all.skip(0) =~= all);
        assert(all.take(0) =~= Seq::<T>::empty());
        assert(all.take(0).filter(p@) =~= Seq::<T>::empty());
        assert(all.take(0).filter(np) =~= Seq::<T>::empty());
    }
    while items.len() > 0
        invariant
            i <= all.len(),
            items@ == all.skip(i as int),
            marks.len() == all.len(),
            forall|j: int| 0 <= j < all.len() ==> #[trigger] marks@[j] == p@(all[j]),
            np == (|x: T| !p@(x)),
            low@ == all.take(i as int).filter(np),
            high@ == all.take(i as int).filter(p@),
        decreases items.len(),
    {
        let item: T = items.remove(0);
        proof {
            assert(item == all[i as int]);
            assert(items@ =~= all.skip(i + 1));
            lemma_filter_take(all, p@, i as int);
            lemma_filter_take(all, np, i as int);
        }
        if marks[i] {
            high.push(item);
        } else {
            low.push(item);
        }
        i += 1;
    }
    assert(all.take(i as int) =~= all);
    (low, high)
}

/// Raises every marked item above all others.
pub(crate) fn lift_marked<T>(items: Vec<T>, marks: &Vec<bool>, p: Ghost<spec_fn(T) -> bool>) -> (r: Vec<
    T,
>)
    requires
        marks.len() == items.len(),
        forall|i: int| 0 <= i < items.len() ==> #[trigger] marks@[i] == p@(items@[i]),
    ensures
        r@ == to_top(items@, p@),
{
    let (low, high) = split_marked(items, marks, p);
    let mut low: Vec<T> = low;
    let mut high: Vec<T> = high;
    low.append(&mut high);
    low
}

/// A list of different indices below `n` is not longer than `n`.
pub(crate) proof fn lemma_indices_bounded(list: Seq<int>, n: int)
    requires
        n >= 0,
        list.no_duplicates(),
        forall|i: int| 0 <= i < list.len() ==> 0 <= #[trigger] list[i] < n,
    ensures
        list.len() <= n,
{
    let all = vstd::set_lib::set_int_range(0, n);
    vstd::set_lib::lemma_int_range(0, n);
    list.unique_seq_to_set();
    assert(list.to_set().subset_of(all)) by {
        assert forall|x: int| list.to_set().contains(x) implies all.contains(x) by {
            let i = choose|i: int| 0 <= i < list.len() && list[i] == x;
            assert(0 <= list[i] < n);
        }
    }
    vstd::set_lib::lemma_len_subset(list.to_set(), all);
}

/// `x` lies below `y`.
pub open spec fn precedes<T>(s: Seq<T>, x: T, y: T) -> bool {
    exists|i: int, j: int| 0 <= i < j < s.len() && #[trigger] s[i] == x && #[trigger] s[j] == y
}

/// What lies in order in one of two parts lies so in the whole.
pub(crate) proof fn lemma_precedes_in_part<T>(a: Seq<T>, b: Seq<T>, x: T, y: T)
    ensures
        precedes(a, x, y) ==> precedes(a + b, x, y),
        precedes(b, x, y) ==> precedes(a + b, x, y),
{
    let all = a + b;
    if precedes(a, x, y) {
        let (i, j) = choose|i: int, j: int|
            0 <= i < j < a.len() && #[trigger] a[i] == x && #[trigger] a[j] == y;
        assert(all[i] == x && all[j] == y);
    }
    if precedes(b, x, y) {
        let (i, j) = choose|i: int, j: int|
            0 <= i < j < b.len() && #[trigger] b[i] == x && #[trigger] b[j] == y;
        assert(all[a.len() + i] == x && all[a.len() + j] == y);
    }
}

/// What lies in the lower one of two parts precedes what lies in the upper one.
pub(crate) proof fn lemma_precedes_across<T>(a: Seq<T>, b: Seq<T>, x: T, y: T)
    requires
        a.contains(x),
        b.contains(y),
    ensures
        precedes(a + b, x, y),
{
    let i = choose|i: int| 0 <= i < a.len() && a[i] == x;
    let j = choose|j: int| 0 <= j < b.len() && b[j] == y;
    assert((a + b)[i] == x && (a + b)[a.len() + j] == y);
}

/// Filtering keeps the order.
pub(crate) proof fn lemma_filter_precedes<T>(s: Seq<T>, p: spec_fn(T) -> bool, x: T, y: T)
    requires
        precedes(s, x, y),
        p(x),
        p(y),
    ensures
        precedes(s.filter(p), x, y),
    decreases s.len(),
{
    reveal(Seq::filter);
    let (i, j) = choose|i: int, j: int|
        0 <= i < j < s.len() && #[trigger] s[i] == x && #[trigger] s[j] == y;
    let rest = s.drop_last();
    if j < rest.len() {
        assert(rest[i] == x && rest[j] == y);
        lemma_filter_precedes(rest, p, x, y);
        if p(s.last()) {
            assert(s.filter(p) =~= rest.filter(p) + seq![s.last()]);
            lemma_precedes_in_part(rest.filter(p), seq![s.last()], x, y);
        }
    } else {
        rest.lemma_filter_contains(p, i);
        assert(s.filter(p) =~= rest.filter(p) + seq![y]);
        assert(seq![y][0] == y);
        lemma_precedes_across(rest.filter(p), seq![y], x, y);
    }
}

/// Which items of a filtered list there are.
pub(crate) proof fn lemma_filter_holds<T>(s: Seq<T>, p: spec_fn(T) -> bool)
    ensures
        forall|x: T| #[trigger] s.filter(p).contains(x) <==> s.contains(x) && p(x),
{
    assert forall|x: T| #[trigger] s.filter(p).contains(x) <==> s.contains(x) && p(x) by {
        if s.filter(p).contains(x) {
            s.lemma_filter_contains_rev(p, x);
            let i = choose|i: int| 0 <= i < s.filter(p).len() && s.filter(p)[i] == x;
            s.lemma_filter_pred(p, i);
        }
        if s.contains(x) && p(x) {
            let i = choose|i: int| 0 <= i < s.len() && s[i] == x;
            s.lemma_filter_contains(p, i);
        }
    }
}

/// The items with the given key.
pub open spec fn has_key<T>(key: spec_fn(T) -> int, k: int) -> spec_fn(T) -> bool {
    |x: T| key(x) == k
}

/// The items with a key below `n`.
pub open spec fn key_below<T>(key: spec_fn(T) -> int, n: int) -> spec_fn(T) -> bool {
    |x: T| key(x) < n
}

/// The items with a key of at least `n`.
pub open spec fn key_from<T>(key: spec_fn(T) -> int, n: int) -> spec_fn(T) -> bool {
    |x: T| key(x) >= n
}

/// The items by their key, from 0 up to but not including `n`; the items with one
/// key keep their order.
pub open spec fn by_key<T>(s: Seq<T>, key: spec_fn(T) -> int, n: int) -> Seq<T>
    decreases n,
{
    if n <= 0 {
        Seq::empty()
    } else {
        by_key(s, key, n - 1) + s.filter(has_key(key, n - 1))
    }
}

/// Every key of the items lies from 0 up to but not including `n`.
pub open spec fn keys_within<T>(s: Seq<T>, key: spec_fn(T) -> int, n: int) -> bool {
    forall|i: int| 0 <= i < s.len() ==> 0 <= key(#[trigger] s[i]) < n
}

/// Sorting by key takes the items with a key below `n`, each as often as it was
/// there.
proof fn lemma_by_key_takes<T>(s: Seq<T>, key: spec_fn(T) -> int, n: int)
    requires
        n >= 0,
        forall|i: int| 0 <= i < s.len() ==> 0 <= key(#[trigger] s[i]),
    ensures
        by_key(s, key, n).to_multiset() == s.filter(key_below(key, n)).to_multiset(),
    decreases n,
{
    broadcast use vstd::seq_lib::group_to_multiset_ensures;

    if n == 0 {
        lemma_filter_all_or_none(s, key_below(key, 0));
    } else {
        let below = s.filter(key_below(key, n));
        let it = has_key(key, n - 1);
        let not_it = |x: T| !it(x);
        lemma_by_key_takes(s, key, n - 1);
        lemma_filter_split(below, it);
        lemma_filter_filter(s, key_below(key, n), it, it);
        lemma_filter_filter(s, key_below(key, n), not_it, key_below(key, n - 1));
        vstd::seq_lib::lemma_multiset_commutative(
            by_key(s, key, n - 1),
            s.filter(has_key(key, n - 1)),
        );
    }
}

/// Sorting by key loses no item and adds none.
pub(crate) proof fn lemma_by_key_permutes<T>(s: Seq<T>, key: spec_fn(T) -> int, n: int)
    requires
        n >= 0,
        keys_within(s, key, n),
    ensures
        by_key(s, key, n).to_multiset() == s.to_multiset(),
        by_key(s, key, n).len() == s.len(),
{
    broadcast use vstd::seq_lib::group_to_multiset_ensures;

    lemma_by_key_takes(s, key, n);
    lemma_filter_all_or_none(s, key_below(key, n));
    assert(by_key(s, key, n).to_multiset().len() == by_key(s, key, n).len());
    assert(s.to_multiset().len() == s.len());
}

/// Sorted items have ascending keys, and each of them was there.
pub(crate) proof fn lemma_by_key_ascends<T>(s: Seq<T>, key: spec_fn(T) -> int, n: int)
    ensures
        forall|i: int|
            0 <= i < by_key(s, key, n).len() ==> {
                &&& 0 <= key(#[trigger] by_key(s, key, n)[i]) < n
                &&& s.contains(by_key(s, key, n)[i])
            },
        forall|i: int, j: int|
            0 <= i <= j < by_key(s, key, n).len() ==> key(#[trigger] by_key(s, key, n)[i]) <= key(
                #[trigger] by_key(s, key, n)[j],
            ),
    decreases n,
{
    if n > 0 {
        let lower = by_key(s, key, n - 1);
        let last = s.filter(has_key(key, n - 1));
        let all = by_key(s, key, n);
        lemma_by_key_ascends(s, key, n - 1);
        assert forall|i: int| 0 <= i < last.len() implies key(#[trigger] last[i]) == n - 1
            && s.contains(last[i]) by {
            s.lemma_filter_pred(has_key(key, n - 1), i);
            assert(last.contains(last[i]));
            s.lemma_filter_contains_rev(has_key(key, n - 1), last[i]);
        }
        assert forall|i: int| 0 <= i < all.len() implies #[trigger] all[i] == (if i < lower.len() {
            lower[i]
        } else {
            last[i - lower.len()]
        }) by {}
    }
}

/// An item with a lower key, or with the same key and from further below, lies
/// below another one after sorting by key.
pub(crate) proof fn lemma_by_key_precedes<T>(
    s: Seq<T>,
    key: spec_fn(T) -> int,
    n: int,
    x: T,
    y: T,
)
    requires
        s.contains(x),
        s.contains(y),
        0 <= key(x) <= key(y) < n,
        key(x) == key(y) ==> precedes(s, x, y),
    ensures
        precedes(by_key(s, key, n), x, y),
    decreases n,
{
    let lower = by_key(s, key, n - 1);
    let last = s.filter(has_key(key, n - 1));
    let all = by_key(s, key, n);
    if key(y) < n - 1 {
        lemma_by_key_precedes(s, key, n - 1, x, y);
        lemma_precedes_in_part(lower, last, x, y);
    } else {
        let j = choose|j: int| 0 <= j < s.len() && s[j] == y;
        s.lemma_filter_contains(has_key(key, n - 1), j);
        if key(x) == key(y) {
            lemma_filter_precedes(s, has_key(key, n - 1), x, y);
            lemma_precedes_in_part(lower, last, x, y);
        } else {
            lemma_by_key_holds(s, key, n - 1, x);
            lemma_precedes_across(lower, last, x, y);
        }
    }
}

/// Sorting by key holds every item with a key that is taken.
pub(crate) proof fn lemma_by_key_holds<T>(s: Seq<T>, key: spec_fn(T) -> int, n: int, x: T)
    requires
        s.contains(x),
        0 <= key(x) < n,
    ensures
        by_key(s, key, n).contains(x),
    decreases n,
{
    let lower = by_key(s, key, n - 1);
    let last = s.filter(has_key(key, n - 1));
    if key(x) < n - 1 {
        lemma_by_key_holds(s, key, n - 1, x);
        let i = choose|i: int| 0 <= i < lower.len() && lower[i] == x;
        assert((lower + last)[i] == x);
    } else {
        let i = choose|i: int| 0 <= i < s.len() && s[i] == x;
        s.lemma_filter_contains(has_key(key, n - 1), i);
        let j = choose|j: int| 0 <= j < last.len() && last[j] == x;
        assert((lower + last)[lower.len() + j] == x);
    }
}

/// Sorts items by their keys, which all lie below `top`; items with one key keep
/// their order.
pub(crate) fn sort_by_key<T>(
    items: Vec<T>,
    keys: Vec<u128>,
    top: u128,
    key: Ghost<spec_fn(T) -> int>,
) -> (r: Vec<T>)
    requires
        keys.len() == items.len(),
        forall|i: int| 0 <= i < items.len() ==> #[trigger] keys@[i] == key@(items@[i]),
    ensures
        r@ == by_key(items@, key@, top as int),
{
    let ghost all = items@;
    let mut rest: Vec<T> = items;
    let mut rest_keys: Vec<u128> = keys;
    let mut done: Vec<T> = Vec::new();
    let mut level: u128 = 0;
    proof {
        assert forall|i: int| 0 <= i < all.len() implies key_from(key@, 0)(#[trigger] all[i]) by {
            assert(rest_keys@[i] == key@(all[i]));
        }
        lemma_filter_all_or_none(all, key_from(key@, 0));
    }
    while level < top
        invariant
            level <= top,
            done@ == by_key(all, key@, level as int),
            rest@ == all.filter(key_from(key@, level as int)),
            rest_keys.len() == rest.len(),
            forall|i: int| 0 <= i < rest.len() ==> #[trigger] rest_keys@[i] == key@(rest@[i]),
        decreases top - level,
    {
        let ghost whole = rest@;
        let ghost whole_keys = rest_keys@;
        let ghost lower = done@;
        let ghost it = has_key(key@, level as int);
        let ghost above = key_from(key@, level + 1);
        let mut later: Vec<T> = Vec::new();
        let mut later_keys: Vec<u128> = Vec::new();
        let ghost mut i: int = 0;
        proof {
            reveal(Seq::filter);
            assert(whole.skip(0) =~= whole);
            assert(whole_keys.skip(0) =~= whole_keys);
            assert(whole.take(0) =~= Seq::<T>::empty());
            assert(lower + whole.take(0).filter(it) =~= lower);
            assert forall|j: int| 0 <= j < whole.len() implies key@(#[trigger] whole[j])
                >= level by {
                all.lemma_filter_pred(key_from(key@, level as int), j);
            }
        }
        while rest.len() > 0
            invariant
                0 <= i <= whole.len(),
                rest@ == whole.skip(i),
                rest_keys@ == whole_keys.skip(i),
                whole_keys.len() == whole.len(),
                forall|j: int| 0 <= j < whole.len() ==> #[trigger] whole_keys[j] == key@(whole[j]),
                forall|j: int| 0 <= j < whole.len() ==> key@(#[trigger] whole[j]) >= level,
                it == has_key(key@, level as int),
                above == key_from(key@, level + 1),
                done@ == lower + whole.take(i).filter(it),
                later@ == whole.take(i).filter(above),
                later_keys.len() == later.len(),
                forall|j: int|
                    0 <= j < later.len() ==> #[trigger] later_keys@[j] == key@(later@[j]),
            decreases rest.len(),
        {
            let item: T = rest.remove(0);
            let k: u128 = rest_keys.remove(0);
            proof {
                assert(item == whole[i]);
                assert(k == whole_keys[i]);
                assert(rest@ =~= whole.skip(i + 1));
                assert(rest_keys@ =~= whole_keys.skip(i + 1));
                lemma_filter_take(whole, it, i);
                lemma_filter_take(whole, above, i);
            }
            if k == level {
                done.push(item);
                assert(done@ =~= lower + whole.take(i + 1).filter(it));
            } else {
                later.push(item);
                later_keys.push(k);
            }
            proof {
                i = i + 1;
            }
        }
        proof {
            assert(whole.take(i) =~= whole);
            lemma_filter_filter(all, key_from(key@, level as int), it, it);
            lemma_filter_filter(all, key_from(key@, level as int), above, above);
        }
        rest = later;
        rest_keys = later_keys;
        level = level + 1;
    }
    done
}

} // verus!
