//! The stacking order: widgets at the bottom, fullscreen windows on top, dialogs
//! between, and every window above the one that it belongs to.

use crate::stack::{lift_marked, sort_by_key, split_marked};
use crate::state::hierarchy::{belongs_to_marked, family_table};
use crate::state::windows::{FullscreenEntry, Window};
use vstd::prelude::*;

verus! {

/// The window with the given id.
pub open spec fn the_window(id: u64) -> spec_fn(Window) -> bool {
    |w: Window| w.id == id
}

/// The stack after one window was raised to the top.
pub open spec fn raised(stack: Seq<Window>, id: u64) -> Seq<Window> {
    crate::stack::to_top(stack, the_window(id))
}

/// The fullscreen windows.
pub open spec fn fullscreen_ids(fullscreen: Seq<FullscreenEntry>) -> Seq<u64> {
    fullscreen.map_values(|entry: FullscreenEntry| entry.state.window)
}

/// A window belongs to one on the canvas that is no widget.
pub open spec fn of_normal_window(stack: Seq<Window>, w: Window) -> bool {
    exists|p: Window| #[trigger]
        stack.contains(p) && crate::state::hierarchy::belongs_to(w, p) && !p.widget()
}

/// The group of a window: 0 for widgets, 1 for normal windows without a parent, 2
/// for widgets that belong to a normal window, 3 for normal windows with a parent,
/// and 4 for fullscreen windows of any kind.
pub open spec fn group(stack: Seq<Window>, fullscreen: Seq<u64>, w: Window) -> int {
    if fullscreen.contains(w.id) {
        4
    } else if w.widget() {
        if of_normal_window(stack, w) {
            2
        } else {
            0
        }
    } else if w.parented() {
        3
    } else {
        1
    }
}

/// The group of every window.
pub open spec fn group_in(stack: Seq<Window>, fullscreen: Seq<u64>) -> spec_fn(Window) -> int {
    |w: Window| group(stack, fullscreen, w)
}

/// The windows of one group.
pub open spec fn in_group(stack: Seq<Window>, fullscreen: Seq<u64>, k: int) -> spec_fn(
    Window,
) -> bool {
    crate::stack::has_key(group_in(stack, fullscreen), k)
}

/// The windows group by group, those of one group in the order in which they were.
pub open spec fn grouped(stack: Seq<Window>, fullscreen: Seq<u64>) -> Seq<Window> {
    stack.filter(in_group(stack, fullscreen, 0)) + stack.filter(in_group(stack, fullscreen, 1))
        + stack.filter(in_group(stack, fullscreen, 2)) + stack.filter(
        in_group(stack, fullscreen, 3),
    ) + stack.filter(in_group(stack, fullscreen, 4))
}

/// Which window has to lie above which: above those that it descends from.
pub open spec fn above_in(stack: Seq<Window>) -> spec_fn(Window, Window) -> bool {
    |x: Window, y: Window| crate::state::hierarchy::descends(stack, x, y)
}

/// The stack in its stacking order: the windows group by group, and those that
/// would lie below one of their ancestors lifted to right above it.
pub open spec fn stacked(stack: Seq<Window>, fullscreen: Seq<u64>) -> Seq<Window> {
    crate::lift::lifted(grouped(stack, fullscreen), above_in(stack))
}

/// Raises one window to the top; a window that is not in the stack changes
/// nothing.
pub(crate) fn raise_element(stack: Vec<Window>, id: u64) -> (r: Vec<Window>)
    ensures
        r@ == raised(stack@, id),
{
    let mut marks: Vec<bool> = Vec::new();
    let mut i: usize = 0;
    while i < stack.len()
        invariant
            i <= stack.len(),
            marks.len() == i,
            forall|j: int| 0 <= j < i ==> #[trigger] marks@[j] == (stack@[j].id == id),
        decreases stack.len() - i,
    {
        marks.push(stack[i].id == id);
        i += 1;
    }
    lift_marked(stack, &marks, Ghost(the_window(id)))
}

/// Whether a window is shown fullscreen.
fn is_among(fullscreen: &Vec<FullscreenEntry>, id: u64) -> (b: bool)
    ensures
        b == fullscreen_ids(fullscreen@).contains(id),
{
    let ghost ids = fullscreen_ids(fullscreen@);
    let mut i: usize = 0;
    while i < fullscreen.len()
        invariant
            i <= fullscreen.len(),
            ids == fullscreen_ids(fullscreen@),
            forall|j: int| 0 <= j < i ==> #[trigger] ids[j] != id,
        decreases fullscreen.len() - i,
    {
        if fullscreen[i].state.window == id {
            assert(ids[i as int] == id);
            return true;
        }
        i += 1;
    }
    false
}

/// The table says which windows of `all` stem from which.
spec fn tells(table: Seq<Vec<bool>>, ids: Seq<u64>, all: Seq<Window>) -> bool {
    &&& ids.len() == all.len()
    &&& table.len() == all.len()
    &&& forall|i: int| 0 <= i < all.len() ==> #[trigger] ids[i] == all[i].id
    &&& forall|j: int| 0 <= j < all.len() ==> (#[trigger] table[j]).len() == all.len()
    &&& forall|i: int, j: int|
        0 <= i < all.len() && 0 <= j < all.len() ==> #[trigger] table[j]@[i]
            == crate::state::hierarchy::stems_from(all, all[i], all[j])
}

/// Where a window of `all` stands.
fn place_of(w: &Window, ids: &Vec<u64>, all: Ghost<Seq<Window>>) -> (r: usize)
    requires
        crate::state::windows::distinct_windows(all@),
        ids.len() == all@.len(),
        forall|i: int| 0 <= i < all@.len() ==> #[trigger] ids@[i] == all@[i].id,
        all@.contains(*w),
    ensures
        r < ids.len(),
        all@[r as int] == *w,
{
    let ghost k = choose|k: int| 0 <= k < all@.len() && all@[k] == *w;
    let mut i: usize = 0;
    while ids[i] != w.id
        invariant
            i <= k < ids.len(),
            ids.len() == all@.len(),
            forall|j: int| 0 <= j < all@.len() ==> #[trigger] ids@[j] == all@[j].id,
            all@[k] == *w,
        decreases k - i,
    {
        assert(ids@[k] == w.id);
        i += 1;
    }
    assert(ids@[i as int] == all@[i as int].id);
    i
}

/// Lifts windows of `all` above those that they descend from.
fn lift_windows(
    items: Vec<Window>,
    ids: &Vec<u64>,
    table: &Vec<Vec<bool>>,
    all: Ghost<Seq<Window>>,
) -> (r: Vec<Window>)
    requires
        crate::state::windows::distinct_windows(all@),
        tells(table@, ids@, all@),
        forall|i: int| 0 <= i < items.len() ==> all@.contains(#[trigger] items@[i]),
    ensures
        r@ == crate::lift::lifted(items@, above_in(all@)),
    decreases items.len(),
{
    let ghost whole = items@;
    let ghost over = above_in(all@);
    let mut rest: Vec<Window> = items;
    let last: Window = match rest.pop() {
        Some(last) => last,
        None => {
            return Vec::new();
        },
    };
    let ghost it = crate::lift::over_it(over, last);
    assert(all@.contains(whole[whole.len() - 1]));
    let at: usize = place_of(&last, ids, all);
    let mut marks: Vec<bool> = Vec::new();
    let mut i: usize = 0;
    while i < rest.len()
        invariant
            i <= rest.len(),
            marks.len() == i,
            crate::state::windows::distinct_windows(all@),
            tells(table@, ids@, all@),
            at < ids.len(),
            all@[at as int] == last,
            forall|j: int| 0 <= j < rest.len() ==> all@.contains(#[trigger] rest@[j]),
            over == above_in(all@),
            it == crate::lift::over_it(over, last),
            forall|j: int| 0 <= j < i ==> #[trigger] marks@[j] == it(rest@[j]),
        decreases rest.len() - i,
    {
        let here: usize = place_of(&rest[i], ids, all);
        assert(table@[at as int].len() == ids.len() && table@[here as int].len() == ids.len());
        marks.push(table[at][here] && !table[here][at]);
        i += 1;
    }
    assert(rest@ =~= whole.drop_last());
    proof {
        crate::lift::lemma_parts_are_shorter(whole, over);
        crate::stack::lemma_filter_holds(rest@, it);
        crate::stack::lemma_filter_holds(rest@, |w: Window| !it(w));
    }
    let ghost below = rest@;
    let (low, high) = split_marked(rest, &marks, Ghost(it));
    proof {
        assert forall|j: int| 0 <= j < low.len() implies all@.contains(#[trigger] low@[j]) by {
            assert(low@.contains(low@[j]));
            assert(below.contains(low@[j]));
        }
        assert forall|j: int| 0 <= j < high.len() implies all@.contains(#[trigger] high@[j]) by {
            assert(high@.contains(high@[j]));
            assert(below.contains(high@[j]));
        }
    }
    let mut r: Vec<Window> = lift_windows(low, ids, table, all);
    let mut upper: Vec<Window> = lift_windows(high, ids, table, all);
    r.push(last);
    r.append(&mut upper);
    r
}

/// Restores the stacking order.
pub(crate) fn restack(stack: Vec<Window>, fullscreen: &Vec<FullscreenEntry>) -> (r: Vec<Window>)
    requires
        crate::state::windows::distinct_windows(stack@),
    ensures
        r@ == stacked(stack@, fullscreen_ids(fullscreen@)),
{
    let ghost all = stack@;
    let ghost shown = fullscreen_ids(fullscreen@);
    let n: usize = stack.len();
    let mut normal: Vec<bool> = Vec::new();
    let mut ids: Vec<u64> = Vec::new();
    let mut i: usize = 0;
    while i < n
        invariant
            i <= n,
            n == stack.len(),
            normal.len() == i,
            ids.len() == i,
            forall|j: int| 0 <= j < i ==> #[trigger] normal@[j] == !stack@[j].widget(),
            forall|j: int| 0 <= j < i ==> #[trigger] ids@[j] == stack@[j].id,
        decreases n - i,
    {
        normal.push(!stack[i].is_widget());
        ids.push(stack[i].id);
        i += 1;
    }
    let mut keys: Vec<u128> = Vec::new();
    let mut i: usize = 0;
    while i < n
        invariant
            i <= n,
            n == stack.len(),
            all == stack@,
            shown == fullscreen_ids(fullscreen@),
            normal.len() == n,
            keys.len() == i,
            forall|j: int| 0 <= j < n ==> #[trigger] normal@[j] == !stack@[j].widget(),
            forall|j: int| 0 <= j < i ==> #[trigger] keys@[j] == group_in(all, shown)(all[j]),
        decreases n - i,
    {
        let owned: bool = belongs_to_marked(&stack, &normal, i);
        proof {
            let w = stack@[i as int];
            if owned {
                let j = choose|j: int|
                    0 <= j < stack.len() && #[trigger] normal@[j]
                        && crate::state::hierarchy::belongs_to(w, stack@[j]);
                assert(all.contains(stack@[j]));
            }
            if of_normal_window(all, w) {
                let p = choose|p: Window| #[trigger]
                    all.contains(p) && crate::state::hierarchy::belongs_to(w, p) && !p.widget();
                let j = choose|j: int| 0 <= j < stack.len() && stack@[j] == p;
                assert(normal@[j]);
            }
        }
        let key: u128 = if is_among(fullscreen, stack[i].id) {
            4
        } else if stack[i].is_widget() {
            if owned {
                2
            } else {
                0
            }
        } else if stack[i].parent.is_some() {
            3
        } else {
            1
        };
        keys.push(key);
        i += 1;
    }
    let table: Vec<Vec<bool>> = family_table(&stack);
    let ordered: Vec<Window> = sort_by_key(stack, keys, 5, Ghost(group_in(all, shown)));
    proof {
        lemma_groups_are_keys(all, shown);
        crate::stack::lemma_by_key_ascends(all, group_in(all, shown), 5);
    }
    lift_windows(ordered, &ids, &table, Ghost(all))
}

// ---------------------------------------------------------------------------
// Laws of the stacking order
// ---------------------------------------------------------------------------

/// Grouping is sorting by the group.
proof fn lemma_groups_are_keys(stack: Seq<Window>, fullscreen: Seq<u64>)
    ensures
        grouped(stack, fullscreen) == crate::stack::by_key(stack, group_in(stack, fullscreen), 5),
        crate::stack::keys_within(stack, group_in(stack, fullscreen), 5),
{
    reveal_with_fuel(crate::stack::by_key, 6);
    let key = group_in(stack, fullscreen);
    assert(crate::stack::by_key(stack, key, 0) =~= Seq::<Window>::empty());
    assert(Seq::<Window>::empty() + stack.filter(in_group(stack, fullscreen, 0)) =~= stack.filter(
        in_group(stack, fullscreen, 0),
    ));
}

/// The grouped stack holds the same windows.
proof fn lemma_grouped_permutes(stack: Seq<Window>, fullscreen: Seq<u64>)
    ensures
        grouped(stack, fullscreen).to_multiset() == stack.to_multiset(),
        grouped(stack, fullscreen).len() == stack.len(),
        forall|w: Window| #[trigger]
            grouped(stack, fullscreen).contains(w) <==> stack.contains(w),
{
    broadcast use vstd::seq_lib::group_to_multiset_ensures;

    let after = grouped(stack, fullscreen);
    lemma_groups_are_keys(stack, fullscreen);
    crate::stack::lemma_by_key_permutes(stack, group_in(stack, fullscreen), 5);
    assert forall|w: Window| #[trigger] after.contains(w) <==> stack.contains(w) by {
        assert(after.to_multiset().count(w) > 0 <==> after.contains(w));
        assert(stack.to_multiset().count(w) > 0 <==> stack.contains(w));
    }
}

/// Restoring the stacking order loses no window and adds none.
pub proof fn lemma_stacked_permutes(stack: Seq<Window>, fullscreen: Seq<u64>)
    ensures
        stacked(stack, fullscreen).to_multiset() == stack.to_multiset(),
        stacked(stack, fullscreen).len() == stack.len(),
        forall|w: Window| #[trigger]
            stacked(stack, fullscreen).contains(w) <==> stack.contains(w),
{
    lemma_grouped_permutes(stack, fullscreen);
    crate::lift::lemma_lifted_permutes(grouped(stack, fullscreen), above_in(stack));
}

/// Descent is a strict order on the windows of a stack, in any order.
proof fn lemma_above_is_strict(stack: Seq<Window>, part: Seq<Window>)
    requires
        crate::state::windows::distinct_windows(stack),
        forall|w: Window| #[trigger] part.contains(w) ==> stack.contains(w),
    ensures
        crate::lift::strict(part, above_in(stack)),
{
    let over = above_in(stack);
    assert forall|x: Window, y: Window| #[trigger]
        part.contains(x) && #[trigger] part.contains(y) implies !(over(x, y) && over(y, x)) by {
        crate::state::hierarchy::lemma_descent_is_strict(stack, x, y, x);
    }
    assert forall|x: Window, y: Window, z: Window| #[trigger]
        part.contains(x) && #[trigger] part.contains(y) && #[trigger] part.contains(z) && over(
        x,
        y,
    ) && over(y, z) implies over(x, z) by {
        crate::state::hierarchy::lemma_descent_is_strict(stack, x, y, z);
    }
}

/// Every window lies above all windows that it descends from, whatever the groups
/// of the two.
pub proof fn lemma_descendants_lie_above(
    stack: Seq<Window>,
    fullscreen: Seq<u64>,
    lower: int,
    upper: int,
)
    requires
        crate::state::windows::distinct_windows(stack),
        0 <= lower < stacked(stack, fullscreen).len(),
        0 <= upper < stacked(stack, fullscreen).len(),
        crate::state::hierarchy::descends(
            stack,
            stacked(stack, fullscreen)[upper],
            stacked(stack, fullscreen)[lower],
        ),
    ensures
        lower < upper,
{
    let over = above_in(stack);
    let after = stacked(stack, fullscreen);
    lemma_grouped_permutes(stack, fullscreen);
    lemma_above_is_strict(stack, grouped(stack, fullscreen));
    crate::lift::lemma_lifted_settles(grouped(stack, fullscreen), over);
    if upper < lower {
        assert(!over(after[upper], after[lower]));
    }
}

/// Every window lies above the one that it belongs to, whatever the groups of the
/// two, unless parent links form a cycle. This holds for dialogs of dialogs, and
/// for dialogs of fullscreen windows and of widgets.
pub proof fn lemma_children_lie_above_parents(
    stack: Seq<Window>,
    fullscreen: Seq<u64>,
    child: int,
    parent: int,
)
    requires
        crate::state::windows::distinct_windows(stack),
        crate::state::hierarchy::acyclic(stack),
        0 <= child < stacked(stack, fullscreen).len(),
        0 <= parent < stacked(stack, fullscreen).len(),
        crate::state::hierarchy::belongs_to(
            stacked(stack, fullscreen)[child],
            stacked(stack, fullscreen)[parent],
        ),
    ensures
        parent < child,
{
    let after = stacked(stack, fullscreen);
    lemma_stacked_permutes(stack, fullscreen);
    assert(after.contains(after[child]) && after.contains(after[parent]));
    let c = choose|c: int| 0 <= c < stack.len() && stack[c] == after[child];
    let p = choose|p: int| 0 <= p < stack.len() && stack[p] == after[parent];
    crate::state::hierarchy::lemma_children_descend(stack, c, p);
    lemma_descendants_lie_above(stack, fullscreen, parent, child);
}

/// Where grouping leaves every window above the one that it belongs to, nothing is
/// lifted: within each group the windows keep their order.
pub proof fn lemma_grouped_order_stays(stack: Seq<Window>, fullscreen: Seq<u64>)
    requires
        crate::state::windows::distinct_windows(stack),
        crate::state::hierarchy::children_above(grouped(stack, fullscreen)),
    ensures
        stacked(stack, fullscreen) == grouped(stack, fullscreen),
{
    let before = grouped(stack, fullscreen);
    let over = above_in(stack);
    lemma_grouped_permutes(stack, fullscreen);
    lemma_grouped_is_distinct(stack, fullscreen);
    assert forall|i: int, j: int| 0 <= i < j < before.len() implies !over(
        #[trigger] before[i],
        #[trigger] before[j],
    ) by {
        if over(before[i], before[j]) {
            let it = the_window(before[j].id);
            let k = choose|k: nat|
                crate::state::hierarchy::inherits(stack, it, before[i], k);
            crate::state::hierarchy::lemma_above_all_ancestors(stack, before, i, j, k);
        }
    }
    crate::lift::lemma_settled_stays(before, over);
}

/// A window stays below another one when grouping puts it there, unless it descends
/// from that one, or from one that grouping puts above that one.
proof fn lemma_grouped_order_kept(
    stack: Seq<Window>,
    fullscreen: Seq<u64>,
    low: int,
    high: int,
)
    requires
        crate::state::windows::distinct_windows(stack),
        0 <= low < stacked(stack, fullscreen).len(),
        0 <= high < stacked(stack, fullscreen).len(),
        ({
            let x = stacked(stack, fullscreen)[low];
            let y = stacked(stack, fullscreen)[high];
            let before = grouped(stack, fullscreen);
            &&& crate::stack::precedes(before, x, y)
            &&& !crate::state::hierarchy::descends(stack, x, y)
            &&& forall|z: Window| #[trigger]
                stack.contains(z) && crate::state::hierarchy::descends(stack, x, z)
                    ==> crate::stack::precedes(before, z, y)
        }),
    ensures
        low < high,
{
    let after = stacked(stack, fullscreen);
    let before = grouped(stack, fullscreen);
    let x = after[low];
    let y = after[high];
    let over = above_in(stack);
    lemma_grouped_permutes(stack, fullscreen);
    lemma_grouped_is_distinct(stack, fullscreen);
    assert forall|i: int, j: int| 0 <= i < j < before.len() implies #[trigger] before[i]
        != #[trigger] before[j] by {
        assert(before[i].id != before[j].id);
    }
    crate::lift::lemma_lifted_keeps(before, over, x, y);
    lemma_stacking_keeps_distinct(stack, fullscreen, 0);
    let (i, j) = choose|i: int, j: int|
        0 <= i < j < after.len() && #[trigger] after[i] == x && #[trigger] after[j] == y;
    lemma_same_place(after, i, low);
    lemma_same_place(after, j, high);
}

/// In a stack of distinct windows a window stands at one place.
proof fn lemma_same_place(stack: Seq<Window>, i: int, j: int)
    requires
        crate::state::windows::distinct_windows(stack),
        0 <= i < stack.len(),
        0 <= j < stack.len(),
        stack[i].id == stack[j].id,
    ensures
        i == j,
{
    if i < j {
        assert(stack[i].id != stack[j].id);
    }
    if j < i {
        assert(stack[j].id != stack[i].id);
    }
}

/// A window lies below one of a higher group, unless it descends from a window of
/// that group or of a higher one.
pub proof fn lemma_groups_ascend(stack: Seq<Window>, fullscreen: Seq<u64>, low: int, high: int)
    requires
        crate::state::windows::distinct_windows(stack),
        0 <= low < stacked(stack, fullscreen).len(),
        0 <= high < stacked(stack, fullscreen).len(),
        group(stack, fullscreen, stacked(stack, fullscreen)[low]) < group(
            stack,
            fullscreen,
            stacked(stack, fullscreen)[high],
        ),
        forall|a: Window| #[trigger]
            stack.contains(a) && crate::state::hierarchy::descends(
                stack,
                stacked(stack, fullscreen)[low],
                a,
            ) ==> group(stack, fullscreen, a) < group(
                stack,
                fullscreen,
                stacked(stack, fullscreen)[high],
            ),
    ensures
        low < high,
{
    let after = stacked(stack, fullscreen);
    let x = after[low];
    let y = after[high];
    let key = group_in(stack, fullscreen);
    lemma_stacked_permutes(stack, fullscreen);
    lemma_groups_are_keys(stack, fullscreen);
    assert(after.contains(x) && after.contains(y));
    assert(stack.contains(x) && stack.contains(y));
    crate::stack::lemma_by_key_precedes(stack, key, 5, x, y);
    assert forall|z: Window| #[trigger]
        stack.contains(z) && crate::state::hierarchy::descends(stack, x, z) implies
        crate::stack::precedes(grouped(stack, fullscreen), z, y) by {
        crate::stack::lemma_by_key_precedes(stack, key, 5, z, y);
    }
    lemma_grouped_order_kept(stack, fullscreen, low, high);
}

/// Two windows of one group keep their order, unless the lower one descends from a
/// window of a higher group, or from one of the same group that is the upper one or
/// lies above it.
pub proof fn lemma_order_is_kept(
    stack: Seq<Window>,
    fullscreen: Seq<u64>,
    low: int,
    high: int,
)
    requires
        crate::state::windows::distinct_windows(stack),
        0 <= low < stacked(stack, fullscreen).len(),
        0 <= high < stacked(stack, fullscreen).len(),
        ({
            let x = stacked(stack, fullscreen)[low];
            let y = stacked(stack, fullscreen)[high];
            let g = group(stack, fullscreen, y);
            &&& group(stack, fullscreen, x) == g
            &&& crate::stack::precedes(stack, x, y)
            &&& forall|a: Window| #[trigger]
                stack.contains(a) && crate::state::hierarchy::descends(stack, x, a) ==> group(
                    stack,
                    fullscreen,
                    a,
                ) < g || (group(stack, fullscreen, a) == g && crate::stack::precedes(stack, a, y))
        }),
    ensures
        low < high,
{
    let after = stacked(stack, fullscreen);
    let x = after[low];
    let y = after[high];
    let key = group_in(stack, fullscreen);
    lemma_stacked_permutes(stack, fullscreen);
    lemma_groups_are_keys(stack, fullscreen);
    assert(after.contains(x) && after.contains(y));
    assert(stack.contains(x) && stack.contains(y));
    crate::stack::lemma_by_key_precedes(stack, key, 5, x, y);
    assert forall|z: Window| #[trigger]
        stack.contains(z) && crate::state::hierarchy::descends(stack, x, z) implies
        crate::stack::precedes(grouped(stack, fullscreen), z, y) by {
        crate::stack::lemma_by_key_precedes(stack, key, 5, z, y);
    }
    if crate::state::hierarchy::descends(stack, x, y) {
        let (i, j) = choose|i: int, j: int|
            0 <= i < j < stack.len() && #[trigger] stack[i] == y && #[trigger] stack[j] == y;
        lemma_same_place(stack, i, j);
    }
    lemma_grouped_order_kept(stack, fullscreen, low, high);
}

/// A widget that is not fullscreen lies below all normal windows when it has no
/// parent, and also when its parent is not on the canvas.
pub proof fn lemma_lone_widgets_lie_below(
    stack: Seq<Window>,
    fullscreen: Seq<u64>,
    widget: int,
    normal: int,
)
    requires
        crate::state::windows::distinct_windows(stack),
        0 <= widget < stacked(stack, fullscreen).len(),
        0 <= normal < stacked(stack, fullscreen).len(),
        stacked(stack, fullscreen)[widget].widget(),
        !fullscreen.contains(stacked(stack, fullscreen)[widget].id),
        forall|p: Window| #[trigger]
            stack.contains(p) ==> !crate::state::hierarchy::belongs_to(
                stacked(stack, fullscreen)[widget],
                p,
            ),
        !stacked(stack, fullscreen)[normal].widget(),
    ensures
        widget < normal,
{
    let w = stacked(stack, fullscreen)[widget];
    assert forall|a: Window| #[trigger] stack.contains(a) implies
        !crate::state::hierarchy::descends(stack, w, a) by {
        crate::state::hierarchy::lemma_roots_descend_from_none(stack, w, a);
    }
    lemma_groups_ascend(stack, fullscreen, widget, normal);
}

/// Widgets lie below all normal windows with a parent and below all fullscreen
/// windows, but for the widgets that are fullscreen or descend from such a window.
pub proof fn lemma_widgets_lie_below_dialogs(
    stack: Seq<Window>,
    fullscreen: Seq<u64>,
    widget: int,
    dialog: int,
)
    requires
        crate::state::windows::distinct_windows(stack),
        0 <= widget < stacked(stack, fullscreen).len(),
        0 <= dialog < stacked(stack, fullscreen).len(),
        stacked(stack, fullscreen)[widget].widget(),
        !fullscreen.contains(stacked(stack, fullscreen)[widget].id),
        forall|a: Window| #[trigger]
            stack.contains(a) && crate::state::hierarchy::descends(
                stack,
                stacked(stack, fullscreen)[widget],
                a,
            ) ==> group(stack, fullscreen, a) < 3,
        group(stack, fullscreen, stacked(stack, fullscreen)[dialog]) >= 3,
    ensures
        widget < dialog,
{
    lemma_groups_ascend(stack, fullscreen, widget, dialog);
}

/// A fullscreen window lies above every window that is not fullscreen and descends
/// from no fullscreen window.
pub proof fn lemma_fullscreen_lies_above(
    stack: Seq<Window>,
    fullscreen: Seq<u64>,
    other: int,
    shown: int,
)
    requires
        crate::state::windows::distinct_windows(stack),
        0 <= other < stacked(stack, fullscreen).len(),
        0 <= shown < stacked(stack, fullscreen).len(),
        !fullscreen.contains(stacked(stack, fullscreen)[other].id),
        forall|a: Window| #[trigger]
            stack.contains(a) && crate::state::hierarchy::descends(
                stack,
                stacked(stack, fullscreen)[other],
                a,
            ) ==> !fullscreen.contains(a.id),
        fullscreen.contains(stacked(stack, fullscreen)[shown].id),
    ensures
        other < shown,
{
    lemma_groups_ascend(stack, fullscreen, other, shown);
}

/// A normal window with a parent lies above every window without one, unless the
/// other one is fullscreen.
pub proof fn lemma_dialogs_lie_above(
    stack: Seq<Window>,
    fullscreen: Seq<u64>,
    root: int,
    dialog: int,
)
    requires
        crate::state::windows::distinct_windows(stack),
        0 <= root < stacked(stack, fullscreen).len(),
        0 <= dialog < stacked(stack, fullscreen).len(),
        !stacked(stack, fullscreen)[root].parented(),
        !fullscreen.contains(stacked(stack, fullscreen)[root].id),
        stacked(stack, fullscreen)[dialog].parented(),
        !stacked(stack, fullscreen)[dialog].widget(),
    ensures
        root < dialog,
{
    let w = stacked(stack, fullscreen)[root];
    assert forall|a: Window| #[trigger] stack.contains(a) implies
        !crate::state::hierarchy::descends(stack, w, a) by {
        crate::state::hierarchy::lemma_roots_descend_from_none(stack, w, a);
    }
    assert(!of_normal_window(stack, w));
    lemma_groups_ascend(stack, fullscreen, root, dialog);
}

/// Windows stay distinct in every order.
proof fn lemma_distinct_in_any_order(a: Seq<Window>, b: Seq<Window>)
    requires
        crate::state::windows::distinct_windows(a),
        a.to_multiset() == b.to_multiset(),
    ensures
        crate::state::windows::distinct_windows(b),
{
    broadcast use vstd::seq_lib::group_to_multiset_ensures;

    assert forall|i: int, j: int| 0 <= i < j < b.len() implies (#[trigger] b[i]).id != (
    #[trigger] b[j]).id by {
        if b[i].id == b[j].id {
            assert(b.contains(b[i]) && b.contains(b[j]));
            assert(b.to_multiset().count(b[i]) > 0 && b.to_multiset().count(b[j]) > 0);
            assert(a.contains(b[i]) && a.contains(b[j]));
            let x = choose|x: int| 0 <= x < a.len() && a[x] == b[i];
            let y = choose|y: int| 0 <= y < a.len() && a[y] == b[j];
            lemma_same_place(a, x, y);
            assert(a.no_duplicates()) by {
                assert forall|m: int, n: int|
                    0 <= m < a.len() && 0 <= n < a.len() && m != n implies a[m] != a[n] by {
                    if a[m] == a[n] {
                        lemma_same_place(a, m, n);
                    }
                }
            }
            a.lemma_multiset_has_no_duplicates();
            assert(a.to_multiset().count(b[i]) == 1);
            lemma_twice_counts(b, i, j);
        }
    }
}

/// An item that stands at two places is counted twice.
proof fn lemma_twice_counts(s: Seq<Window>, i: int, j: int)
    requires
        0 <= i < j < s.len(),
        s[i] == s[j],
    ensures
        s.to_multiset().count(s[i]) >= 2,
{
    broadcast use vstd::seq_lib::group_to_multiset_ensures;

    let low = s.take(j);
    let high = s.skip(j);
    assert(low + high =~= s);
    assert(low[i] == s[i] && high[0] == s[j]);
    assert(low.contains(s[i]) && high.contains(s[j]));
    assert(low.to_multiset().count(s[i]) > 0 && high.to_multiset().count(s[i]) > 0);
    vstd::seq_lib::lemma_multiset_commutative(low, high);
}

/// Grouping keeps windows distinct.
proof fn lemma_grouped_is_distinct(stack: Seq<Window>, fullscreen: Seq<u64>)
    requires
        crate::state::windows::distinct_windows(stack),
    ensures
        crate::state::windows::distinct_windows(grouped(stack, fullscreen)),
{
    lemma_grouped_permutes(stack, fullscreen);
    lemma_distinct_in_any_order(stack, grouped(stack, fullscreen));
}

/// Restoring the stacking order, and raising a window, keep windows distinct.
pub proof fn lemma_stacking_keeps_distinct(stack: Seq<Window>, fullscreen: Seq<u64>, id: u64)
    requires
        crate::state::windows::distinct_windows(stack),
    ensures
        crate::state::windows::distinct_windows(stacked(stack, fullscreen)),
        crate::state::windows::distinct_windows(raised(stack, id)),
{
    let it = the_window(id);
    crate::stack::lemma_filter_split(stack, it);
    vstd::seq_lib::lemma_multiset_commutative(
        stack.filter(|w: Window| !it(w)),
        stack.filter(it),
    );
    lemma_distinct_in_any_order(stack, raised(stack, id));
    lemma_stacked_permutes(stack, fullscreen);
    lemma_distinct_in_any_order(stack, stacked(stack, fullscreen));
}

/// Restoring the stacking order twice is the same as restoring it once.
pub proof fn lemma_stacking_twice(stack: Seq<Window>, fullscreen: Seq<u64>)
    requires
        crate::state::windows::distinct_windows(stack),
    ensures
        stacked(stacked(stack, fullscreen), fullscreen) == stacked(stack, fullscreen),
{
    let once = stacked(stack, fullscreen);
    let key = group_in(stack, fullscreen);
    let over = above_in(stack);
    lemma_stacked_permutes(stack, fullscreen);
    assert forall|w: Window| #[trigger] group_in(once, fullscreen)(w) == key(w) by {
        if of_normal_window(once, w) {
            let p = choose|p: Window| #[trigger]
                once.contains(p) && crate::state::hierarchy::belongs_to(w, p) && !p.widget();
            assert(stack.contains(p));
        }
        if of_normal_window(stack, w) {
            let p = choose|p: Window| #[trigger]
                stack.contains(p) && crate::state::hierarchy::belongs_to(w, p) && !p.widget();
            assert(once.contains(p));
        }
    }
    assert(group_in(once, fullscreen) =~= key);
    assert forall|x: Window, y: Window| #[trigger] above_in(once)(x, y) == over(x, y) by {
        crate::state::hierarchy::lemma_order_is_no_matter(once, stack, the_window(y.id), x);
        crate::state::hierarchy::lemma_order_is_no_matter(once, stack, the_window(x.id), y);
    }
    assert(above_in(once) =~= over);
    lemma_groups_are_keys(stack, fullscreen);
    lemma_groups_are_keys(once, fullscreen);
    lemma_above_is_strict(stack, stack);
    crate::lift::lemma_sorted_and_lifted_twice(stack, over, key, 5);
}

/// A window that is raised ends up above all others but those of higher groups,
/// their descendants and its own.
pub proof fn lemma_raised_is_topmost(
    stack: Seq<Window>,
    fullscreen: Seq<u64>,
    id: u64,
    at: int,
    other: int,
)
    requires
        crate::state::windows::distinct_windows(stack),
        ({
            let before = raised(stack, id);
            let after = stacked(before, fullscreen);
            &&& 0 <= at < other < after.len()
            &&& after[at].id == id
        }),
    ensures
        ({
            let before = raised(stack, id);
            let w = stacked(before, fullscreen)[at];
            let x = stacked(before, fullscreen)[other];
            let g = group(before, fullscreen, w);
            ||| group(before, fullscreen, x) > g
            ||| crate::state::hierarchy::descends(before, x, w)
            ||| exists|a: Window| #[trigger]
                before.contains(a) && crate::state::hierarchy::descends(before, x, a) && group(
                    before,
                    fullscreen,
                    a,
                ) > g
        }),
{
    let before = raised(stack, id);
    let after = stacked(before, fullscreen);
    let w = after[at];
    let x = after[other];
    let g = group(before, fullscreen, w);
    let key = group_in(before, fullscreen);
    lemma_stacking_keeps_distinct(stack, fullscreen, id);
    lemma_stacking_keeps_distinct(before, fullscreen, id);
    lemma_stacked_permutes(before, fullscreen);
    lemma_groups_are_keys(before, fullscreen);
    assert(after.contains(x) && after.contains(w));
    assert(x.id != w.id) by {
        assert(after[at].id != after[other].id);
    }
    if group(before, fullscreen, x) <= g && !crate::state::hierarchy::descends(before, x, w)
        && forall|a: Window| #[trigger]
        before.contains(a) && crate::state::hierarchy::descends(before, x, a) ==> group(
            before,
            fullscreen,
            a,
        ) <= g {
        assert forall|z: Window| #[trigger]
            before.contains(z) && z.id != id && group(before, fullscreen, z) <= g implies
            crate::stack::precedes(grouped(before, fullscreen), z, w) by {
            lemma_raised_lies_on_top(stack, id, z, w);
            crate::stack::lemma_by_key_precedes(before, key, 5, z, w);
        }
        assert forall|z: Window| #[trigger]
            before.contains(z) && crate::state::hierarchy::descends(before, x, z) implies
            crate::stack::precedes(grouped(before, fullscreen), z, w) by {
            if z.id == id {
                let i = choose|i: int| 0 <= i < before.len() && before[i] == z;
                let j = choose|j: int| 0 <= j < before.len() && before[j] == w;
                lemma_same_place(before, i, j);
            }
        }
        lemma_grouped_order_kept(before, fullscreen, other, at);
    }
}

/// Raising puts a window above all others.
proof fn lemma_raised_lies_on_top(stack: Seq<Window>, id: u64, z: Window, w: Window)
    requires
        raised(stack, id).contains(z),
        raised(stack, id).contains(w),
        z.id != id,
        w.id == id,
    ensures
        crate::stack::precedes(raised(stack, id), z, w),
{
    let it = the_window(id);
    let not_it = |v: Window| !it(v);
    crate::stack::lemma_to_top_members(stack, it);
    crate::stack::lemma_filter_holds(stack, it);
    crate::stack::lemma_filter_holds(stack, not_it);
    crate::stack::lemma_precedes_across(stack.filter(not_it), stack.filter(it), z, w);
}

/// The fullscreen windows are those that the entries name.
pub proof fn lemma_fullscreen_windows_are_named(entries: Seq<FullscreenEntry>, id: u64)
    ensures
        fullscreen_ids(entries).contains(id) <==> exists|i: int|
            0 <= i < entries.len() && (#[trigger] entries[i]).state.window == id,
{
    let ids = fullscreen_ids(entries);
    if ids.contains(id) {
        let i = choose|i: int| 0 <= i < ids.len() && ids[i] == id;
        assert(entries[i].state.window == id);
    }
    if exists|i: int| 0 <= i < entries.len() && (#[trigger] entries[i]).state.window == id {
        let i = choose|i: int|
            0 <= i < entries.len() && (#[trigger] entries[i]).state.window == id;
        assert(ids[i] == id);
    }
}

/// A window without a parent belongs to none and descends from none.
proof fn lemma_parentless_descends_from_none(stack: Seq<Window>, w: Window)
    requires
        w.parent is None,
    ensures
        forall|a: Window| #[trigger]
            stack.contains(a) ==> !crate::state::hierarchy::descends(stack, w, a),
        !of_normal_window(stack, w),
{
    assert forall|a: Window| #[trigger] stack.contains(a) implies
        !crate::state::hierarchy::descends(stack, w, a) by {
        crate::state::hierarchy::lemma_roots_descend_from_none(stack, w, a);
    }
}

/// A dialog lies above the window whose surface is its parent, whatever the two are,
/// after every restacking. Parent links are given to form no cycle: every window
/// ranks above the one that it belongs to.
pub proof fn lemma_dialogs_stay_above_their_windows(
    stack: Seq<Window>,
    entries: Seq<FullscreenEntry>,
    rank: spec_fn(int) -> int,
    dialog: int,
    owner: int,
)
    requires
        forall|i: int, j: int|
            0 <= i < j < stack.len() ==> (#[trigger] stack[i]).id != (#[trigger] stack[j]).id,
        forall|i: int, j: int|
            0 <= i < stack.len() && 0 <= j < stack.len() && (#[trigger] stack[i]).parent is Some
                && (#[trigger] stack[j]).surface is Some && stack[i].parent->0
                == stack[j].surface->0 ==> rank(i) > rank(j),
        ({
            let after = stacked(stack, fullscreen_ids(entries));
            &&& 0 <= dialog < after.len()
            &&& 0 <= owner < after.len()
            &&& after[dialog].parent is Some
            &&& after[owner].surface is Some
            &&& after[dialog].parent->0 == after[owner].surface->0
        }),
    ensures
        owner < dialog,
{
    crate::state::hierarchy::lemma_ranked_is_acyclic(stack, rank);
    lemma_children_lie_above_parents(stack, fullscreen_ids(entries), dialog, owner);
}

/// Restacking puts windows without a parent that are not fullscreen in two layers:
/// the widgets lie below the other ones, and within each layer the windows keep the
/// order that they had.
pub proof fn lemma_parentless_windows_in_two_layers(
    stack: Seq<Window>,
    entries: Seq<FullscreenEntry>,
    i: int,
    j: int,
    a: int,
    b: int,
)
    requires
        forall|m: int, n: int|
            0 <= m < n < stack.len() ==> (#[trigger] stack[m]).id != (#[trigger] stack[n]).id,
        0 <= i < stack.len(),
        0 <= j < stack.len(),
        stack[i].parent is None,
        stack[j].parent is None,
        forall|k: int|
            0 <= k < entries.len() ==> (#[trigger] entries[k]).state.window != stack[i].id,
        forall|k: int|
            0 <= k < entries.len() ==> (#[trigger] entries[k]).state.window != stack[j].id,
        0 <= a < stacked(stack, fullscreen_ids(entries)).len(),
        0 <= b < stacked(stack, fullscreen_ids(entries)).len(),
        stacked(stack, fullscreen_ids(entries))[a] == stack[i],
        stacked(stack, fullscreen_ids(entries))[b] == stack[j],
    ensures
        ({
            let widget_i = stack[i].surface is Some && stack[i].rule is Some
                && stack[i].rule->0.widget;
            let widget_j = stack[j].surface is Some && stack[j].rule is Some
                && stack[j].rule->0.widget;
            &&& widget_i && !widget_j ==> a < b
            &&& widget_i == widget_j && i < j ==> a < b
        }),
{
    let ids = fullscreen_ids(entries);
    lemma_fullscreen_windows_are_named(entries, stack[i].id);
    lemma_fullscreen_windows_are_named(entries, stack[j].id);
    lemma_parentless_descends_from_none(stack, stack[i]);
    lemma_parentless_descends_from_none(stack, stack[j]);
    if stack[i].widget() && !stack[j].widget() {
        lemma_groups_ascend(stack, ids, a, b);
    }
    if stack[i].widget() == stack[j].widget() && i < j {
        assert(crate::stack::precedes(stack, stack[i], stack[j]));
        lemma_order_is_kept(stack, ids, a, b);
    }
}

/// A fullscreen window lies above every window without a parent that is not
/// fullscreen, widget or not, and a window with a parent that is no widget lies above
/// them too. A widget whose parent is a window that is no widget lies above them as
/// well.
pub proof fn lemma_what_lies_above_parentless_windows(
    stack: Seq<Window>,
    entries: Seq<FullscreenEntry>,
    low: int,
    high: int,
    p: int,
)
    requires
        forall|m: int, n: int|
            0 <= m < n < stack.len() ==> (#[trigger] stack[m]).id != (#[trigger] stack[n]).id,
        ({
            let after = stacked(stack, fullscreen_ids(entries));
            &&& 0 <= low < after.len()
            &&& 0 <= high < after.len()
            &&& after[low].parent is None
            &&& forall|k: int|
                0 <= k < entries.len() ==> (#[trigger] entries[k]).state.window != after[low].id
        }),
    ensures
        ({
            let w = stacked(stack, fullscreen_ids(entries))[high];
            let widget = w.surface is Some && w.rule is Some && w.rule->0.widget;
            let full = exists|k: int|
                0 <= k < entries.len() && (#[trigger] entries[k]).state.window == w.id;
            let owned = 0 <= p < stack.len() && w.parent is Some && stack[p].surface == w.parent
                && !(stack[p].surface is Some && stack[p].rule is Some && stack[p].rule->0.widget);
            &&& full ==> low < high
            &&& !widget && w.parent is Some ==> low < high
            &&& widget && owned ==> low < high
        }),
{
    let ids = fullscreen_ids(entries);
    let after = stacked(stack, ids);
    let w = after[high];
    lemma_fullscreen_windows_are_named(entries, after[low].id);
    lemma_fullscreen_windows_are_named(entries, w.id);
    lemma_parentless_descends_from_none(stack, after[low]);
    let owned = 0 <= p < stack.len() && w.parent is Some && stack[p].surface == w.parent
        && !stack[p].widget();
    if owned {
        assert(stack.contains(stack[p]));
        assert(of_normal_window(stack, w));
    }
    if ids.contains(w.id) || (!w.widget() && w.parent is Some) || (w.widget() && owned) {
        lemma_groups_ascend(stack, ids, low, high);
    }
}

/// Raising a window moves it to the top and nothing else: the other windows keep
/// their order below it.
pub proof fn lemma_raising_keeps_the_others_in_order(
    stack: Seq<Window>,
    id: u64,
    i: int,
    j: int,
    a: int,
    b: int,
)
    requires
        forall|m: int, n: int|
            0 <= m < n < stack.len() ==> (#[trigger] stack[m]).id != (#[trigger] stack[n]).id,
        0 <= i < j < stack.len(),
        0 <= a < raised(stack, id).len(),
        0 <= b < raised(stack, id).len(),
        raised(stack, id)[a] == stack[i],
        raised(stack, id)[b] == stack[j],
    ensures
        stack[i].id != id ==> a < b,
        stack[i].id == id ==> b < a && a == stack.len() - 1,
        raised(stack, id).len() == stack.len(),
{
    let it = the_window(id);
    let not_it = |w: Window| !it(w);
    let after = raised(stack, id);
    let low = stack.filter(not_it);
    let high = stack.filter(it);
    lemma_stacking_keeps_distinct(stack, Seq::empty(), id);
    crate::stack::lemma_filter_holds(stack, it);
    crate::stack::lemma_filter_holds(stack, not_it);
    crate::stack::lemma_filter_split(stack, it);
    assert(stack.contains(stack[i]) && stack.contains(stack[j]));
    assert(stack[i].id != stack[j].id);
    lemma_one_of_a_kind(stack, it, id);
    assert(low.len() + high.len() == stack.len());
    if stack[i].id == id {
        assert(it(stack[i]));
        assert(high.contains(stack[i]));
        assert(low.contains(stack[j]));
        let k = choose|k: int| 0 <= k < low.len() && low[k] == stack[j];
        assert(after[k] == stack[j]);
        lemma_same_place(after, k, b);
        let m = choose|m: int| 0 <= m < high.len() && high[m] == stack[i];
        assert(after[low.len() + m] == stack[i]);
        lemma_same_place(after, low.len() + m, a);
    } else if stack[j].id == id {
        assert(low.contains(stack[i]));
        assert(high.contains(stack[j]));
        let k = choose|k: int| 0 <= k < low.len() && low[k] == stack[i];
        assert(after[k] == stack[i]);
        lemma_same_place(after, k, a);
        let m = choose|m: int| 0 <= m < high.len() && high[m] == stack[j];
        assert(after[low.len() + m] == stack[j]);
        lemma_same_place(after, low.len() + m, b);
    } else {
        lemma_filter_keeps_order(stack, not_it, i, j);
        let (k, m) = choose|k: int, m: int|
            0 <= k < m < low.len() && #[trigger] low[k] == stack[i] && #[trigger] low[m]
                == stack[j];
        assert(after[k] == stack[i] && after[m] == stack[j]);
        lemma_same_place(after, k, a);
        lemma_same_place(after, m, b);
    }
}

/// Of distinct windows at most one has an id.
proof fn lemma_one_of_a_kind(stack: Seq<Window>, it: spec_fn(Window) -> bool, id: u64)
    requires
        crate::state::windows::distinct_windows(stack),
        it == the_window(id),
    ensures
        stack.filter(it).len() <= 1,
    decreases stack.len(),
{
    reveal(Seq::filter);
    if stack.len() > 0 {
        let rest = stack.drop_last();
        lemma_one_of_a_kind(rest, it, id);
        if it(stack.last()) && rest.filter(it).len() > 0 {
            crate::stack::lemma_filter_holds(rest, it);
            let w = rest.filter(it)[0];
            assert(rest.filter(it).contains(w));
            assert(rest.contains(w));
            let k = choose|k: int| 0 <= k < rest.len() && rest[k] == w;
            assert(stack[k].id != stack[stack.len() - 1].id);
        }
    }
}

/// Filtering keeps the order of what it keeps.
proof fn lemma_filter_keeps_order(stack: Seq<Window>, keep: spec_fn(Window) -> bool, i: int, j: int)
    requires
        0 <= i < j < stack.len(),
        keep(stack[i]),
        keep(stack[j]),
    ensures
        exists|k: int, m: int|
            0 <= k < m < stack.filter(keep).len() && #[trigger] stack.filter(keep)[k] == stack[i]
                && #[trigger] stack.filter(keep)[m] == stack[j],
    decreases stack.len(),
{
    reveal(Seq::filter);
    let rest = stack.drop_last();
    let kept = stack.filter(keep);
    if j < rest.len() {
        lemma_filter_keeps_order(rest, keep, i, j);
        let (k, m) = choose|k: int, m: int|
            0 <= k < m < rest.filter(keep).len() && #[trigger] rest.filter(keep)[k] == rest[i]
                && #[trigger] rest.filter(keep)[m] == rest[j];
        assert(kept[k] == stack[i] && kept[m] == stack[j]);
    } else {
        assert(rest.contains(rest[i]));
        crate::stack::lemma_filter_holds(rest, keep);
        assert(rest.filter(keep).contains(rest[i]));
        let k = choose|k: int| 0 <= k < rest.filter(keep).len() && rest.filter(keep)[k] == rest[i];
        let m = rest.filter(keep).len() as int;
        assert(kept == rest.filter(keep).push(stack.last()));
        assert(kept[k] == stack[i] && kept[m] == stack[j]);
    }
}

/// A raised window without a parent, no widget and not fullscreen, ends up above all
/// other windows without a parent that are not fullscreen.
pub proof fn lemma_raised_window_is_seen(
    stack: Seq<Window>,
    entries: Seq<FullscreenEntry>,
    id: u64,
    at: int,
    other: int,
)
    requires
        forall|m: int, n: int|
            0 <= m < n < stack.len() ==> (#[trigger] stack[m]).id != (#[trigger] stack[n]).id,
        ({
            let after = stacked(raised(stack, id), fullscreen_ids(entries));
            &&& 0 <= at < after.len()
            &&& 0 <= other < after.len()
            &&& at != other
            &&& after[at].id == id
            &&& after[at].parent is None
            &&& !(after[at].surface is Some && after[at].rule is Some && after[at].rule->0.widget)
            &&& after[other].parent is None
            &&& forall|k: int|
                0 <= k < entries.len() ==> (#[trigger] entries[k]).state.window != after[other].id
        }),
    ensures
        other < at,
{
    let before = raised(stack, id);
    let ids = fullscreen_ids(entries);
    let after = stacked(before, ids);
    lemma_fullscreen_windows_are_named(entries, after[other].id);
    lemma_parentless_descends_from_none(before, after[other]);
    lemma_parentless_descends_from_none(before, after[at]);
    if at < other {
        lemma_raised_is_topmost(stack, ids, id, at, other);
        assert(group(before, ids, after[other]) <= 1);
        assert(group(before, ids, after[at]) >= 1);
        lemma_stacked_permutes(before, ids);
        assert(after.contains(after[at]));
        assert(before.contains(after[at]));
    }
}

} // verus!
