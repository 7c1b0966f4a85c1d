//! Which windows belong to which: parents, ancestors, and what a window has from
//! them.

use crate::state::windows::Window;
use vstd::prelude::*;

verus! {

/// `child` belongs to `parent`.
pub open spec fn belongs_to(child: Window, parent: Window) -> bool {
    child.parent is Some && child.parent == parent.surface
}

/// A window, or an ancestor at most `k` parent links up, has property `f`.
pub open spec fn inherits(
    stack: Seq<Window>,
    f: spec_fn(Window) -> bool,
    w: Window,
    k: nat,
) -> bool
    decreases k,
{
    f(w) || (k > 0 && exists|p: Window| #[trigger]
        stack.contains(p) && belongs_to(w, p) && inherits(stack, f, p, (k - 1) as nat))
}

/// A window or one of its ancestors on the canvas has property `f`.
pub open spec fn in_family(stack: Seq<Window>, f: spec_fn(Window) -> bool, w: Window) -> bool {
    exists|k: nat| inherits(stack, f, w, k)
}

/// `w` is `a`, or `a` is one of its ancestors.
pub open spec fn stems_from(stack: Seq<Window>, w: Window, a: Window) -> bool {
    in_family(stack, crate::state::stacking::the_window(a.id), w)
}

/// `a` is an ancestor of `w`, and not the other way round: on a cycle of parent
/// links no window descends from another.
pub open spec fn descends(stack: Seq<Window>, w: Window, a: Window) -> bool {
    stems_from(stack, w, a) && !stems_from(stack, a, w)
}

/// The windows at the given places of a stack each belong to the next one.
pub open spec fn lineage(stack: Seq<Window>, path: Seq<int>) -> bool {
    &&& forall|i: int| 0 <= i < path.len() ==> 0 <= #[trigger] path[i] < stack.len()
    &&& forall|i: int, j: int|
        0 <= i < path.len() && j == i + 1 && j < path.len() ==> belongs_to(
            stack[#[trigger] path[i]],
            stack[#[trigger] path[j]],
        )
}

/// No window is its own ancestor.
pub open spec fn acyclic(stack: Seq<Window>) -> bool {
    forall|path: Seq<int>|
        path.len() >= 2 && #[trigger] lineage(stack, path) ==> path.first() != path.last()
}

/// Every window lies above the one that it belongs to.
pub open spec fn children_above(stack: Seq<Window>) -> bool {
    forall|child: int, parent: int|
        0 <= child < stack.len() && 0 <= parent < stack.len() && belongs_to(
            #[trigger] stack[child],
            #[trigger] stack[parent],
        ) ==> parent < child
}

/// A window has the properties of its parent's family.
pub(crate) proof fn lemma_family_passed_on(
    stack: Seq<Window>,
    f: spec_fn(Window) -> bool,
    child: Window,
    parent: Window,
)
    requires
        stack.contains(parent),
        belongs_to(child, parent),
        in_family(stack, f, parent),
    ensures
        in_family(stack, f, child),
{
    let k = choose|k: nat| inherits(stack, f, parent, k);
    assert(inherits(stack, f, child, k + 1));
}

/// A window is of its own family, and of no other where it has no parent on the
/// canvas.
pub(crate) proof fn lemma_own_family(stack: Seq<Window>, f: spec_fn(Window) -> bool, w: Window)
    ensures
        f(w) ==> in_family(stack, f, w),
        !f(w) && (forall|p: Window| #[trigger] stack.contains(p) ==> !belongs_to(w, p))
            ==> !in_family(stack, f, w),
{
    if f(w) {
        assert(inherits(stack, f, w, 0));
    }
}

/// The family of a window depends on which windows there are, not on their order.
pub(crate) proof fn lemma_order_is_no_matter(
    a: Seq<Window>,
    b: Seq<Window>,
    f: spec_fn(Window) -> bool,
    w: Window,
)
    requires
        forall|p: Window| #[trigger] a.contains(p) <==> b.contains(p),
    ensures
        in_family(a, f, w) == in_family(b, f, w),
{
    assert forall|k: nat| #[trigger] inherits(a, f, w, k) == inherits(b, f, w, k) by {
        lemma_inherits_same(a, b, f, w, k);
    }
    if in_family(a, f, w) {
        let k = choose|k: nat| inherits(a, f, w, k);
        assert(inherits(b, f, w, k));
    }
    if in_family(b, f, w) {
        let k = choose|k: nat| inherits(b, f, w, k);
        assert(inherits(a, f, w, k));
    }
}

proof fn lemma_inherits_same(
    a: Seq<Window>,
    b: Seq<Window>,
    f: spec_fn(Window) -> bool,
    w: Window,
    k: nat,
)
    requires
        forall|p: Window| #[trigger] a.contains(p) <==> b.contains(p),
    ensures
        inherits(a, f, w, k) == inherits(b, f, w, k),
    decreases k,
{
    if k > 0 {
        assert forall|p: Window| #[trigger] a.contains(p) implies inherits(a, f, p, (k - 1) as nat)
            == inherits(b, f, p, (k - 1) as nat) by {
            lemma_inherits_same(a, b, f, p, (k - 1) as nat);
        }
        if inherits(a, f, w, k) && !f(w) {
            let p = choose|p: Window| #[trigger]
                a.contains(p) && belongs_to(w, p) && inherits(a, f, p, (k - 1) as nat);
            assert(b.contains(p));
        }
        if inherits(b, f, w, k) && !f(w) {
            let p = choose|p: Window| #[trigger]
                b.contains(p) && belongs_to(w, p) && inherits(b, f, p, (k - 1) as nat);
            assert(a.contains(p));
        }
    }
}

// ---------------------------------------------------------------------------
// Finding out
// ---------------------------------------------------------------------------

/// Whether a window belongs to one of the marked windows.
pub(crate) fn belongs_to_marked(stack: &Vec<Window>, marks: &Vec<bool>, at: usize) -> (b: bool)
    requires
        marks.len() == stack.len(),
        at < stack.len(),
    ensures
        b == exists|j: int|
            0 <= j < stack.len() && #[trigger] marks@[j] && belongs_to(
                stack@[at as int],
                stack@[j],
            ),
{
    let parent: u64 = match stack[at].parent {
        Some(parent) => parent,
        None => {
            return false;
        },
    };
    let mut j: usize = 0;
    while j < stack.len()
        invariant
            j <= stack.len(),
            marks.len() == stack.len(),
            at < stack.len(),
            stack@[at as int].parent == Some(parent),
            forall|i: int|
                0 <= i < j ==> !(#[trigger] marks@[i] && belongs_to(
                    stack@[at as int],
                    stack@[i],
                )),
        decreases stack.len() - j,
    {
        if marks[j] {
            if let Some(surface) = stack[j].surface {
                if surface == parent {
                    assert(marks@[j as int] && belongs_to(stack@[at as int], stack@[j as int]));
                    return true;
                }
            }
        }
        j += 1;
    }
    false
}

/// How many marks are missing.
spec fn missing(marks: Seq<bool>) -> nat
    decreases marks.len(),
{
    if marks.len() == 0 {
        0
    } else {
        missing(marks.drop_last()) + (if marks.last() {
            0nat
        } else {
            1
        })
    }
}

/// One mark more, one missing less.
proof fn lemma_missing_less(marks: Seq<bool>, at: int)
    requires
        0 <= at < marks.len(),
        !marks[at],
    ensures
        missing(marks.update(at, true)) < missing(marks),
    decreases marks.len(),
{
    let after = marks.update(at, true);
    if at == marks.len() - 1 {
        assert(after.drop_last() =~= marks.drop_last());
    } else {
        lemma_missing_less(marks.drop_last(), at);
        assert(after.drop_last() =~= marks.drop_last().update(at, true));
    }
}

/// The first window without a mark that belongs to a marked one.
fn find_next(stack: &Vec<Window>, marks: &Vec<bool>) -> (r: Option<usize>)
    requires
        marks.len() == stack.len(),
    ensures
        match r {
            Some(i) => {
                &&& i < stack.len()
                &&& !marks@[i as int]
                &&& exists|j: int|
                    0 <= j < stack.len() && #[trigger] marks@[j] && belongs_to(
                        stack@[i as int],
                        stack@[j],
                    )
            },
            None => forall|i: int, j: int|
                0 <= i < stack.len() && 0 <= j < stack.len() && #[trigger] marks@[j] && belongs_to(
                    stack@[i],
                    stack@[j],
                ) ==> #[trigger] marks@[i],
        },
{
    let mut i: usize = 0;
    while i < stack.len()
        invariant
            i <= stack.len(),
            marks.len() == stack.len(),
            forall|a: int, j: int|
                0 <= a < i && 0 <= j < stack.len() && #[trigger] marks@[j] && belongs_to(
                    stack@[a],
                    stack@[j],
                ) ==> #[trigger] marks@[a],
        decreases stack.len() - i,
    {
        if !marks[i] && belongs_to_marked(stack, marks, i) {
            return Some(i);
        }
        i += 1;
    }
    None
}

/// Passes marks on from every window to those that belong to it.
pub(crate) fn pass_on(stack: &Vec<Window>, marks: Vec<bool>, f: Ghost<spec_fn(Window) -> bool>) -> (r:
    Vec<bool>)
    requires
        marks.len() == stack.len(),
        forall|i: int| 0 <= i < stack.len() ==> #[trigger] marks@[i] == f@(stack@[i]),
    ensures
        r.len() == stack.len(),
        forall|i: int|
            0 <= i < stack.len() ==> #[trigger] r@[i] == in_family(stack@, f@, stack@[i]),
{
    let mut r: Vec<bool> = marks;
    proof {
        assert forall|i: int| 0 <= i < stack.len() && #[trigger] r@[i] implies in_family(
            stack@,
            f@,
            stack@[i],
        ) by {
            lemma_own_family(stack@, f@, stack@[i]);
        }
    }
    loop
        invariant
            r.len() == stack.len(),
            forall|i: int|
                0 <= i < stack.len() && f@(#[trigger] stack@[i]) ==> r@[i],
            forall|i: int|
                0 <= i < stack.len() && #[trigger] r@[i] ==> in_family(stack@, f@, stack@[i]),
        decreases missing(r@),
    {
        match find_next(stack, &r) {
            Some(i) => {
                proof {
                    let j = choose|j: int|
                        0 <= j < stack.len() && #[trigger] r@[j] && belongs_to(
                            stack@[i as int],
                            stack@[j],
                        );
                    assert(stack@.contains(stack@[j]));
                    lemma_family_passed_on(stack@, f@, stack@[i as int], stack@[j]);
                    lemma_missing_less(r@, i as int);
                }
                r.set(i, true);
            },
            None => {
                proof {
                    assert forall|i: int| 0 <= i < stack.len() implies #[trigger] r@[i]
                        == in_family(stack@, f@, stack@[i]) by {
                        if in_family(stack@, f@, stack@[i]) {
                            let k = choose|k: nat| inherits(stack@, f@, stack@[i], k);
                            lemma_marks_are_complete(stack@, f@, r@, i, k);
                        }
                    }
                }
                return r;
            },
        }
    }
}

/// Marks that are passed on everywhere cover the whole family.
proof fn lemma_marks_are_complete(
    stack: Seq<Window>,
    f: spec_fn(Window) -> bool,
    marks: Seq<bool>,
    at: int,
    k: nat,
)
    requires
        marks.len() == stack.len(),
        0 <= at < stack.len(),
        inherits(stack, f, stack[at], k),
        forall|i: int| 0 <= i < stack.len() && f(#[trigger] stack[i]) ==> marks[i],
        forall|i: int, j: int|
            0 <= i < stack.len() && 0 <= j < stack.len() && #[trigger] marks[j] && belongs_to(
                stack[i],
                stack[j],
            ) ==> #[trigger] marks[i],
    ensures
        marks[at],
    decreases k,
{
    if !f(stack[at]) {
        let p = choose|p: Window| #[trigger]
            stack.contains(p) && belongs_to(stack[at], p) && inherits(stack, f, p, (k - 1) as nat);
        let j = choose|j: int| 0 <= j < stack.len() && stack[j] == p;
        lemma_marks_are_complete(stack, f, marks, j, (k - 1) as nat);
        assert(marks[j]);
    }
}

/// Which windows stem from which: at `[j][i]` whether the window at `i` stems from
/// the one at `j`.
pub(crate) fn family_table(stack: &Vec<Window>) -> (r: Vec<Vec<bool>>)
    ensures
        r.len() == stack.len(),
        forall|j: int| 0 <= j < stack.len() ==> (#[trigger] r@[j]).len() == stack.len(),
        forall|i: int, j: int|
            0 <= i < stack.len() && 0 <= j < stack.len() ==> #[trigger] r@[j]@[i] == stems_from(
                stack@,
                stack@[i],
                stack@[j],
            ),
{
    let n: usize = stack.len();
    let mut r: Vec<Vec<bool>> = Vec::new();
    let mut j: usize = 0;
    while j < n
        invariant
            j <= n,
            n == stack.len(),
            r.len() == j,
            forall|b: int| 0 <= b < j ==> (#[trigger] r@[b]).len() == n,
            forall|a: int, b: int|
                0 <= a < n && 0 <= b < j ==> #[trigger] r@[b]@[a] == stems_from(
                    stack@,
                    stack@[a],
                    stack@[b],
                ),
        decreases n - j,
    {
        let id: u64 = stack[j].id;
        let mut marks: Vec<bool> = Vec::new();
        let mut i: usize = 0;
        while i < n
            invariant
                i <= n,
                n == stack.len(),
                marks.len() == i,
                forall|a: int|
                    0 <= a < i ==> #[trigger] marks@[a] == crate::state::stacking::the_window(id)(
                        stack@[a],
                    ),
            decreases n - i,
        {
            marks.push(stack[i].id == id);
            i += 1;
        }
        r.push(pass_on(stack, marks, Ghost(crate::state::stacking::the_window(id))));
        j += 1;
    }
    r
}

// ---------------------------------------------------------------------------
// Ancestors
// ---------------------------------------------------------------------------

/// Two windows of a stack with one id are one.
proof fn lemma_one_window(stack: Seq<Window>, x: Window, y: Window)
    requires
        crate::state::windows::distinct_windows(stack),
        stack.contains(x),
        stack.contains(y),
        x.id == y.id,
    ensures
        x == y,
{
    let i = choose|i: int| 0 <= i < stack.len() && stack[i] == x;
    let j = choose|j: int| 0 <= j < stack.len() && stack[j] == y;
    if i < j {
        assert(stack[i].id != stack[j].id);
    }
    if j < i {
        assert(stack[j].id != stack[i].id);
    }
}

/// Ancestors of ancestors are ancestors.
proof fn lemma_stems_through(stack: Seq<Window>, x: Window, y: Window, z: Window, k: nat)
    requires
        crate::state::windows::distinct_windows(stack),
        stack.contains(x),
        stack.contains(y),
        inherits(stack, crate::state::stacking::the_window(y.id), x, k),
        stems_from(stack, y, z),
    ensures
        stems_from(stack, x, z),
    decreases k,
{
    if x.id == y.id {
        lemma_one_window(stack, x, y);
    } else {
        let it = crate::state::stacking::the_window(y.id);
        let p = choose|p: Window| #[trigger]
            stack.contains(p) && belongs_to(x, p) && inherits(stack, it, p, (k - 1) as nat);
        lemma_stems_through(stack, p, y, z, (k - 1) as nat);
        lemma_family_passed_on(stack, crate::state::stacking::the_window(z.id), x, p);
    }
}

/// To descend from another window is a strict order: no two windows descend from
/// each other, and what descends from a descendant is a descendant.
pub proof fn lemma_descent_is_strict(stack: Seq<Window>, x: Window, y: Window, z: Window)
    requires
        crate::state::windows::distinct_windows(stack),
        stack.contains(x),
        stack.contains(y),
        stack.contains(z),
    ensures
        !(descends(stack, x, y) && descends(stack, y, x)),
        descends(stack, x, y) && descends(stack, y, z) ==> descends(stack, x, z),
{
    if descends(stack, x, y) && descends(stack, y, z) {
        let k = choose|k: nat|
            inherits(stack, crate::state::stacking::the_window(y.id), x, k);
        lemma_stems_through(stack, x, y, z, k);
        if stems_from(stack, z, x) {
            let k = choose|k: nat|
                inherits(stack, crate::state::stacking::the_window(x.id), z, k);
            lemma_stems_through(stack, z, x, y, k);
        }
    }
}

/// A window without a parent on the canvas descends from none.
pub(crate) proof fn lemma_roots_descend_from_none(stack: Seq<Window>, w: Window, a: Window)
    requires
        forall|p: Window| #[trigger] stack.contains(p) ==> !belongs_to(w, p),
    ensures
        !descends(stack, w, a),
{
    let it = crate::state::stacking::the_window(a.id);
    lemma_own_family(stack, it, w);
    lemma_own_family(stack, crate::state::stacking::the_window(w.id), a);
}

/// Where every window lies above the one that it belongs to, it lies above all its
/// ancestors. `all` holds the same windows in any order.
pub(crate) proof fn lemma_above_all_ancestors(
    all: Seq<Window>,
    stack: Seq<Window>,
    i: int,
    j: int,
    k: nat,
)
    requires
        crate::state::windows::distinct_windows(stack),
        forall|w: Window| #[trigger] all.contains(w) ==> stack.contains(w),
        children_above(stack),
        0 <= i < stack.len(),
        0 <= j < stack.len(),
        inherits(all, crate::state::stacking::the_window(stack[j].id), stack[i], k),
    ensures
        j <= i,
    decreases k,
{
    let it = crate::state::stacking::the_window(stack[j].id);
    if stack[i].id == stack[j].id {
        if i < j {
            assert(stack[i].id != stack[j].id);
        }
    } else {
        let p = choose|p: Window| #[trigger]
            all.contains(p) && belongs_to(stack[i], p) && inherits(all, it, p, (k - 1) as nat);
        assert(stack.contains(p));
        let m = choose|m: int| 0 <= m < stack.len() && stack[m] == p;
        assert(belongs_to(stack[i], stack[m]));
        lemma_above_all_ancestors(all, stack, m, j, (k - 1) as nat);
    }
}

// ---------------------------------------------------------------------------
// Parent links without cycles
// ---------------------------------------------------------------------------

/// A line stays one when a child of its first window is put in front.
proof fn lemma_line_grows(stack: Seq<Window>, at: int, rest: Seq<int>)
    requires
        0 <= at < stack.len(),
        rest.len() > 0,
        lineage(stack, rest),
        belongs_to(stack[at], stack[rest[0]]),
    ensures
        lineage(stack, seq![at] + rest),
{
    let path = seq![at] + rest;
    assert forall|i: int| 0 <= i < path.len() implies 0 <= #[trigger] path[i] < stack.len() by {
        if i > 0 {
            assert(path[i] == rest[i - 1]);
        }
    }
    assert forall|i: int, j: int|
        0 <= i < path.len() && j == i + 1 && j < path.len() implies belongs_to(
        stack[#[trigger] path[i]],
        stack[#[trigger] path[j]],
    ) by {
        assert(path[j] == rest[j - 1]);
        if i > 0 {
            assert(path[i] == rest[i - 1]);
        }
    }
}

/// A line leads from every window to each of its ancestors.
proof fn lemma_line_to_ancestor(stack: Seq<Window>, at: int, to: int, k: nat) -> (path: Seq<int>)
    requires
        crate::state::windows::distinct_windows(stack),
        0 <= at < stack.len(),
        0 <= to < stack.len(),
        inherits(stack, crate::state::stacking::the_window(stack[to].id), stack[at], k),
    ensures
        path.len() > 0,
        path.first() == at,
        path.last() == to,
        lineage(stack, path),
    decreases k,
{
    let it = crate::state::stacking::the_window(stack[to].id);
    if it(stack[at]) {
        if at < to {
            assert(stack[at].id != stack[to].id);
        }
        if to < at {
            assert(stack[to].id != stack[at].id);
        }
        seq![at]
    } else {
        let p = choose|p: Window| #[trigger]
            stack.contains(p) && belongs_to(stack[at], p) && inherits(
                stack,
                it,
                p,
                (k - 1) as nat,
            );
        let j = choose|j: int| 0 <= j < stack.len() && stack[j] == p;
        let rest = lemma_line_to_ancestor(stack, j, to, (k - 1) as nat);
        lemma_line_grows(stack, at, rest);
        seq![at] + rest
    }
}

/// Without cycles every window descends from the one that it belongs to.
pub proof fn lemma_children_descend(stack: Seq<Window>, child: int, parent: int)
    requires
        crate::state::windows::distinct_windows(stack),
        acyclic(stack),
        0 <= child < stack.len(),
        0 <= parent < stack.len(),
        belongs_to(stack[child], stack[parent]),
    ensures
        descends(stack, stack[child], stack[parent]),
{
    let c = stack[child];
    let p = stack[parent];
    let it = crate::state::stacking::the_window(p.id);
    assert(stack.contains(p));
    lemma_own_family(stack, it, p);
    lemma_family_passed_on(stack, it, c, p);
    if stems_from(stack, p, c) {
        let k = choose|k: nat|
            inherits(stack, crate::state::stacking::the_window(c.id), p, k);
        let path = lemma_line_to_ancestor(stack, parent, child, k);
        lemma_line_grows(stack, child, path);
        let circle = seq![child] + path;
        assert(circle.last() == path.last());
        assert(lineage(stack, circle));
    }
}

/// Whether parent links form a cycle depends on which windows there are, not on
/// their order.
pub(crate) proof fn lemma_cycles_same(a: Seq<Window>, b: Seq<Window>)
    requires
        acyclic(a),
        forall|w: Window| #[trigger] b.contains(w) ==> a.contains(w),
    ensures
        acyclic(b),
{
    assert forall|path: Seq<int>| path.len() >= 2 && #[trigger] lineage(b, path) implies
        path.first() != path.last() by {
        let place = |w: Window| choose|k: int| 0 <= k < a.len() && a[k] == w;
        let moved = Seq::new(path.len(), |i: int| place(b[path[i]]));
        assert forall|i: int| 0 <= i < moved.len() implies 0 <= #[trigger] moved[i] < a.len()
            && a[moved[i]] == b[path[i]] by {
            assert(b.contains(b[path[i]]));
            assert(a.contains(b[path[i]]));
        }
        assert forall|i: int, j: int|
            0 <= i < moved.len() && j == i + 1 && j < moved.len() implies belongs_to(
            a[#[trigger] moved[i]],
            a[#[trigger] moved[j]],
        ) by {
            assert(belongs_to(b[path[i]], b[path[j]]));
        }
        assert(lineage(a, moved));
        assert(moved.first() != moved.last());
    }
}

/// Where every window ranks above the one that it belongs to, parent links form
/// no cycle.
pub proof fn lemma_ranked_is_acyclic(stack: Seq<Window>, rank: spec_fn(int) -> int)
    requires
        forall|i: int, j: int|
            0 <= i < stack.len() && 0 <= j < stack.len() && belongs_to(
                #[trigger] stack[i],
                #[trigger] stack[j],
            ) ==> rank(i) > rank(j),
    ensures
        acyclic(stack),
{
    assert forall|path: Seq<int>| path.len() >= 2 && #[trigger] lineage(stack, path) implies
        path.first() != path.last() by {
        lemma_ranks_descend(stack, rank, path, path.len() - 1);
    }
}

/// Ranks descend along a line.
proof fn lemma_ranks_descend(
    stack: Seq<Window>,
    rank: spec_fn(int) -> int,
    path: Seq<int>,
    at: int,
)
    requires
        forall|i: int, j: int|
            0 <= i < stack.len() && 0 <= j < stack.len() && belongs_to(
                #[trigger] stack[i],
                #[trigger] stack[j],
            ) ==> rank(i) > rank(j),
        lineage(stack, path),
        1 <= at < path.len(),
    ensures
        rank(path[0]) > rank(path[at]),
    decreases at,
{
    assert(belongs_to(stack[path[at - 1]], stack[path[at]]));
    if at > 1 {
        lemma_ranks_descend(stack, rank, path, at - 1);
    }
}

/// A window belongs to another one exactly when its parent is the other one's
/// surface; one without a parent belongs to none, and none belongs to one without a
/// surface.
pub proof fn lemma_parents_are_surfaces(child: Window, parent: Window)
    ensures
        belongs_to(child, parent) <==> child.parent is Some && parent.surface is Some
            && child.parent->0 == parent.surface->0,
        child.parent is None ==> !belongs_to(child, parent),
        parent.surface is None ==> !belongs_to(child, parent),
{
}

} // verus!
