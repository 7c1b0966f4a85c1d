//! Windows, how they are found, and the order in which they are stacked.
//!
//! A stack lists its windows from the bottom up: the last one is the topmost.

use crate::config::rules::AppliedWindowRule;
use crate::geometry::{Point, PointF, Rect, Size};
use crate::scalar::Scalar;
use vstd::prelude::*;

verus! {

/// A window as the window manager sees it.
#[derive(Debug)]
pub struct Window {
    pub id: u64,
    /// The window's surface, while it has one.
    pub surface: Option<u64>,
    /// The surface of the window that this one belongs to.
    pub parent: Option<u64>,
    pub modal: bool,
    /// Where the content's top-left corner stands on the canvas.
    pub location: Point,
    /// The content's rectangle, in the coordinates of the surface.
    pub geometry: Rect,
    /// What the surface and its subsurfaces cover, in the coordinates of the
    /// surface.
    pub bbox: Rect,
    /// What the matching window rules do to the window.
    pub rule: Option<AppliedWindowRule>,
}

/// Saved state for a fullscreen window, restored on exit.
#[derive(Clone, Copy, Debug)]
pub struct FullscreenState {
    pub window: u64,
    pub saved_location: Point,
    pub saved_camera: PointF,
    pub saved_zoom: Scalar,
    pub saved_size: Size,
}

/// An output in fullscreen mode.
#[derive(Clone, Copy, Debug)]
pub struct FullscreenEntry {
    pub output: u64,
    pub state: FullscreenState,
}

impl Window {
    /// A widget is pinned and stacked below normal windows; only one that belongs to
    /// a normal window lies above those without a parent.
    pub open spec fn widget(self) -> bool {
        &&& self.surface is Some
        &&& self.rule matches Some(rule)
        &&& rule.widget
    }

    /// The window belongs to another one.
    pub open spec fn parented(self) -> bool {
        self.parent is Some
    }

    pub fn is_widget(&self) -> (b: bool)
        ensures
            b == self.widget(),
    {
        match &self.rule {
            Some(rule) => self.surface.is_some() && rule.widget,
            None => false,
        }
    }
}

/// No two windows of a stack are the same.
pub open spec fn distinct_windows(stack: Seq<Window>) -> bool {
    forall|i: int, j: int| 0 <= i < j < stack.len() ==> (#[trigger] stack[i]).id != (
    #[trigger] stack[j]).id
}

/// Whether a window is in a stack.
pub open spec fn has_window(stack: Seq<Window>, id: u64) -> bool {
    exists|i: int| 0 <= i < stack.len() && (#[trigger] stack[i]).id == id
}

// ---------------------------------------------------------------------------
// Finding windows
// ---------------------------------------------------------------------------

/// The windows with the given surface.
pub open spec fn of_surface(surface: u64) -> spec_fn(Window) -> bool {
    |w: Window| w.surface == Some(surface)
}

/// The window of a surface: the lowest one that has it.
pub open spec fn window_of(stack: Seq<Window>, surface: u64) -> Option<Window> {
    crate::stack::first_of(stack, of_surface(surface))
}

/// The window with the given id.
pub open spec fn window_by_id(stack: Seq<Window>, id: u64) -> Option<Window> {
    crate::stack::first_of(stack, crate::state::stacking::the_window(id))
}

/// Where the window of a surface stands.
pub(crate) fn find_surface(stack: &Vec<Window>, surface: u64) -> (r: Option<usize>)
    ensures
        match r {
            Some(i) => i < stack.len() && stack@[i as int].surface == Some(surface) && window_of(
                stack@,
                surface,
            ) == Some(stack@[i as int]),
            None => window_of(stack@, surface) is None && forall|j: int|
                0 <= j < stack.len() ==> (#[trigger] stack@[j]).surface != Some(surface),
        },
{
    let mut i: usize = 0;
    while i < stack.len()
        invariant
            i <= stack.len(),
            forall|j: int| 0 <= j < i ==> (#[trigger] stack@[j]).surface != Some(surface),
        decreases stack.len() - i,
    {
        if let Some(s) = stack[i].surface {
            if s == surface {
                proof {
                    crate::stack::lemma_ends_are_unique(stack@, of_surface(surface), i as int);
                }
                return Some(i);
            }
        }
        i += 1;
    }
    None
}

/// Where the window with the given id stands.
pub(crate) fn find_id(stack: &Vec<Window>, id: u64) -> (r: Option<usize>)
    ensures
        match r {
            Some(i) => i < stack.len() && stack@[i as int].id == id && window_by_id(stack@, id)
                == Some(stack@[i as int]) && has_window(stack@, id),
            None => window_by_id(stack@, id) is None && !has_window(stack@, id),
        },
{
    let mut i: usize = 0;
    while i < stack.len()
        invariant
            i <= stack.len(),
            forall|j: int| 0 <= j < i ==> (#[trigger] stack@[j]).id != id,
        decreases stack.len() - i,
    {
        if stack[i].id == id {
            proof {
                crate::stack::lemma_ends_are_unique(
                    stack@,
                    crate::state::stacking::the_window(id),
                    i as int,
                );
            }
            return Some(i);
        }
        i += 1;
    }
    None
}

// ---------------------------------------------------------------------------
// Modal children
// ---------------------------------------------------------------------------

/// The modal dialogs of the window with surface `parent`.
pub open spec fn modal_of(parent: u64) -> spec_fn(Window) -> bool {
    |w: Window| w.parent == Some(parent) && w.modal
}

/// The topmost modal dialog of the window with the given surface.
pub open spec fn modal_child(stack: Seq<Window>, surface: Option<u64>) -> Option<Window> {
    match surface {
        Some(parent) => crate::stack::last_of(stack, modal_of(parent)),
        None => None,
    }
}

/// The last window of the chain of modal dialogs that starts at the window with
/// the given surface, after at most `depth` steps.
pub open spec fn innermost_modal(
    stack: Seq<Window>,
    surface: Option<u64>,
    depth: nat,
) -> Option<Window>
    decreases depth,
{
    if depth == 0 {
        None
    } else {
        match modal_child(stack, surface) {
            Some(child) => match innermost_modal(stack, child.surface, (depth - 1) as nat) {
                Some(inner) => Some(inner),
                None => Some(child),
            },
            None => None,
        }
    }
}

/// The dialog `steps` steps down the chain that starts at the window with the
/// given surface.
pub open spec fn nth_modal(stack: Seq<Window>, surface: Option<u64>, steps: nat) -> Option<Window>
    decreases steps,
{
    if steps == 0 {
        None
    } else if steps == 1 {
        modal_child(stack, surface)
    } else {
        match modal_child(stack, surface) {
            Some(child) => nth_modal(stack, child.surface, (steps - 1) as nat),
            None => None,
        }
    }
}

/// How many modal dialogs in a row are followed.
pub const MODAL_DEPTH: u8 = 10;

/// The topmost modal dialog of the window with the given surface.
fn find_modal_child(stack: &Vec<Window>, surface: Option<u64>) -> (r: Option<&Window>)
    ensures
        match r {
            Some(child) => modal_child(stack@, surface) == Some(*child),
            None => modal_child(stack@, surface) is None,
        },
{
    let parent: u64 = match surface {
        Some(surface) => surface,
        None => {
            return None;
        },
    };
    let mut i: usize = stack.len();
    while i > 0
        invariant
            i <= stack.len(),
            forall|j: int| i <= j < stack.len() ==> !modal_of(parent)(#[trigger] stack@[j]),
            surface == Some(parent),
        decreases i,
    {
        i -= 1;
        if let Some(p) = stack[i].parent {
            if p == parent && stack[i].modal {
                proof {
                    crate::stack::lemma_ends_are_unique(stack@, modal_of(parent), i as int);
                }
                return Some(&stack[i]);
            }
        }
    }
    None
}

/// Follows a chain of modal dialogs for at most `depth` steps.
pub(crate) fn topmost_modal_child_inner(
    stack: &Vec<Window>,
    surface: Option<u64>,
    depth: u8,
) -> (r: Option<&Window>)
    ensures
        match r {
            Some(child) => innermost_modal(stack@, surface, depth as nat) == Some(*child),
            None => innermost_modal(stack@, surface, depth as nat) is None,
        },
    decreases depth,
{
    if depth == 0 {
        return None;
    }
    match find_modal_child(stack, surface) {
        Some(child) => match topmost_modal_child_inner(stack, child.surface, depth - 1) {
            Some(inner) => Some(inner),
            None => Some(child),
        },
        None => None,
    }
}

/// The redirect goes to the end of the chain of modal dialogs: the window found
/// has no modal dialog of its own, unless the chain was cut off at `depth`
/// steps. There is no redirect exactly when the window has no modal dialog.
pub proof fn lemma_redirect_goes_to_the_end(
    stack: Seq<Window>,
    surface: Option<u64>,
    depth: nat,
)
    requires
        depth > 0,
    ensures
        innermost_modal(stack, surface, depth) is None <==> modal_child(stack, surface) is None,
        innermost_modal(stack, surface, depth) matches Some(inner) ==> exists|steps: nat|
            1 <= steps <= depth && #[trigger] nth_modal(stack, surface, steps) == Some(inner) && (
            steps == depth || modal_child(stack, inner.surface) is None),
    decreases depth,
{
    if let Some(child) = modal_child(stack, surface) {
        assert(nth_modal(stack, surface, 1) == Some(child));
        if depth == 1 {
            assert(innermost_modal(stack, child.surface, 0) is None);
        } else {
            lemma_redirect_goes_to_the_end(stack, child.surface, (depth - 1) as nat);
            if let Some(inner) = innermost_modal(stack, child.surface, (depth - 1) as nat) {
                let steps = choose|steps: nat|
                    1 <= steps <= depth - 1 && #[trigger] nth_modal(stack, child.surface, steps)
                        == Some(inner) && (steps == depth - 1 || modal_child(
                        stack,
                        inner.surface,
                    ) is None);
                assert(nth_modal(stack, surface, steps + 1) == Some(inner));
            }
        }
    }
}

/// A surface's window is the lowest one that has the surface, and a window with an
/// id is the lowest one that has the id; there is none only where no window has it.
pub proof fn lemma_windows_are_found(stack: Seq<Window>, surface: u64, id: u64, i: int)
    ensures
        0 <= i < stack.len() && stack[i].surface == Some(surface) && (forall|j: int|
            0 <= j < i ==> (#[trigger] stack[j]).surface != Some(surface)) ==> window_of(
            stack,
            surface,
        ) == Some(stack[i]),
        (forall|j: int| 0 <= j < stack.len() ==> (#[trigger] stack[j]).surface != Some(surface))
            ==> window_of(stack, surface) is None,
        0 <= i < stack.len() && stack[i].id == id && (forall|j: int|
            0 <= j < i ==> (#[trigger] stack[j]).id != id) ==> window_by_id(stack, id) == Some(
            stack[i],
        ),
        (forall|j: int| 0 <= j < stack.len() ==> (#[trigger] stack[j]).id != id) ==> window_by_id(
            stack,
            id,
        ) is None,
{
    let by_surface = of_surface(surface);
    let by_id = crate::state::stacking::the_window(id);
    if 0 <= i < stack.len() && stack[i].surface == Some(surface) && (forall|j: int|
        0 <= j < i ==> (#[trigger] stack[j]).surface != Some(surface)) {
        assert(crate::stack::first_at(stack, by_surface, i));
        crate::stack::lemma_ends_are_unique(stack, by_surface, i);
    }
    if 0 <= i < stack.len() && stack[i].id == id && (forall|j: int|
        0 <= j < i ==> (#[trigger] stack[j]).id != id) {
        assert(crate::stack::first_at(stack, by_id, i));
        crate::stack::lemma_ends_are_unique(stack, by_id, i);
    }
}

/// The modal dialog of a window is the topmost modal window that has the window for
/// its parent; there is none only where no modal window has.
pub proof fn lemma_modal_dialog_is_the_topmost(stack: Seq<Window>, surface: u64, i: int)
    ensures
        0 <= i < stack.len() && stack[i].parent == Some(surface) && stack[i].modal && (forall|
            j: int,
        |
            i < j < stack.len() ==> !((#[trigger] stack[j]).parent == Some(surface)
                && stack[j].modal)) ==> modal_child(stack, Some(surface)) == Some(stack[i]),
        (forall|j: int|
            0 <= j < stack.len() ==> !((#[trigger] stack[j]).parent == Some(surface)
                && stack[j].modal)) ==> modal_child(stack, Some(surface)) is None,
        modal_child(stack, None) is None,
{
    let modal = modal_of(surface);
    if 0 <= i < stack.len() && stack[i].parent == Some(surface) && stack[i].modal && (forall|
        j: int,
    |
        i < j < stack.len() ==> !((#[trigger] stack[j]).parent == Some(surface)
            && stack[j].modal)) {
        assert(crate::stack::last_at(stack, modal, i));
        crate::stack::lemma_ends_are_unique(stack, modal, i);
    }
}

/// A chain of at most ten modal dialogs is followed to its end; of a longer one the
/// tenth dialog is found.
pub proof fn lemma_modal_chain_is_followed(
    stack: Seq<Window>,
    surface: Option<u64>,
    steps: nat,
    depth: nat,
)
    requires
        1 <= steps <= depth,
        nth_modal(stack, surface, steps) is Some,
        steps == depth || modal_child(stack, nth_modal(stack, surface, steps)->0.surface) is None,
    ensures
        innermost_modal(stack, surface, depth) == nth_modal(stack, surface, steps),
        MODAL_DEPTH == 10,
    decreases steps,
{
    let child = modal_child(stack, surface)->0;
    if steps == 1 {
        if depth == 1 {
            assert(innermost_modal(stack, child.surface, 0) is None);
        } else {
            assert(innermost_modal(stack, child.surface, (depth - 1) as nat) is None);
        }
    } else {
        lemma_modal_chain_is_followed(
            stack,
            child.surface,
            (steps - 1) as nat,
            (depth - 1) as nat,
        );
    }
}

/// A window is a widget exactly when it has a surface and its rule makes it one, and
/// belongs to another one exactly when it names a parent.
pub proof fn lemma_what_makes_a_widget(w: Window)
    ensures
        w.surface is None ==> !w.widget(),
        w.rule is None ==> !w.widget(),
        w.surface is Some && w.rule is Some ==> w.widget() == w.rule->0.widget,
        w.parented() <==> w.parent is Some,
{
}

/// A window is in a stack exactly when some place of the stack has its id.
pub proof fn lemma_window_is_in_a_stack(stack: Seq<Window>, id: u64, i: int)
    ensures
        0 <= i < stack.len() && stack[i].id == id ==> has_window(stack, id),
        (forall|j: int| 0 <= j < stack.len() ==> (#[trigger] stack[j]).id != id) ==> !has_window(
            stack,
            id,
        ),
{
}

} // verus!
