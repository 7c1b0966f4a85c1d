//! The seat: cursor images, keyboard lights, focus, drag and drop, constraints
//! and inhibitors.

use crate::geometry::{Point, Rect, Size};
use crate::scalar::{Scalar, ONE_BITS};
use crate::state::client::{client_is_unrestricted, ClientState};
use crate::state::output::Timestamp;
use crate::state::wm::{CursorIcon, CursorImageStatus, CursorState, DriftWm};
use vstd::prelude::*;

verus! {

broadcast use vstd::std_specs::hash::group_hash_axioms;

/// What follows from a change of the keyboard focus.
#[derive(Clone, Copy, Debug, PartialEq, Eq, Structural)]
pub struct FocusChange {
    /// The client that both selections belong to from now on.
    pub selection_client: Option<u64>,
    /// The surface whose window moves to the front of the focus history.
    pub history: Option<u64>,
}

/// The loading cursor is shown in place of the default one: a deadline is set and
/// its grace period is over.
pub open spec fn loading(cursor: CursorState, now: Timestamp) -> bool {
    &&& cursor.exec_cursor_deadline is Some
    &&& cursor.exec_cursor_show_at matches Some(t) ==> now.nanos >= t.nanos
}

/// The cursor that is shown when a client asks for `image`: none of it while the
/// compositor controls the cursor, and the loading cursor in place of the default
/// one.
pub open spec fn shown_image(
    cursor: CursorState,
    image: CursorImageStatus,
    now: Timestamp,
) -> CursorImageStatus {
    if cursor.grab_cursor || cursor.decoration_cursor {
        cursor.cursor_status
    } else if loading(cursor, now) && image == CursorImageStatus::Named(CursorIcon::Default) {
        CursorImageStatus::Named(CursorIcon::Wait)
    } else {
        image
    }
}

/// The numbers of the devices that are keyboards, in their order.
pub open spec fn keyboards_of(devices: Seq<bool>) -> Seq<usize> {
    Seq::new(devices.len(), |i: int| i as usize).filter(|i: usize| devices[i as int])
}

impl DriftWm {
    /// A client sets the cursor.
    pub fn cursor_image(&mut self, image: CursorImageStatus, now: Timestamp)
        ensures
            old(self).wf() ==> final(self).wf(),
            *final(self) == (DriftWm {
                cursor: CursorState {
                    cursor_status: shown_image(old(self).cursor, image, now),
                    ..old(self).cursor
                },
                ..*old(self)
            }),
    {
        if self.cursor.grab_cursor || self.cursor.decoration_cursor {
            return;
        }
        let grace_over: bool = match self.cursor.exec_cursor_show_at {
            Some(t) => now.nanos >= t.nanos,
            None => true,
        };
        if self.cursor.exec_cursor_deadline.is_some() && grace_over {
            if let CursorImageStatus::Named(CursorIcon::Default) = &image {
                self.cursor.cursor_status = CursorImageStatus::Named(CursorIcon::Wait);
                return;
            }
        }
        self.cursor.cursor_status = image;
    }

    /// The devices whose lights are updated: those that are keyboards.
    pub fn led_state_changed(&self, devices: &Vec<bool>) -> (r: Vec<usize>)
        ensures
            r@ == keyboards_of(devices@),
    {
        let ghost all = Seq::new(devices@.len(), |i: int| i as usize);
        let ghost keyboard = |i: usize| devices@[i as int];
        let mut r: Vec<usize> = Vec::new();
        let mut i: usize = 0;
        proof {
            reveal(Seq::filter);
            assert(all.take(0) =~= Seq::<usize>::empty());
        }
        while i < devices.len()
            invariant
                i <= devices.len(),
                all == Seq::new(devices@.len(), |i: int| i as usize),
                keyboard == (|i: usize| devices@[i as int]),
                r@ == all.take(i as int).filter(keyboard),
            decreases devices.len() - i,
        {
            proof {
                crate::stack::lemma_filter_take(all, keyboard, i as int);
            }
            if devices[i] {
                r.push(i);
            }
            i += 1;
        }
        assert(all.take(i as int) =~= all);
        r
    }

    /// The keyboard focus moved to a surface, whose client is given. While
    /// cycling through windows the focus history is frozen.
    pub fn focus_changed(&self, focused: Option<u64>, client: Option<u64>) -> (r: FocusChange)
        ensures
            r.selection_client == (if focused is Some {
                client
            } else {
                None
            }),
            r.history == (if self.cycle_state is None {
                focused
            } else {
                None
            }),
    {
        FocusChange {
            selection_client: if focused.is_some() {
                client
            } else {
                None
            },
            history: if self.cycle_state.is_none() {
                focused
            } else {
                None
            },
        }
    }

    /// A drag starts, with an icon or without.
    pub fn dnd_requested(&mut self, icon: Option<u64>)
        ensures
            old(self).wf() ==> final(self).wf(),
            *final(self) == (DriftWm { dnd_icon: icon, ..*old(self) }),
    {
        self.dnd_icon = icon;
    }

    /// A drag ends.
    pub fn dropped(&mut self)
        ensures
            old(self).wf() ==> final(self).wf(),
            *final(self) == (DriftWm { dnd_icon: None, ..*old(self) }),
    {
        self.dnd_icon = None;
    }

    /// Whether a buffer import is reported as successful: there is a renderer and
    /// it took the buffer. `import` is `None` without a renderer.
    pub fn dmabuf_imported(&self, import: Option<bool>) -> (b: bool)
        ensures
            b == (import == Some(true)),
    {
        match import {
            Some(taken) => taken,
            None => false,
        }
    }

    /// The scale that a new surface is told to prefer.
    pub fn new_fractional_scale(&self) -> (scale: Scalar)
        requires
            self.wf(),
        ensures
            scale == (match self.active() {
                Some(output) => output.scale,
                None => Scalar { bits: ONE_BITS },
            }),
            forall|i: int|
                0 <= i < self.outputs.len() && self.focused_output == Some(
                    (#[trigger] self.outputs@[i]).id,
                ) ==> scale == self.outputs@[i].scale,
    {
        proof {
            assert forall|i: int|
                0 <= i < self.outputs.len() && self.focused_output == Some(
                    (#[trigger] self.outputs@[i]).id,
                ) implies self.active() == Some(self.outputs@[i]) by {
                crate::state::view::lemma_active_output(*self, i);
            }
        }
        match self.active_index() {
            Some(i) => self.outputs[i].scale,
            None => Scalar::one(),
        }
    }

    /// A client that holds the pointer says where it expects the cursor. Returns
    /// the position of its window, to which the hint is relative; `None` means
    /// that the hint is ignored.
    pub fn cursor_position_hint(&self, surface: u64, constraint_active: bool) -> (r: Option<Point>)
        ensures
            r == (match crate::state::windows::window_of(self.windows@, surface) {
                Some(w) => if constraint_active {
                    Some(w.location)
                } else {
                    None
                },
                None => None,
            }),
            r matches Some(at) ==> constraint_active && exists|i: int|
                0 <= i < self.windows.len() && (#[trigger] self.windows@[i]).surface == Some(
                    surface,
                ) && self.windows@[i].location == at,
            r is None ==> !constraint_active || forall|i: int|
                0 <= i < self.windows.len() ==> (#[trigger] self.windows@[i]).surface != Some(
                    surface,
                ),
    {
        proof {
            lemma_window_of_is_on_the_canvas(self.windows@, surface);
        }
        if !constraint_active {
            return None;
        }
        match self.window_for_surface(surface) {
            Some(w) => Some(w.location),
            None => None,
        }
    }

    /// Whether a client may inhibit the compositor's shortcuts. `client` is what
    /// is known of the surface's client, `None` when the client is gone.
    pub fn new_inhibitor(&self, client: Option<Option<ClientState>>) -> (activate: bool)
        ensures
            activate == !(client matches Some(Some(state)) && state.is_restricted),
    {
        match client {
            Some(state) => client_is_unrestricted(state),
            None => true,
        }
    }

    /// The geometry of the window that an input-method popup belongs to; empty
    /// when there is none.
    pub fn parent_geometry(&self, parent: u64) -> (r: Rect)
        ensures
            r == (match crate::state::windows::window_of(self.windows@, parent) {
                Some(w) => w.geometry,
                None => Rect { loc: Point { x: 0, y: 0 }, size: Size { w: 0, h: 0 } },
            }),
            (exists|i: int|
                0 <= i < self.windows.len() && (#[trigger] self.windows@[i]).surface == Some(
                    parent,
                )) ==> exists|i: int|
                0 <= i < self.windows.len() && (#[trigger] self.windows@[i]).surface == Some(
                    parent,
                ) && self.windows@[i].geometry == r,
    {
        proof {
            lemma_window_of_is_on_the_canvas(self.windows@, parent);
        }
        match self.window_for_surface(parent) {
            Some(w) => w.geometry,
            None => Rect { loc: Point { x: 0, y: 0 }, size: Size { w: 0, h: 0 } },
        }
    }

    /// A surface asks to keep the screen awake.
    pub fn inhibit(&mut self, surface: u64)
        ensures
            old(self).wf() ==> final(self).wf(),
            final(self).idle_inhibiting_surfaces@ == old(self).idle_inhibiting_surfaces@.insert(
                surface,
            ),
            *final(self) == (DriftWm {
                idle_inhibiting_surfaces: final(self).idle_inhibiting_surfaces,
                ..*old(self)
            }),
    {
        self.idle_inhibiting_surfaces.insert(surface);
    }

    /// A surface no longer asks to keep the screen awake.
    pub fn uninhibit(&mut self, surface: u64)
        ensures
            old(self).wf() ==> final(self).wf(),
            final(self).idle_inhibiting_surfaces@ == old(self).idle_inhibiting_surfaces@.remove(
                surface,
            ),
            *final(self) == (DriftWm {
                idle_inhibiting_surfaces: final(self).idle_inhibiting_surfaces,
                ..*old(self)
            }),
    {
        self.idle_inhibiting_surfaces.remove(&surface);
    }
}

/// A client's cursor is shown as it asks, with two exceptions: while a grab or a
/// decoration controls the cursor nothing changes, and while the loading cursor runs
/// it stands in for the default one. It runs from the end of its grace period on, or
/// at once without one, and only while it has a deadline.
pub proof fn lemma_cursor_follows_the_client(
    cursor: CursorState,
    image: CursorImageStatus,
    now: Timestamp,
)
    ensures
        ({
            let shown = shown_image(cursor, image, now);
            let kept = cursor.grab_cursor || cursor.decoration_cursor;
            let runs = cursor.exec_cursor_deadline is Some && (cursor.exec_cursor_show_at is None
                || cursor.exec_cursor_show_at->0.nanos <= now.nanos);
            &&& kept ==> shown == cursor.cursor_status
            &&& !kept && image is Hidden ==> shown == image
            &&& !kept && image is Surface ==> shown == image
            &&& !kept && image is Named && !(image->Named_0 is Default) ==> shown == image
            &&& !kept && image is Named && image->Named_0 is Default && !runs ==> shown == image
            &&& !kept && image is Named && image->Named_0 is Default && runs ==> shown is Named
                && shown->Named_0 is Wait
        }),
{
}

/// The lights are updated on exactly the devices that are keyboards, each once and
/// in their order.
pub proof fn lemma_lights_go_to_keyboards(devices: Seq<bool>, i: int)
    requires
        devices.len() <= usize::MAX,
        0 <= i < devices.len(),
    ensures
        keyboards_of(devices).contains(i as usize) <==> devices[i],
        forall|a: int, b: int|
            0 <= a < b < keyboards_of(devices).len() ==> (#[trigger] keyboards_of(devices)[a]) < (
            #[trigger] keyboards_of(devices)[b]),
        forall|a: int|
            0 <= a < keyboards_of(devices).len() ==> (#[trigger] keyboards_of(devices)[a])
                < devices.len(),
{
    let all = Seq::new(devices.len(), |i: int| i as usize);
    let keyboard = |i: usize| devices[i as int];
    lemma_numbers_stay_in_order(all, keyboard, devices.len() as int);
    assert(all.take(devices.len() as int) =~= all);
    let kept = all.filter(keyboard);
    if kept.contains(i as usize) {
        let a = choose|a: int| 0 <= a < kept.len() && kept[a] == i as usize;
        assert(keyboard(kept[a]));
    }
    if devices[i] {
        assert(all[i] == i as usize);
        assert(keyboard(all[i]));
        all.lemma_filter_contains(keyboard, i);
    }
}

/// Filtering numbers that grow leaves numbers that grow.
proof fn lemma_numbers_stay_in_order(all: Seq<usize>, keep: spec_fn(usize) -> bool, n: int)
    requires
        0 <= n <= all.len(),
        forall|i: int| 0 <= i < all.len() ==> #[trigger] all[i] == i,
    ensures
        forall|a: int, b: int|
            0 <= a < b < all.take(n).filter(keep).len() ==> (#[trigger] all.take(n).filter(
                keep,
            )[a]) < (#[trigger] all.take(n).filter(keep)[b]),
        forall|a: int|
            0 <= a < all.take(n).filter(keep).len() ==> (#[trigger] all.take(n).filter(keep)[a])
                < n && keep(all.take(n).filter(keep)[a]),
    decreases n,
{
    if n == 0 {
        reveal(Seq::filter);
        assert(all.take(0).filter(keep).len() == 0);
    } else {
        lemma_numbers_stay_in_order(all, keep, n - 1);
        crate::stack::lemma_filter_take(all, keep, n - 1);
    }
}

/// The window of a surface is one on the canvas with that surface, and there is one
/// whenever some window has it.
proof fn lemma_window_of_is_on_the_canvas(stack: Seq<crate::state::windows::Window>, surface: u64)
    ensures
        crate::state::windows::window_of(stack, surface) matches Some(w) ==> exists|i: int|
            0 <= i < stack.len() && #[trigger] stack[i] == w && stack[i].surface == Some(surface),
        crate::state::windows::window_of(stack, surface) is None ==> forall|i: int|
            0 <= i < stack.len() ==> (#[trigger] stack[i]).surface != Some(surface),
{
    if exists|i: int| 0 <= i < stack.len() && (#[trigger] stack[i]).surface == Some(surface) {
        let i = choose|i: int|
            0 <= i < stack.len() && (#[trigger] stack[i]).surface == Some(surface);
        let k = lemma_lowest(stack, surface, i);
        crate::state::windows::lemma_windows_are_found(stack, surface, 0, k);
        assert(stack[k].surface == Some(surface));
    } else {
        crate::state::windows::lemma_windows_are_found(stack, surface, 0, 0);
    }
}

/// Where the lowest window with a surface stands.
proof fn lemma_lowest(stack: Seq<crate::state::windows::Window>, surface: u64, i: int) -> (k: int)
    requires
        0 <= i < stack.len(),
        stack[i].surface == Some(surface),
    ensures
        0 <= k <= i,
        stack[k].surface == Some(surface),
        forall|j: int| 0 <= j < k ==> (#[trigger] stack[j]).surface != Some(surface),
    decreases i,
{
    if exists|j: int| 0 <= j < i && (#[trigger] stack[j]).surface == Some(surface) {
        let j = choose|j: int| 0 <= j < i && (#[trigger] stack[j]).surface == Some(surface);
        lemma_lowest(stack, surface, j)
    } else {
        i
    }
}

} // verus!
