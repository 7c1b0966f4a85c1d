//! Locking and unlocking the session.

use crate::geometry::Size;
use crate::state::output::{output_logical_size, Output, OutputState};
use crate::state::wm::{CursorIcon, CursorImageStatus, CursorState, DriftWm, SessionLock};
use vstd::prelude::*;

verus! {

broadcast use vstd::std_specs::hash::group_hash_axioms;

/// What is left to do when the session locks.
#[derive(Clone, Copy, Debug, PartialEq, Eq, Structural)]
pub struct LockEffects {
    /// The timer of a buffered middle click, which must not fire any more.
    pub cancel_timer: Option<u64>,
    /// The surface whose pointer constraint is deactivated: without this a
    /// client with a locked pointer would keep the cursor pinned.
    pub release_constraint: Option<u64>,
}

/// The size that a lock surface is told to take, and its output.
#[derive(Clone, Copy, Debug, PartialEq, Eq, Structural)]
pub struct LockConfigure {
    pub output: u64,
    pub width: u32,
    pub height: u32,
}

/// The output after the session locked: what moves it has stopped.
pub open spec fn locked_output(output: Output) -> Output {
    if output.location is Some {
        Output { state: Some(output.viewport().halted()), ..output }
    } else {
        output
    }
}

impl DriftWm {
    /// `self` is `before` with the session lock requested: the gesture, the held
    /// key, the buffered click, window cycling and what moves the viewports are
    /// gone, no window has the focus, and every active output is drawn anew. A
    /// timer that launches momentum keeps running.
    pub open spec fn locked_from(self, before: DriftWm, confirmation: u64) -> bool {
        &&& self == (DriftWm {
            session_lock: SessionLock::Pending(confirmation),
            gesture_state: None,
            outputs: self.outputs,
            held_action: None,
            cursor: CursorState {
                grab_cursor: false,
                exec_cursor_show_at: None,
                exec_cursor_deadline: None,
                cursor_status: CursorImageStatus::Named(CursorIcon::Default),
                ..before.cursor
            },
            cycle_state: None,
            suppressed_keys: self.suppressed_keys,
            pending_middle_click: None,
            keyboard_focus: None,
            redraws_needed: self.redraws_needed,
            ..before
        })
        &&& self.outputs@ == before.outputs@.map_values(|output: Output| locked_output(output))
        &&& self.suppressed_keys@ == Set::<u32>::empty()
        &&& self.redraws_needed@ == before.redraws_needed@.union(before.active_crtcs@)
    }

    /// A client asks to lock the session. `pointer_focus` is the surface under
    /// the pointer, with whether it holds an active pointer constraint.
    pub fn lock(&mut self, confirmation: u64, pointer_focus: Option<(u64, bool)>) -> (effects:
        LockEffects)
        requires
            old(self).wf(),
        ensures
            final(self).wf(),
            final(self).locked_from(*old(self), confirmation),
            effects.cancel_timer == (match old(self).pending_middle_click {
                Some(pending) => Some(pending.timer_token),
                None => None,
            }),
            effects.release_constraint == (match pointer_focus {
                Some((surface, true)) => Some(surface),
                _ => None,
            }),
    {
        self.session_lock = SessionLock::Pending(confirmation);
        self.gesture_state = None;
        let ghost mid = *self;
        let mut i: usize = 0;
        while i < self.outputs.len()
            invariant
                i <= self.outputs.len(),
                self.outputs.len() == mid.outputs.len(),
                mid.wf(),
                *self == (DriftWm { outputs: self.outputs, ..mid }),
                forall|j: int|
                    0 <= j < i ==> #[trigger] self.outputs@[j] == locked_output(mid.outputs@[j]),
                forall|j: int|
                    i <= j < self.outputs.len() ==> #[trigger] self.outputs@[j] == mid.outputs@[j],
            decreases self.outputs.len() - i,
        {
            assert(mid.outputs@[i as int].ready());
            assert(self.outputs@[i as int] == mid.outputs@[i as int]);
            if self.outputs[i].location.is_some() {
                let mut state: OutputState = self.outputs[i].state.unwrap();
                state.halt();
                let output: &mut Output = &mut self.outputs[i];
                output.state = Some(state);
            }
            i += 1;
        }
        assert(self.outputs@ =~= mid.outputs@.map_values(|output: Output| locked_output(output)));
        self.held_action = None;
        self.cursor.grab_cursor = false;
        self.cycle_state = None;
        self.suppressed_keys.clear();
        let cancel_timer: Option<u64> = match self.pending_middle_click {
            Some(pending) => Some(pending.timer_token),
            None => None,
        };
        self.pending_middle_click = None;
        let release_constraint: Option<u64> = match pointer_focus {
            Some((surface, true)) => Some(surface),
            _ => None,
        };
        self.cursor.exec_cursor_show_at = None;
        self.cursor.exec_cursor_deadline = None;
        self.cursor.cursor_status = CursorImageStatus::Named(CursorIcon::Default);
        self.keyboard_focus = None;
        self.mark_all_dirty();
        proof {
            self.lemma_wf_with_outputs(mid);
        }
        LockEffects { cancel_timer, release_constraint }
    }

    /// The focus once the session is unlocked: on the window that was focused most
    /// recently, also when it is off the canvas, or where it was when there is no
    /// such window.
    pub open spec fn focus_after_unlock(self) -> Option<u64> {
        if self.focus_history.len() == 0 {
            self.keyboard_focus
        } else {
            self.focus_history@[0].surface
        }
    }

    /// `self` is `before` with the session unlocked.
    pub open spec fn unlocked_from(self, before: DriftWm) -> bool {
        &&& self.lock_surfaces@ == Map::<u64, u64>::empty()
        &&& self.redraws_needed@ == before.redraws_needed@.union(before.active_crtcs@)
        &&& self == (DriftWm {
            session_lock: SessionLock::Unlocked,
            lock_surfaces: self.lock_surfaces,
            keyboard_focus: before.focus_after_unlock(),
            redraws_needed: self.redraws_needed,
            ..before
        })
    }

    /// The session is unlocked: the lock surfaces go, and the focus returns to
    /// the most recent window.
    pub fn unlock(&mut self)
        ensures
            final(self).unlocked_from(*old(self)),
            old(self).wf() ==> final(self).wf(),
    {
        self.session_lock = SessionLock::Unlocked;
        self.lock_surfaces.clear();
        if self.focus_history.len() > 0 {
            self.keyboard_focus = self.focus_history[0].surface;
        }
        self.mark_all_dirty();
    }

    /// Where the output of a lock surface stands: the client's, or else the
    /// active one.
    pub open spec fn lock_target(self, output: Option<u64>) -> Option<int> {
        match output {
            Some(id) => Some(choose|i: int| crate::state::wm::output_at(self.outputs@, id, i)),
            None => self.active_at(),
        }
    }

    /// A lock surface appears for an output, or for the active one when the
    /// client's output is unknown: it is told the output's size.
    pub fn new_surface(&mut self, surface: u64, output: Option<u64>) -> (r: Option<LockConfigure>)
        requires
            old(self).wf(),
            output matches Some(id) ==> exists|i: int|
                crate::state::wm::output_at(old(self).outputs@, id, i),
        ensures
            final(self).wf(),
            r == (match old(self).lock_target(output) {
                Some(i) => Some(
                    LockConfigure {
                        output: old(self).outputs@[i].id,
                        width: old(self).outputs@[i].logical_size().w as u32,
                        height: old(self).outputs@[i].logical_size().h as u32,
                    },
                ),
                None => None,
            }),
            output is Some ==> (r matches Some(configure) && output == Some(configure.output)),
            final(self).lock_surfaces@ == (match old(self).lock_target(output) {
                Some(i) => old(self).lock_surfaces@.insert(old(self).outputs@[i].id, surface),
                None => old(self).lock_surfaces@,
            }),
            *final(self) == (DriftWm {
                lock_surfaces: final(self).lock_surfaces,
                ..*old(self)
            }),
    {
        let at: Option<usize> = match output {
            Some(id) => {
                let found: Option<usize> = self.find_output(id);
                proof {
                    crate::state::wm::lemma_output_place(self.outputs@, id, found->0 as int);
                }
                found
            },
            None => self.active_index(),
        };
        match at {
            Some(i) => {
                let size: Size = output_logical_size(&self.outputs[i]);
                let id: u64 = self.outputs[i].id;
                self.lock_surfaces.insert(id, surface);
                Some(LockConfigure { output: id, width: size.w as u32, height: size.h as u32 })
            },
            None => None,
        }
    }
}

/// While the session is being locked nothing moves: no output animates on its
/// own, no key repeats, and no loading cursor runs.
pub proof fn lemma_lock_stops_animations(before: DriftWm, after: DriftWm, confirmation: u64)
    requires
        after.locked_from(before, confirmation),
    ensures
        forall|i: int|
            0 <= i < after.outputs.len() && (#[trigger] after.outputs@[i]).location is Some
                ==> !after.outputs@[i].viewport().animating() && !after.outputs@[i].viewport().panning,
        after.held_action is None,
        after.cursor.exec_cursor_show_at is None,
        after.cursor.exec_cursor_deadline is None,
        after.gesture_state is None,
        after.pending_middle_click is None,
        after.keyboard_focus is None,
        !(after.session_lock is Unlocked),
{
    assert forall|i: int|
        0 <= i < after.outputs.len() && (#[trigger] after.outputs@[i]).location is Some implies
        !after.outputs@[i].viewport().animating() && !after.outputs@[i].viewport().panning by {
        assert(after.outputs@[i] == locked_output(before.outputs@[i]));
    }
}

/// Locking moves no viewport: every camera and zoom stays where it was.
pub proof fn lemma_lock_keeps_viewports(before: DriftWm, after: DriftWm, confirmation: u64, i: int)
    requires
        after.locked_from(before, confirmation),
        before.wf(),
        0 <= i < before.outputs.len(),
    ensures
        after.outputs.len() == before.outputs.len(),
        after.outputs@[i].id == before.outputs@[i].id,
        after.outputs@[i].viewport().camera == before.outputs@[i].viewport().camera,
        after.outputs@[i].viewport().zoom == before.outputs@[i].viewport().zoom,
        after.windows == before.windows,
{
    assert(after.outputs@[i] == locked_output(before.outputs@[i]));
}

/// Locking and unlocking leaves the windows where they were, shows the session
/// again without a lock surface, and gives the focus to the window that was
/// focused most recently.
pub proof fn lemma_unlock_ends_lock(
    before: DriftWm,
    locked: DriftWm,
    after: DriftWm,
    confirmation: u64,
)
    requires
        locked.locked_from(before, confirmation),
        after.unlocked_from(locked),
    ensures
        after.session_lock is Unlocked,
        after.lock_surfaces@ == Map::<u64, u64>::empty(),
        after.windows == before.windows,
        after.fullscreen == before.fullscreen,
        after.decorations == before.decorations,
        after.keyboard_focus == (if before.focus_history.len() > 0 {
            before.focus_history@[0].surface
        } else {
            None
        }),
{
}

/// A lock surface goes to the output that the client names, and to the active one
/// where it names none: the focused output, or else the first that is mapped.
pub proof fn lemma_lock_surface_goes_to_its_output(wm: DriftWm, output: Option<u64>, i: int)
    requires
        wm.wf(),
        0 <= i < wm.outputs.len(),
    ensures
        output == Some(wm.outputs@[i].id) ==> wm.lock_target(output) == Some(i),
        output is None && wm.focused_output == Some(wm.outputs@[i].id) ==> wm.lock_target(output)
            == Some(i),
        output is None && wm.focused_output is None && wm.outputs@[i].location is Some && (forall|
            j: int,
        |
            0 <= j < i ==> (#[trigger] wm.outputs@[j]).location is None) ==> wm.lock_target(output)
            == Some(i),
{
    crate::state::view::lemma_active_output(wm, i);
    if output == Some(wm.outputs@[i].id) {
        assert(crate::state::wm::output_at(wm.outputs@, wm.outputs@[i].id, i));
        crate::state::wm::lemma_output_place(wm.outputs@, wm.outputs@[i].id, i);
    }
}

/// Locking leaves what it does not have to stop: an output that is not mapped stays
/// as it is, and of a mapped one only what moves the viewport changes; the windows,
/// the stacking, the focus history, the title bars, the lock surfaces and the timer
/// that launches momentum stay. Every active output is drawn anew, and the keys held
/// back are forgotten.
pub proof fn lemma_lock_leaves_the_rest(
    before: DriftWm,
    after: DriftWm,
    confirmation: u64,
    i: int,
    crtc: u32,
)
    requires
        after.locked_from(before, confirmation),
        0 <= i < before.outputs.len(),
    ensures
        after.session_lock == SessionLock::Pending(confirmation),
        before.outputs@[i].location is None ==> after.outputs@[i] == before.outputs@[i],
        after.outputs@[i] == (Output { state: after.outputs@[i].state, ..before.outputs@[i] }),
        before.outputs@[i].location is Some ==> {
            let was = before.outputs@[i].state->0;
            let now = after.outputs@[i].state->0;
            &&& after.outputs@[i].state is Some
            &&& now.camera_target is None
            &&& now.zoom_target is None
            &&& now.edge_pan_velocity is None
            &&& now.zoom_animation_center is None
            &&& !now.panning
            &&& now.momentum.velocity.x.bits == 0
            &&& now.momentum.velocity.y.bits == 0
            &&& now == (OutputState {
                camera_target: None,
                zoom_target: None,
                edge_pan_velocity: None,
                zoom_animation_center: None,
                panning: false,
                momentum: now.momentum,
                ..was
            })
            &&& now.momentum.friction == was.momentum.friction
        },
        after.windows == before.windows,
        after.focus_history == before.focus_history,
        after.fullscreen == before.fullscreen,
        after.decorations == before.decorations,
        after.lock_surfaces == before.lock_surfaces,
        after.momentum_timer == before.momentum_timer,
        after.cursor.decoration_cursor == before.cursor.decoration_cursor,
        !after.cursor.grab_cursor,
        after.cursor.cursor_status == CursorImageStatus::Named(CursorIcon::Default),
        after.cycle_state is None,
        !after.suppressed_keys@.contains(crtc),
        after.redraws_needed@.contains(crtc) <==> before.redraws_needed@.contains(crtc)
            || before.active_crtcs@.contains(crtc),
{
    assert(after.outputs@[i] == locked_output(before.outputs@[i]));
}

/// Unlocking draws every active output anew and changes nothing but the lock and
/// the focus; without a recent window the focus stays.
pub proof fn lemma_unlock_leaves_the_rest(before: DriftWm, after: DriftWm, crtc: u32)
    requires
        after.unlocked_from(before),
    ensures
        after.redraws_needed@.contains(crtc) <==> before.redraws_needed@.contains(crtc)
            || before.active_crtcs@.contains(crtc),
        after.outputs == before.outputs,
        after.windows == before.windows,
        after.cursor == before.cursor,
        after.focus_history == before.focus_history,
        before.focus_history.len() == 0 ==> after.keyboard_focus == before.keyboard_focus,
        before.focus_history.len() > 0 ==> after.keyboard_focus
            == before.focus_history@[0].surface,
{
}

} // verus!
