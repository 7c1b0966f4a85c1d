//! Raising and focusing windows, idle inhibitors, and the buffered middle click.

use crate::config::actions::BTN_MIDDLE;
use crate::config::settings::DecorationConfig;
use crate::geometry::HalfPoint;
use crate::sets::{add_all, common};
use crate::state::stacking::{raise_element, restack};
use crate::state::windows::{
    find_id, find_surface, topmost_modal_child_inner, Window, MODAL_DEPTH,
};
use crate::state::wm::{DriftWm, RenderCache};
use std::collections::HashSet;
use vstd::prelude::*;

verus! {

broadcast use vstd::std_specs::hash::group_hash_axioms;

/// A step of forwarding a buffered click to the pointer's client.
#[derive(Clone, Copy, Debug, PartialEq, Eq, Structural)]
pub enum PointerStep {
    /// A button goes down.
    Press { button: u32, time: u32 },
    /// A button goes up.
    Release { button: u32, time: u32 },
    /// The events so far belong together.
    Frame,
}

/// The steps that forward a middle click: the press, and the release where there
/// was one, each followed by a frame.
pub open spec fn click_steps(press_time: u32, release_time: Option<u32>) -> Seq<PointerStep> {
    seq![PointerStep::Press { button: BTN_MIDDLE, time: press_time }, PointerStep::Frame] + (
    match release_time {
        Some(time) => seq![
            PointerStep::Release { button: BTN_MIDDLE, time },
            PointerStep::Frame,
        ],
        None => Seq::empty(),
    })
}

impl DriftWm {
    /// The windows, restacked, and one change of geometry counted.
    pub open spec fn restacked(self, before: DriftWm, stack: Seq<Window>) -> bool {
        &&& self == (DriftWm {
            windows: self.windows,
            render: RenderCache {
                blur_geometry_generation: self.render.blur_geometry_generation,
                ..before.render
            },
            ..before
        })
        &&& self.windows@ == crate::state::stacking::stacked(
            stack,
            crate::state::stacking::fullscreen_ids(before.fullscreen@),
        )
        &&& self.render.blur_geometry_generation == before.render.blur_geometry_generation + 1
    }

    /// Drop dead inhibitors and tell the idle notifier whether any visible
    /// inhibitor surface is currently scanning out. Hidden inhibitors don't
    /// count, otherwise the screen would never lock.
    pub fn refresh_idle_inhibit(&mut self, alive: &HashSet<u64>, scanned_out: &HashSet<u64>)
        ensures
            old(self).wf() ==> final(self).wf(),
            final(self).idle_inhibiting_surfaces@ == old(self).idle_inhibiting_surfaces@.intersect(
                alive@,
            ),
            final(self).idle_inhibited == exists|surface: u64|
                final(self).idle_inhibiting_surfaces@.contains(surface)
                    && #[trigger] scanned_out@.contains(surface),
            *final(self) == (DriftWm {
                idle_inhibiting_surfaces: final(self).idle_inhibiting_surfaces,
                idle_inhibited: final(self).idle_inhibited,
                ..*old(self)
            }),
    {
        self.idle_inhibiting_surfaces = common(&self.idle_inhibiting_surfaces, alive);
        let visible: HashSet<u64> = common(&self.idle_inhibiting_surfaces, scanned_out);
        self.idle_inhibited = !visible.is_empty();
        proof {
            let both = visible@;
            if self.idle_inhibited {
                let surface = choose|surface: u64| both.contains(surface);
                assert(scanned_out@.contains(surface));
            } else {
                assert forall|surface: u64|
                    !(self.idle_inhibiting_surfaces@.contains(surface)
                        && #[trigger] scanned_out@.contains(surface)) by {
                    assert(!both.contains(surface));
                }
            }
        }
    }

    /// Push any widget windows to the bottom of the z-order and fullscreen windows
    /// to its top, and raise children above their parents, nested ones too.
    ///
    /// From the bottom up lie the widgets, the normal windows without a parent, the
    /// widgets that belong to a normal window, the normal windows with a parent and
    /// the fullscreen windows, each group in its old order. A window that would lie
    /// below one of its ancestors there is moved up to right above it. So a child of
    /// a fullscreen window lies above it, and with it above all windows that are not
    /// fullscreen. Windows on a cycle of parent links stay where they are.
    ///
    /// Called after every raise to maintain stacking.
    pub fn enforce_below_windows(&mut self)
        requires
            old(self).wf(),
            old(self).render.blur_geometry_generation < u64::MAX,
        ensures
            final(self).wf(),
            final(self).restacked(*old(self), old(self).windows@),
            crate::state::hierarchy::acyclic(old(self).windows@)
                ==> crate::state::hierarchy::children_above(final(self).windows@),
            ({
                let ids = crate::state::stacking::fullscreen_ids(old(self).fullscreen@);
                let grouped = crate::state::stacking::grouped(old(self).windows@, ids);
                crate::state::hierarchy::children_above(grouped) ==> final(self).windows@
                    == grouped
            }),
    {
        self.render.blur_geometry_generation = self.render.blur_geometry_generation + 1;
        let mut windows: Vec<Window> = Vec::new();
        std::mem::swap(&mut windows, &mut self.windows);
        self.windows = restack(windows, &self.fullscreen);
        proof {
            let stack = old(self).windows@;
            let ids = crate::state::stacking::fullscreen_ids(old(self).fullscreen@);
            crate::state::stacking::lemma_stacking_keeps_distinct(stack, ids, 0);
            if crate::state::hierarchy::acyclic(stack) {
                assert forall|child: int, parent: int|
                    0 <= child < self.windows.len() && 0 <= parent < self.windows.len()
                        && crate::state::hierarchy::belongs_to(
                        #[trigger] self.windows@[child],
                        #[trigger] self.windows@[parent],
                    ) implies parent < child by {
                    crate::state::stacking::lemma_children_lie_above_parents(
                        stack,
                        ids,
                        child,
                        parent,
                    );
                }
            }
            if crate::state::hierarchy::children_above(
                crate::state::stacking::grouped(stack, ids),
            ) {
                crate::state::stacking::lemma_grouped_order_stays(stack, ids);
            }
        }
    }

    /// Find the window whose surface matches the given one.
    pub fn window_for_surface(&self, surface: u64) -> (r: Option<&Window>)
        ensures
            match r {
                Some(window) => crate::state::windows::window_of(self.windows@, surface) == Some(
                    *window,
                ),
                None => crate::state::windows::window_of(self.windows@, surface) is None,
            },
    {
        match find_surface(&self.windows, surface) {
            Some(i) => Some(&self.windows[i]),
            None => None,
        }
    }

    /// Get the innermost modal child of a window (for focus redirect).
    /// Chases modal chains (e.g. file picker, overwrite confirm), at most ten
    /// steps to guard against circular parents.
    pub fn topmost_modal_child(&self, window: &Window) -> (r: Option<&Window>)
        ensures
            match r {
                Some(child) => crate::state::windows::innermost_modal(
                    self.windows@,
                    window.surface,
                    MODAL_DEPTH as nat,
                ) == Some(*child),
                None => crate::state::windows::innermost_modal(
                    self.windows@,
                    window.surface,
                    MODAL_DEPTH as nat,
                ) is None,
            },
    {
        topmost_modal_child_inner(&self.windows, window.surface, MODAL_DEPTH)
    }

    /// The surface that gets the focus when the window with the given surface is
    /// asked for: that of its innermost modal child, or else its own.
    pub open spec fn focus_target(stack: Seq<Window>, surface: Option<u64>) -> Option<u64> {
        match crate::state::windows::innermost_modal(stack, surface, MODAL_DEPTH as nat) {
            Some(child) => child.surface,
            None => surface,
        }
    }

    /// `self` is `before` after a window was raised, shown as the active one and
    /// given the focus. A window that is not on the canvas is neither raised nor
    /// shown as the active one.
    pub open spec fn raised_and_focused(
        self,
        before: DriftWm,
        window: u64,
        surface: Option<u64>,
    ) -> bool {
        &&& (DriftWm {
            activated: before.activated,
            keyboard_focus: before.keyboard_focus,
            ..self
        }).restacked(before, crate::state::stacking::raised(before.windows@, window))
        &&& self.activated == (if crate::state::windows::has_window(before.windows@, window) {
            Some(window)
        } else {
            before.activated
        })
        &&& self.keyboard_focus == Self::focus_target(self.windows@, surface)
    }

    /// Raise a window and set keyboard focus, with modal focus redirect.
    /// If the window has a modal child, focus goes to that child instead.
    /// `surface` is the window's surface, while it has one.
    pub fn raise_and_focus(&mut self, window: u64, surface: Option<u64>)
        requires
            old(self).wf(),
            old(self).render.blur_geometry_generation < u64::MAX,
        ensures
            final(self).wf(),
            final(self).raised_and_focused(*old(self), window, surface),
            crate::state::hierarchy::acyclic(old(self).windows@)
                ==> crate::state::hierarchy::children_above(final(self).windows@),
    {
        let ghost stack = self.windows@;
        let ghost ids = crate::state::stacking::fullscreen_ids(self.fullscreen@);
        let known: bool = find_id(&self.windows, window).is_some();
        let mut windows: Vec<Window> = Vec::new();
        std::mem::swap(&mut windows, &mut self.windows);
        self.windows = raise_element(windows, window);
        proof {
            crate::state::stacking::lemma_stacking_keeps_distinct(stack, ids, window);
            if crate::state::hierarchy::acyclic(stack) {
                crate::stack::lemma_to_top_members(
                    stack,
                    crate::state::stacking::the_window(window),
                );
                crate::state::hierarchy::lemma_cycles_same(stack, self.windows@);
            }
        }
        self.enforce_below_windows();
        let focus: Option<u64> = match topmost_modal_child_inner(
            &self.windows,
            surface,
            MODAL_DEPTH,
        ) {
            Some(child) => child.surface,
            None => surface,
        };
        if known {
            self.activated = Some(window);
        }
        self.keyboard_focus = focus;
    }

    /// Mark all active outputs as needing a redraw.
    pub fn mark_all_dirty(&mut self)
        ensures
            old(self).wf() ==> final(self).wf(),
            final(self).redraws_needed@ == old(self).redraws_needed@.union(old(self).active_crtcs@),
            *final(self) == (DriftWm {
                redraws_needed: final(self).redraws_needed,
                ..*old(self)
            }),
    {
        add_all(&mut self.redraws_needed, &self.active_crtcs);
    }

    /// Forward a buffered middle-click press and release to the client.
    pub fn flush_middle_click(&self, press_time: u32, release_time: Option<u32>) -> (steps: Vec<
        PointerStep,
    >)
        ensures
            steps@ == click_steps(press_time, release_time),
    {
        let mut steps: Vec<PointerStep> = Vec::new();
        steps.push(PointerStep::Press { button: BTN_MIDDLE, time: press_time });
        steps.push(PointerStep::Frame);
        if let Some(time) = release_time {
            steps.push(PointerStep::Release { button: BTN_MIDDLE, time });
            steps.push(PointerStep::Frame);
        }
        assert(steps@ =~= click_steps(press_time, release_time));
        steps
    }

    /// Flush the pending middle-click (called by a timer when no swipe
    /// followed).
    pub fn flush_pending_middle_click(&mut self) -> (steps: Vec<PointerStep>)
        ensures
            old(self).wf() ==> final(self).wf(),
            steps@ == (match old(self).pending_middle_click {
                Some(pending) => click_steps(pending.press_time, pending.release_time),
                None => Seq::empty(),
            }),
            *final(self) == (DriftWm { pending_middle_click: None, ..*old(self) }),
    {
        match self.pending_middle_click {
            Some(pending) => {
                self.pending_middle_click = None;
                self.flush_middle_click(pending.press_time, pending.release_time)
            },
            None => Vec::new(),
        }
    }

    /// What `focused_window` finds.
    pub open spec fn window_in_focus(self) -> Option<Window> {
        match self.keyboard_focus {
            Some(surface) => crate::state::windows::window_of(self.windows@, surface),
            None => None,
        }
    }

    /// Currently keyboard-focused window, if any. Does not filter widgets.
    pub fn focused_window(&self) -> (r: Option<&Window>)
        ensures
            match r {
                Some(window) => self.window_in_focus() == Some(*window),
                None => self.window_in_focus() is None,
            },
    {
        match self.keyboard_focus {
            Some(surface) => self.window_for_surface(surface),
            None => None,
        }
    }

    /// The window has a title bar of ours.
    pub open spec fn decorated(self, window: Window) -> bool {
        window.surface matches Some(surface) && self.decorations@.contains_key(surface)
    }

    /// The height of the title bar of a window.
    pub open spec fn bar_height(self, window: Window) -> int {
        if self.decorated(window) {
            DecorationConfig::TITLE_BAR_HEIGHT as int
        } else {
            0
        }
    }

    pub fn is_decorated(&self, window: &Window) -> (b: bool)
        ensures
            b == self.decorated(*window),
    {
        match window.surface {
            Some(surface) => self.decorations.contains_key(&surface),
            None => false,
        }
    }

    /// SSD title bar height for a window (0 for CSD/borderless).
    pub fn window_ssd_bar(&self, window: &Window) -> (bar: i32)
        ensures
            bar == self.bar_height(*window),
    {
        if self.is_decorated(window) {
            DecorationConfig::TITLE_BAR_HEIGHT
        } else {
            0
        }
    }

    /// Visual center of a window, accounting for SSD title bar above content, in
    /// half pixels: the middle of the frame from the top of the bar to the
    /// bottom of the content.
    pub fn window_visual_center(&self, window: u64) -> (r: Option<HalfPoint>)
        ensures
            r == (match crate::state::windows::window_by_id(self.windows@, window) {
                Some(w) => {
                    let top = w.location.y - self.bar_height(w);
                    let height = w.geometry.size.h + self.bar_height(w);
                    Some(
                        HalfPoint {
                            x2: (2 * w.location.x + w.geometry.size.w) as i64,
                            y2: (2 * top + height) as i64,
                        },
                    )
                },
                None => None,
            }),
            r matches Some(c) ==> exists|i: int|
                {
                    let w = self.windows@[i];
                    let bar = if w.surface is Some && self.decorations@.contains_key(
                        w.surface->0,
                    ) {
                        25int
                    } else {
                        0
                    };
                    &&& 0 <= i < self.windows.len()
                    &&& (#[trigger] self.windows@[i]).id == window
                    &&& c.x2 - 2 * w.location.x == 2 * (w.location.x + w.geometry.size.w) - c.x2
                    &&& c.y2 - 2 * (w.location.y - bar) == 2 * (w.location.y + w.geometry.size.h)
                        - c.y2
                },
            r is None <==> forall|i: int|
                0 <= i < self.windows.len() ==> (#[trigger] self.windows@[i]).id != window,
    {
        match find_id(&self.windows, window) {
            Some(i) => {
                let w: &Window = &self.windows[i];
                let bar: i64 = self.window_ssd_bar(w) as i64;
                let top: i64 = w.location.y as i64 - bar;
                let height: i64 = w.geometry.size.h as i64 + bar;
                Some(
                    HalfPoint {
                        x2: 2 * w.location.x as i64 + w.geometry.size.w as i64,
                        y2: 2 * top + height,
                    },
                )
            },
            None => None,
        }
    }
}

/// A window with a title bar of ours has one of 25 pixels; any other window has none.
/// The title bar belongs to the window's surface.
pub proof fn lemma_title_bar_height(wm: DriftWm, w: Window)
    ensures
        w.surface is None ==> wm.bar_height(w) == 0,
        w.surface is Some && wm.decorations@.contains_key(w.surface->0) ==> wm.bar_height(w) == 25,
        w.surface is Some && !wm.decorations@.contains_key(w.surface->0) ==> wm.bar_height(w) == 0,
{
}

/// The focus goes to the window that is asked for unless a modal dialog blocks it:
/// without a modal dialog its own surface gets it, and with one that has no modal
/// dialog itself the topmost dialog's does.
pub proof fn lemma_focus_goes_to_the_dialog(stack: Seq<Window>, surface: u64, i: int)
    ensures
        (forall|j: int|
            0 <= j < stack.len() ==> !((#[trigger] stack[j]).parent == Some(surface)
                && stack[j].modal)) ==> DriftWm::focus_target(stack, Some(surface)) == Some(
            surface,
        ),
        0 <= i < stack.len() && stack[i].parent == Some(surface) && stack[i].modal && (forall|
            j: int,
        |
            i < j < stack.len() ==> !((#[trigger] stack[j]).parent == Some(surface)
                && stack[j].modal)) && (stack[i].surface is Some ==> forall|j: int|
            0 <= j < stack.len() ==> !((#[trigger] stack[j]).parent == stack[i].surface
                && stack[j].modal)) ==> DriftWm::focus_target(stack, Some(surface))
            == stack[i].surface,
        DriftWm::focus_target(stack, None) is None,
{
    crate::state::windows::lemma_modal_dialog_is_the_topmost(stack, surface, i);
    crate::state::windows::lemma_redirect_goes_to_the_end(stack, Some(surface), 10);
    crate::state::windows::lemma_redirect_goes_to_the_end(stack, None, 10);
    if 0 <= i < stack.len() && stack[i].parent == Some(surface) && stack[i].modal && (forall|
        j: int,
    |
        i < j < stack.len() ==> !((#[trigger] stack[j]).parent == Some(surface)
            && stack[j].modal)) && (stack[i].surface is Some ==> forall|j: int|
        0 <= j < stack.len() ==> !((#[trigger] stack[j]).parent == stack[i].surface
            && stack[j].modal)) {
        if stack[i].surface is Some {
            crate::state::windows::lemma_modal_dialog_is_the_topmost(
                stack,
                stack[i].surface->0,
                0,
            );
        }
        crate::state::windows::lemma_modal_chain_is_followed(stack, Some(surface), 1, 10);
    }
}

/// Raising and focusing a window shows it as the active one if it is on the canvas,
/// loses no window and adds none, counts one change of geometry, and touches nothing
/// else but the focus.
pub proof fn lemma_raising_touches_little(
    before: DriftWm,
    after: DriftWm,
    window: u64,
    surface: Option<u64>,
    w: Window,
)
    requires
        after.raised_and_focused(before, window, surface),
    ensures
        after.windows@.contains(w) <==> before.windows@.contains(w),
        after.windows.len() == before.windows.len(),
        (exists|i: int|
            0 <= i < before.windows.len() && (#[trigger] before.windows@[i]).id == window)
            ==> after.activated == Some(window),
        (forall|i: int|
            0 <= i < before.windows.len() ==> (#[trigger] before.windows@[i]).id != window)
            ==> after.activated == before.activated,
        after.render.blur_geometry_generation == before.render.blur_geometry_generation + 1,
        after.outputs == before.outputs,
        after.fullscreen == before.fullscreen,
        after.decorations == before.decorations,
        after.focus_history == before.focus_history,
        after.cursor == before.cursor,
        after.session_lock == before.session_lock,
{
    let it = crate::state::stacking::the_window(window);
    let top = crate::state::stacking::raised(before.windows@, window);
    crate::state::stacking::lemma_stacked_permutes(
        top,
        crate::state::stacking::fullscreen_ids(before.fullscreen@),
    );
    crate::stack::lemma_filter_holds(before.windows@, it);
    crate::stack::lemma_filter_holds(before.windows@, |w: Window| !it(w));
    crate::stack::lemma_filter_split(before.windows@, it);
    crate::stack::lemma_to_top_members(before.windows@, it);
    let low = before.windows@.filter(|w: Window| !it(w));
    let high = before.windows@.filter(it);
    if before.windows@.contains(w) {
        if it(w) {
            assert(high.contains(w));
            let k = choose|k: int| 0 <= k < high.len() && high[k] == w;
            assert(top[low.len() + k] == w);
        } else {
            assert(low.contains(w));
            let k = choose|k: int| 0 <= k < low.len() && low[k] == w;
            assert(top[k] == w);
        }
    }
}

/// A buffered middle click is forwarded as it was made: the press with its time, the
/// release after it with its own if there was one, each closed by a frame.
pub proof fn lemma_click_is_forwarded_in_order(press_time: u32, release_time: Option<u32>)
    ensures
        ({
            let steps = click_steps(press_time, release_time);
            &&& steps.len() == (if release_time is Some { 4int } else { 2 })
            &&& steps[0] == (PointerStep::Press { button: 0x112, time: press_time })
            &&& steps[1] == PointerStep::Frame
            &&& release_time is Some ==> steps[2] == (PointerStep::Release {
                button: 0x112,
                time: release_time->0,
            }) && steps[3] == PointerStep::Frame
        }),
{
}

/// The focused window is the lowest one whose surface has the keyboard focus; there
/// is none without a focus.
pub proof fn lemma_focused_window_has_the_focus(wm: DriftWm, i: int)
    ensures
        wm.keyboard_focus is None ==> wm.window_in_focus() is None,
        wm.keyboard_focus is Some && 0 <= i < wm.windows.len() && wm.windows@[i].surface
            == wm.keyboard_focus && (forall|j: int|
            0 <= j < i ==> (#[trigger] wm.windows@[j]).surface != wm.keyboard_focus)
            ==> wm.window_in_focus() == Some(wm.windows@[i]),
        wm.keyboard_focus is Some && (forall|j: int|
            0 <= j < wm.windows.len() ==> (#[trigger] wm.windows@[j]).surface != wm.keyboard_focus)
            ==> wm.window_in_focus() is None,
{
    if wm.keyboard_focus is Some {
        crate::state::windows::lemma_windows_are_found(
            wm.windows@,
            wm.keyboard_focus->0,
            0,
            i,
        );
    }
}

/// After a window was raised the keyboard is with it, or with the modal dialog that
/// blocks it: with its own surface when no modal window has it for a parent, and with
/// the surface of the topmost modal window that has, when that one has none itself.
pub proof fn lemma_raised_window_gets_the_focus(
    before: DriftWm,
    after: DriftWm,
    window: u64,
    surface: u64,
    i: int,
)
    requires
        after.raised_and_focused(before, window, Some(surface)),
    ensures
        (forall|j: int|
            0 <= j < after.windows.len() ==> !((#[trigger] after.windows@[j]).parent == Some(
                surface,
            ) && after.windows@[j].modal)) ==> after.keyboard_focus == Some(surface),
        0 <= i < after.windows.len() && after.windows@[i].parent == Some(surface)
            && after.windows@[i].modal && (forall|j: int|
            i < j < after.windows.len() ==> !((#[trigger] after.windows@[j]).parent == Some(surface)
                && after.windows@[j].modal)) && (after.windows@[i].surface is Some ==> forall|
            j: int,
        |
            0 <= j < after.windows.len() ==> !((#[trigger] after.windows@[j]).parent
                == after.windows@[i].surface && after.windows@[j].modal)) ==> after.keyboard_focus
            == after.windows@[i].surface,
{
    lemma_focus_goes_to_the_dialog(after.windows@, surface, i);
}

/// A change of the stacking order loses no window and adds none, is counted once, and
/// changes nothing else.
pub proof fn lemma_restacking_touches_little(
    before: DriftWm,
    after: DriftWm,
    stack: Seq<Window>,
    w: Window,
)
    requires
        after.restacked(before, stack),
    ensures
        after.windows@.contains(w) <==> stack.contains(w),
        after.windows.len() == stack.len(),
        after.render.blur_geometry_generation == before.render.blur_geometry_generation + 1,
        after.render.blur_camera_generation == before.render.blur_camera_generation,
        after.render.shadow_cache == before.render.shadow_cache,
        after.keyboard_focus == before.keyboard_focus,
        after.activated == before.activated,
        after.outputs == before.outputs,
        after.fullscreen == before.fullscreen,
        after.decorations == before.decorations,
        after.focus_history == before.focus_history,
{
    crate::state::stacking::lemma_stacked_permutes(
        stack,
        crate::state::stacking::fullscreen_ids(before.fullscreen@),
    );
}

} // verus!
