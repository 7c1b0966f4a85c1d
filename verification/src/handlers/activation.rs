//! Activation requests, dialogs, and the commands of task bars.

use crate::scalar::{Scalar, HALF_BITS};
use crate::state::output::Timestamp;
use crate::state::wm::{CursorState, DriftWm};
use vstd::prelude::*;

verus! {

/// How long the loading cursor waits before it appears, in nanoseconds.
pub const EXEC_CURSOR_GRACE: u64 = 150_000_000;

/// How long the loading cursor stays at most, in nanoseconds.
pub const EXEC_CURSOR_LIMIT: u64 = 5_000_000_000;

/// What an activation token says of its creation.
#[derive(Clone, Copy, Debug, PartialEq, Eq, Structural)]
pub struct ActivationToken {
    /// The token was created from user input.
    pub has_serial: bool,
    /// The surface that created it.
    pub surface: Option<u64>,
}

/// What an activation request leads to.
#[derive(Clone, Copy, Debug, PartialEq, Eq, Structural)]
pub enum Activation {
    /// Nothing.
    Ignored,
    /// The window was raised and focused where it stands.
    Raised(u64),
    /// The viewport moves to the window, and resets its zoom if asked to.
    Navigate { window: u64, reset_zoom: bool },
}

impl CursorState {
    /// The cursor with the loading cursor cancelled.
    pub open spec fn without_loading(self) -> CursorState {
        CursorState { exec_cursor_show_at: None, exec_cursor_deadline: None, ..self }
    }
}

/// A client activates itself: the token's surface and the activated one belong
/// to the same client.
pub open spec fn self_activation(
    token: ActivationToken,
    req_client: Option<u64>,
    act_client: Option<u64>,
) -> bool {
    token.surface is Some && req_client is Some && req_client == act_client
}

impl DriftWm {
    /// The state after an activation request cancelled the loading cursor, or
    /// left it.
    pub open spec fn loading_settled(self, cancelled: bool) -> DriftWm {
        if cancelled {
            DriftWm { cursor: self.cursor.without_loading(), ..self }
        } else {
            self
        }
    }

    /// What an activation request for a surface leads to, given the visible part
    /// of its window. Tokens without a serial are spontaneous attention requests
    /// of background apps, which are ignored to prevent focus stealing; so are
    /// windows that have not rendered yet. A window that is mostly visible is
    /// raised, any other one is navigated to.
    pub open spec fn activation_of(
        self,
        token: ActivationToken,
        surface: u64,
        visible: Scalar,
    ) -> Activation {
        match crate::state::windows::window_of(self.windows@, surface) {
            Some(w) => if !token.has_serial || w.geometry.size.w == 0 || w.geometry.size.h == 0 {
                Activation::Ignored
            } else if visible.at_least_spec(Scalar { bits: HALF_BITS }) {
                Activation::Raised(w.id)
            } else {
                Activation::Navigate {
                    window: w.id,
                    reset_zoom: self.config.zoom_reset_on_activation,
                }
            },
            None => Activation::Ignored,
        }
    }

    /// A client created an activation token. A token created from user input
    /// starts the loading cursor. Every token is accepted.
    pub fn token_created(&mut self, has_serial: bool, now: Timestamp) -> (accepted: bool)
        requires
            now.nanos + EXEC_CURSOR_LIMIT <= u64::MAX,
        ensures
            old(self).wf() ==> final(self).wf(),
            accepted,
            *final(self) == (if has_serial {
                DriftWm {
                    cursor: CursorState {
                        exec_cursor_show_at: Some(
                            Timestamp { nanos: (now.nanos + EXEC_CURSOR_GRACE) as u64 },
                        ),
                        exec_cursor_deadline: Some(
                            Timestamp { nanos: (now.nanos + EXEC_CURSOR_LIMIT) as u64 },
                        ),
                        ..old(self).cursor
                    },
                    ..*old(self)
                }
            } else {
                *old(self)
            }),
            has_serial ==> {
                &&& final(self).cursor.exec_cursor_show_at is Some
                &&& final(self).cursor.exec_cursor_show_at->0.nanos - now.nanos == 150_000_000
                &&& final(self).cursor.exec_cursor_deadline is Some
                &&& final(self).cursor.exec_cursor_deadline->0.nanos - now.nanos == 5_000_000_000
            },
    {
        if has_serial {
            self.cursor.exec_cursor_show_at = Some(
                Timestamp { nanos: now.nanos + EXEC_CURSOR_GRACE },
            );
            self.cursor.exec_cursor_deadline = Some(
                Timestamp { nanos: now.nanos + EXEC_CURSOR_LIMIT },
            );
        }
        true
    }

    /// A client asks to activate a surface. `visible` is the part of its window
    /// that the active output shows.
    pub fn request_activation(
        &mut self,
        token: ActivationToken,
        req_client: Option<u64>,
        act_client: Option<u64>,
        surface: u64,
        visible: Scalar,
    ) -> (r: Activation)
        requires
            old(self).wf(),
            old(self).render.blur_geometry_generation < u64::MAX,
        ensures
            final(self).wf(),
            r == old(self).activation_of(token, surface, visible),
            ({
                let settled = old(self).loading_settled(
                    self_activation(token, req_client, act_client),
                );
                match r {
                    Activation::Raised(window) => final(self).raised_and_focused(
                        settled,
                        window,
                        Some(surface),
                    ),
                    _ => *final(self) == settled,
                }
            }),
    {
        if token.surface.is_some() {
            if let (Some(req), Some(act)) = (req_client, act_client) {
                if req == act {
                    self.cursor.exec_cursor_show_at = None;
                    self.cursor.exec_cursor_deadline = None;
                }
            }
        }
        if !token.has_serial {
            return Activation::Ignored;
        }
        let (window, unrendered): (u64, bool) = match self.window_for_surface(surface) {
            Some(w) => (w.id, w.geometry.size.w == 0 || w.geometry.size.h == 0),
            None => {
                return Activation::Ignored;
            },
        };
        if unrendered {
            return Activation::Ignored;
        }
        if visible.at_least(Scalar::half()) {
            self.raise_and_focus(window, Some(surface));
            Activation::Raised(window)
        } else {
            Activation::Navigate { window, reset_zoom: self.config.zoom_reset_on_activation }
        }
    }

    /// A dialog says whether it is modal; a modal one is raised and takes the
    /// focus from its parent.
    pub fn dialog_hint_changed(&mut self, modal: bool, surface: u64) -> (r: Activation)
        requires
            old(self).wf(),
            old(self).render.blur_geometry_generation < u64::MAX,
        ensures
            final(self).wf(),
            match crate::state::windows::window_of(old(self).windows@, surface) {
                Some(w) => if modal {
                    &&& r == Activation::Raised(w.id)
                    &&& final(self).raised_and_focused(*old(self), w.id, Some(surface))
                } else {
                    r == Activation::Ignored && *final(self) == *old(self)
                },
                None => r == Activation::Ignored && *final(self) == *old(self),
            },
    {
        if modal {
            let window: Option<u64> = match self.window_for_surface(surface) {
                Some(w) => Some(w.id),
                None => None,
            };
            if let Some(window) = window {
                self.raise_and_focus(window, Some(surface));
                return Activation::Raised(window);
            }
        }
        Activation::Ignored
    }

    /// The id of the window of a surface.
    pub open spec fn id_of_surface(self, surface: u64) -> Option<u64> {
        match crate::state::windows::window_of(self.windows@, surface) {
            Some(w) => Some(w.id),
            None => None,
        }
    }

    fn find_window(&self, surface: u64) -> (r: Option<u64>)
        ensures
            r == self.id_of_surface(surface),
    {
        match self.window_for_surface(surface) {
            Some(w) => Some(w.id),
            None => None,
        }
    }

    /// The outputs that task bars are told of, in the order in which they were
    /// mapped.
    pub fn foreign_toplevel_outputs(&self) -> (ids: Vec<u64>)
        ensures
            ids@ == self.outputs@.filter(
                |output: crate::state::output::Output| output.location is Some,
            ).map_values(|output: crate::state::output::Output| output.id),
            forall|output: u64| #[trigger]
                ids@.contains(output) <==> exists|i: int|
                    0 <= i < self.outputs.len() && (#[trigger] self.outputs@[i]).location is Some
                        && self.outputs@[i].id == output,
    {
        let ghost mapped = |output: crate::state::output::Output| output.location is Some;
        let ghost id = |output: crate::state::output::Output| output.id;
        let mut ids: Vec<u64> = Vec::new();
        let mut i: usize = 0;
        proof {
            reveal(Seq::filter);
            assert(self.outputs@.take(0) =~= Seq::empty());
            assert(ids@ =~= self.outputs@.take(0).filter(mapped).map_values(id));
        }
        while i < self.outputs.len()
            invariant
                i <= self.outputs.len(),
                mapped == (|output: crate::state::output::Output| output.location is Some),
                id == (|output: crate::state::output::Output| output.id),
                ids@ == self.outputs@.take(i as int).filter(mapped).map_values(id),
            decreases self.outputs.len() - i,
        {
            proof {
                crate::stack::lemma_filter_take(self.outputs@, mapped, i as int);
            }
            let ghost before = self.outputs@.take(i as int).filter(mapped);
            if self.outputs[i].location.is_some() {
                ids.push(self.outputs[i].id);
                assert(ids@ =~= before.push(self.outputs@[i as int]).map_values(id));
            }
            i += 1;
        }
        assert(self.outputs@.take(i as int) =~= self.outputs@);
        proof {
            let told = self.outputs@.filter(mapped);
            crate::stack::lemma_filter_holds(self.outputs@, mapped);
            assert forall|output: u64| #[trigger] ids@.contains(output) <==> exists|j: int|
                0 <= j < self.outputs.len() && (#[trigger] self.outputs@[j]).location is Some
                    && self.outputs@[j].id == output by {
                if ids@.contains(output) {
                    let k = choose|k: int| 0 <= k < ids@.len() && ids@[k] == output;
                    assert(told.contains(told[k]));
                    let j = choose|j: int|
                        0 <= j < self.outputs.len() && self.outputs@[j] == told[k];
                    assert(self.outputs@[j].location is Some);
                }
                if exists|j: int|
                    0 <= j < self.outputs.len() && (#[trigger] self.outputs@[j]).location is Some
                        && self.outputs@[j].id == output {
                    let j = choose|j: int|
                        0 <= j < self.outputs.len() && (
                        #[trigger] self.outputs@[j]).location is Some && self.outputs@[j].id
                            == output;
                    assert(self.outputs@.contains(self.outputs@[j]));
                    assert(told.contains(self.outputs@[j]));
                    let k = choose|k: int| 0 <= k < told.len() && told[k] == self.outputs@[j];
                    assert(ids@[k] == output);
                }
            }
        }
        ids
    }

    /// A task bar activates a window: the viewport moves to it.
    pub fn activate(&self, surface: u64) -> (r: Activation)
        ensures
            r == (match self.id_of_surface(surface) {
                Some(window) => Activation::Navigate {
                    window,
                    reset_zoom: self.config.zoom_reset_on_activation,
                },
                None => Activation::Ignored,
            }),
    {
        match self.find_window(surface) {
            Some(window) => Activation::Navigate {
                window,
                reset_zoom: self.config.zoom_reset_on_activation,
            },
            None => Activation::Ignored,
        }
    }

    /// The window that a task bar asks to close.
    pub fn close(&self, surface: u64) -> (r: Option<u64>)
        ensures
            r == self.id_of_surface(surface),
    {
        self.find_window(surface)
    }

    /// The window that a task bar asks to make fullscreen.
    pub fn set_fullscreen(&self, surface: u64) -> (r: Option<u64>)
        ensures
            r == self.id_of_surface(surface),
    {
        self.find_window(surface)
    }

    /// The entry at `i` is the first that shows a window with the given surface.
    pub open spec fn shows_surface_at(self, surface: u64, i: int) -> bool {
        &&& 0 <= i < self.fullscreen.len()
        &&& self.entry_shows(i, surface)
        &&& forall|j: int| 0 <= j < i ==> !self.entry_shows(j, surface)
    }

    /// The fullscreen entry at `i` shows a window with the given surface.
    pub open spec fn entry_shows(self, i: int, surface: u64) -> bool {
        crate::state::windows::window_by_id(
            self.windows@,
            self.fullscreen@[i].state.window,
        ) matches Some(w) && w.surface == Some(surface)
    }

    /// The output on which a task bar asks to leave fullscreen: the one that
    /// shows the surface's window.
    pub fn unset_fullscreen(&self, surface: u64) -> (r: Option<u64>)
        ensures
            match r {
                Some(output) => exists|i: int| #[trigger]
                    self.shows_surface_at(surface, i) && self.fullscreen@[i].output == output,
                None => forall|i: int|
                    0 <= i < self.fullscreen.len() ==> !self.entry_shows(i, surface),
            },
    {
        let mut i: usize = 0;
        while i < self.fullscreen.len()
            invariant
                i <= self.fullscreen.len(),
                forall|j: int| 0 <= j < i ==> !self.entry_shows(j, surface),
            decreases self.fullscreen.len() - i,
        {
            if let Some(at) = crate::state::windows::find_id(
                &self.windows,
                self.fullscreen[i].state.window,
            ) {
                if let Some(s) = self.windows[at].surface {
                    if s == surface {
                        assert(self.shows_surface_at(surface, i as int));
                        return Some(self.fullscreen[i].output);
                    }
                }
            }
            i += 1;
        }
        None
    }

    /// The window that a task bar asks to fit to the viewport.
    pub fn set_maximized(&self, surface: u64) -> (r: Option<u64>)
        ensures
            r == self.id_of_surface(surface),
    {
        self.find_window(surface)
    }

    /// The window that a task bar asks to no longer fit to the viewport.
    pub fn unset_maximized(&self, surface: u64) -> (r: Option<u64>)
        ensures
            r == self.id_of_surface(surface),
    {
        self.find_window(surface)
    }
}

/// A token without a serial never raises a window and never moves the viewport,
/// whoever created it: background apps cannot steal the focus.
pub proof fn lemma_no_focus_stealing(
    wm: DriftWm,
    token: ActivationToken,
    surface: u64,
    visible: Scalar,
)
    requires
        !token.has_serial,
    ensures
        wm.activation_of(token, surface, visible) == Activation::Ignored,
{
}

/// An activation request from user input, for a surface whose window has a size,
/// always reaches that window: it is raised where at least half of it is visible,
/// and navigated to where less is. A window without a width or a height, and a
/// surface without a window, is left alone. The window is given as the lowest one
/// with the surface.
pub proof fn lemma_activation_reaches_the_window(
    wm: DriftWm,
    token: ActivationToken,
    surface: u64,
    visible: Scalar,
    i: int,
)
    requires
        token.has_serial,
    ensures
        0 <= i < wm.windows.len() && wm.windows@[i].surface == Some(surface) && (forall|j: int|
            0 <= j < i ==> (#[trigger] wm.windows@[j]).surface != Some(surface)) ==> {
            let w = wm.windows@[i];
            let sized = w.geometry.size.w != 0 && w.geometry.size.h != 0;
            let half = Scalar { bits: HALF_BITS };
            let r = wm.activation_of(token, surface, visible);
            &&& !sized ==> r == Activation::Ignored
            &&& sized && (visible.same_number(half) || half.below(visible)) ==> r
                == Activation::Raised(w.id)
            &&& sized && (visible.nan() || visible.below(half)) ==> r == (Activation::Navigate {
                window: w.id,
                reset_zoom: wm.config.zoom_reset_on_activation,
            })
        },
        (forall|j: int|
            0 <= j < wm.windows.len() ==> (#[trigger] wm.windows@[j]).surface != Some(surface))
            ==> wm.activation_of(token, surface, visible) == Activation::Ignored,
{
    crate::state::windows::lemma_windows_are_found(wm.windows@, surface, 0, i);
    crate::numbers::lemma_one_and_half();
}

/// The loading cursor is cancelled exactly when a client activates itself: the
/// token names a surface, and both clients are known and the same. Nothing else of
/// the state is touched.
pub proof fn lemma_self_activation_ends_loading(
    wm: DriftWm,
    token: ActivationToken,
    req_client: Option<u64>,
    act_client: Option<u64>,
)
    ensures
        ({
            let after = wm.loading_settled(self_activation(token, req_client, act_client));
            let own = token.surface is Some && req_client is Some && act_client is Some
                && req_client->0 == act_client->0;
            &&& own ==> after.cursor.exec_cursor_show_at is None
                && after.cursor.exec_cursor_deadline is None
            &&& !own ==> after == wm
            &&& after.cursor.cursor_status == wm.cursor.cursor_status
            &&& after.cursor.grab_cursor == wm.cursor.grab_cursor
            &&& after.cursor.decoration_cursor == wm.cursor.decoration_cursor
            &&& after.cursor.animated == wm.cursor.animated
            &&& after == (DriftWm { cursor: after.cursor, ..wm })
        }),
{
}

/// A task bar's command reaches the lowest window with the surface, and none where
/// no window has it.
pub proof fn lemma_commands_reach_the_window(wm: DriftWm, surface: u64, i: int)
    ensures
        0 <= i < wm.windows.len() && wm.windows@[i].surface == Some(surface) && (forall|j: int|
            0 <= j < i ==> (#[trigger] wm.windows@[j]).surface != Some(surface))
            ==> wm.id_of_surface(surface) == Some(wm.windows@[i].id),
        (forall|j: int|
            0 <= j < wm.windows.len() ==> (#[trigger] wm.windows@[j]).surface != Some(surface))
            ==> wm.id_of_surface(surface) is None,
{
    crate::state::windows::lemma_windows_are_found(wm.windows@, surface, 0, i);
}

/// A fullscreen entry shows a surface exactly when the window that it names is on
/// the canvas and has the surface.
pub proof fn lemma_entry_shows_its_window(wm: DriftWm, i: int, surface: u64)
    requires
        wm.wf(),
        0 <= i < wm.fullscreen.len(),
    ensures
        wm.entry_shows(i, surface) <==> exists|k: int|
            0 <= k < wm.windows.len() && (#[trigger] wm.windows@[k]).id
                == wm.fullscreen@[i].state.window && wm.windows@[k].surface == Some(surface),
{
    let id = wm.fullscreen@[i].state.window;
    if exists|k: int| 0 <= k < wm.windows.len() && (#[trigger] wm.windows@[k]).id == id {
        let k = choose|k: int| 0 <= k < wm.windows.len() && (#[trigger] wm.windows@[k]).id == id;
        crate::state::windows::lemma_windows_are_found(wm.windows@, surface, id, k);
        assert forall|j: int| 0 <= j < wm.windows.len() && (#[trigger] wm.windows@[j]).id
            == id implies j == k by {
            if j < k {
                assert(wm.windows@[j].id != wm.windows@[k].id);
            }
            if k < j {
                assert(wm.windows@[k].id != wm.windows@[j].id);
            }
        }
    } else {
        crate::state::windows::lemma_windows_are_found(wm.windows@, surface, id, 0);
    }
}

/// Fullscreen is left on the output whose entry shows the surface's window: the entry
/// found names a window on the canvas with the surface, and no entry before it does.
pub proof fn lemma_fullscreen_is_left_where_it_is_shown(wm: DriftWm, surface: u64, i: int, j: int)
    requires
        wm.wf(),
        wm.shows_surface_at(surface, i),
    ensures
        0 <= i < wm.fullscreen.len(),
        exists|k: int|
            0 <= k < wm.windows.len() && (#[trigger] wm.windows@[k]).id
                == wm.fullscreen@[i].state.window && wm.windows@[k].surface == Some(surface),
        0 <= j < i ==> forall|k: int|
            0 <= k < wm.windows.len() && (#[trigger] wm.windows@[k]).id
                == wm.fullscreen@[j].state.window ==> wm.windows@[k].surface != Some(surface),
        wm.shows_surface_at(surface, j) ==> j == i,
{
    lemma_entry_shows_its_window(wm, i, surface);
    if 0 <= j < i {
        lemma_entry_shows_its_window(wm, j, surface);
        assert(!wm.entry_shows(j, surface));
    }
    if wm.shows_surface_at(surface, j) && i < j {
        assert(!wm.entry_shows(i, surface));
    }
}

} // verus!
