//! The active output and the viewport that it shows.
//!
//! The getters fall back to a sensible default when there is no output, and the
//! setters do nothing then: a closed lid leaves the compositor without outputs
//! for a moment.

use crate::geometry::PointF;
use crate::scalar::{Scalar, ONE_BITS};
use crate::state::output::{output_state, Output, OutputState, Timestamp};
use crate::state::windows::{FullscreenEntry, FullscreenState};
use crate::state::wm::DriftWm;
use vstd::prelude::*;

verus! {

/// The first output that is mapped stands at `i`.
pub open spec fn first_mapped(outputs: Seq<Output>, i: int) -> bool {
    &&& 0 <= i < outputs.len()
    &&& outputs[i].location is Some
    &&& forall|j: int| 0 <= j < i ==> (#[trigger] outputs[j]).location is None
}

/// There is only one first mapped output.
proof fn lemma_first_mapped(outputs: Seq<Output>, i: int)
    requires
        first_mapped(outputs, i),
    ensures
        (choose|k: int| first_mapped(outputs, k)) == i,
{
    let k = choose|k: int| first_mapped(outputs, k);
    if i < k {
        assert(outputs[i].location is None);
    }
    if k < i {
        assert(outputs[k].location is None);
    }
}

/// An output that is in fullscreen mode has its entry at `i`.
pub open spec fn fullscreen_at(entries: Seq<FullscreenEntry>, output: u64, i: int) -> bool {
    0 <= i < entries.len() && entries[i].output == output
}

/// An output in fullscreen mode has one entry only.
pub(crate) proof fn lemma_fullscreen_place(entries: Seq<FullscreenEntry>, output: u64, i: int)
    requires
        crate::state::wm::distinct_fullscreen(entries),
        fullscreen_at(entries, output, i),
    ensures
        (choose|k: int| fullscreen_at(entries, output, k)) == i,
{
    let k = choose|k: int| fullscreen_at(entries, output, k);
    if i < k {
        assert(entries[i].output != entries[k].output);
    }
    if k < i {
        assert(entries[k].output != entries[i].output);
    }
}

impl DriftWm {
    /// Where the active output stands: the focused one, or else the first that
    /// is mapped.
    pub open spec fn active_at(self) -> Option<int> {
        match self.focused_output {
            Some(id) => Some(choose|i: int| crate::state::wm::output_at(self.outputs@, id, i)),
            None => if exists|i: int| first_mapped(self.outputs@, i) {
                Some(choose|i: int| first_mapped(self.outputs@, i))
            } else {
                None
            },
        }
    }

    /// The active output.
    pub open spec fn active(self) -> Option<Output> {
        match self.active_at() {
            Some(i) => Some(self.outputs@[i]),
            None => None,
        }
    }

    /// The viewport state of the active output.
    pub open spec fn active_viewport(self) -> Option<OutputState> {
        match self.active() {
            Some(output) => Some(output.viewport()),
            None => None,
        }
    }

    /// `self` is `before`, except that the viewport state of the active output,
    /// where there is one, is now `state`.
    pub open spec fn viewport_replaced(self, before: DriftWm, state: OutputState) -> bool {
        &&& self == (DriftWm { outputs: self.outputs, ..before })
        &&& self.outputs@ == (match before.active_at() {
            Some(i) => before.outputs@.update(
                i,
                Output { state: Some(state), ..before.outputs@[i] },
            ),
            None => before.outputs@,
        })
    }

    /// `self` is `before`, except that the viewport state of the active output,
    /// where there is one, is now what `change` makes of it.
    pub open spec fn viewport_changed(
        self,
        before: DriftWm,
        change: spec_fn(OutputState) -> OutputState,
    ) -> bool {
        self.viewport_replaced(before, change(before.active()->0.viewport()))
    }

    /// The fullscreen state of an output.
    pub open spec fn fullscreen_on(self, output: u64) -> Option<FullscreenState> {
        if exists|i: int| fullscreen_at(self.fullscreen@, output, i) {
            Some(self.fullscreen@[choose|i: int| fullscreen_at(self.fullscreen@, output, i)].state)
        } else {
            None
        }
    }

    /// Where the output with the given id stands.
    pub(crate) fn find_output(&self, id: u64) -> (r: Option<usize>)
        ensures
            match r {
                Some(i) => crate::state::wm::output_at(self.outputs@, id, i as int),
                None => forall|i: int| !crate::state::wm::output_at(self.outputs@, id, i),
            },
    {
        let mut i: usize = 0;
        while i < self.outputs.len()
            invariant
                i <= self.outputs.len(),
                forall|j: int| 0 <= j < i ==> (#[trigger] self.outputs@[j]).id != id,
            decreases self.outputs.len() - i,
        {
            if self.outputs[i].id == id {
                return Some(i);
            }
            i += 1;
        }
        None
    }

    /// Where the active output stands.
    pub(crate) fn active_index(&self) -> (r: Option<usize>)
        requires
            self.wf(),
        ensures
            match r {
                Some(i) => i < self.outputs.len() && self.active_at() == Some(i as int),
                None => self.active_at() is None,
            },
    {
        if let Some(id) = self.focused_output {
            let found: Option<usize> = self.find_output(id);
            proof {
                crate::state::wm::lemma_output_place(self.outputs@, id, found->0 as int);
            }
            return found;
        }
        let mut i: usize = 0;
        while i < self.outputs.len()
            invariant
                i <= self.outputs.len(),
                self.focused_output is None,
                forall|j: int| 0 <= j < i ==> (#[trigger] self.outputs@[j]).location is None,
            decreases self.outputs.len() - i,
        {
            if self.outputs[i].location.is_some() {
                proof {
                    lemma_first_mapped(self.outputs@, i as int);
                }
                return Some(i);
            }
            i += 1;
        }
        None
    }

    /// The output the pointer is currently on.
    /// Returns `focused_output` with fallback to first output.
    pub fn active_output(&self) -> (id: Option<u64>)
        requires
            self.wf(),
        ensures
            id == (match self.active() {
                Some(output) => Some(output.id),
                None => None,
            }),
            self.focused_output is Some ==> id == self.focused_output,
    {
        proof {
            if let Some(id) = self.focused_output {
                let k = choose|k: int| crate::state::wm::output_at(self.outputs@, id, k);
                assert(crate::state::wm::output_at(self.outputs@, id, k));
            }
        }
        match self.active_index() {
            Some(i) => Some(self.outputs[i].id),
            None => None,
        }
    }

    /// The viewport state of the active output.
    fn active_state(&self) -> (state: Option<OutputState>)
        requires
            self.wf(),
        ensures
            state == self.active_viewport(),
    {
        match self.active_index() {
            Some(i) => Some(output_state(&self.outputs[i])),
            None => None,
        }
    }

    /// Replaces the viewport state of the active output.
    fn set_active_state(&mut self, state: OutputState)
        requires
            old(self).wf(),
        ensures
            final(self).wf(),
            final(self).viewport_replaced(*old(self), state),
    {
        if let Some(i) = self.active_index() {
            let output: &mut Output = &mut self.outputs[i];
            output.state = Some(state);
            proof {
                self.lemma_wf_with_outputs(*old(self));
            }
        }
    }

    pub fn camera(&self) -> (camera: PointF)
        requires
            self.wf(),
        ensures
            match self.active_viewport() {
                Some(state) => camera == state.camera,
                None => camera.at_origin(),
            },
    {
        match self.active_state() {
            Some(state) => state.camera,
            None => PointF::origin(),
        }
    }

    pub fn set_camera(&mut self, val: PointF)
        requires
            old(self).wf(),
        ensures
            final(self).wf(),
            final(self).viewport_changed(
                *old(self),
                |s: OutputState| OutputState { camera: val, ..s },
            ),
    {
        if let Some(state) = self.active_state() {
            self.set_active_state(OutputState { camera: val, ..state });
        }
    }

    /// The zoom, 1 (not 0) without an output so that nobody divides by zero.
    pub fn zoom(&self) -> (zoom: Scalar)
        requires
            self.wf(),
        ensures
            zoom == (match self.active_viewport() {
                Some(state) => state.zoom,
                None => Scalar { bits: ONE_BITS },
            }),
    {
        match self.active_state() {
            Some(state) => state.zoom,
            None => Scalar::one(),
        }
    }

    pub fn set_zoom(&mut self, val: Scalar)
        requires
            old(self).wf(),
        ensures
            final(self).wf(),
            final(self).viewport_changed(
                *old(self),
                |s: OutputState| OutputState { zoom: val, ..s },
            ),
    {
        if let Some(state) = self.active_state() {
            self.set_active_state(OutputState { zoom: val, ..state });
        }
    }

    pub fn zoom_target(&self) -> (val: Option<Scalar>)
        requires
            self.wf(),
        ensures
            val == (match self.active_viewport() {
                Some(state) => state.zoom_target,
                None => None,
            }),
    {
        match self.active_state() {
            Some(state) => state.zoom_target,
            None => None,
        }
    }

    pub fn set_zoom_target(&mut self, val: Option<Scalar>)
        requires
            old(self).wf(),
        ensures
            final(self).wf(),
            final(self).viewport_changed(
                *old(self),
                |s: OutputState| OutputState { zoom_target: val, ..s },
            ),
    {
        if let Some(state) = self.active_state() {
            self.set_active_state(OutputState { zoom_target: val, ..state });
        }
    }

    pub fn zoom_animation_center(&self) -> (val: Option<PointF>)
        requires
            self.wf(),
        ensures
            val == (match self.active_viewport() {
                Some(state) => state.zoom_animation_center,
                None => None,
            }),
    {
        match self.active_state() {
            Some(state) => state.zoom_animation_center,
            None => None,
        }
    }

    pub fn set_zoom_animation_center(&mut self, val: Option<PointF>)
        requires
            old(self).wf(),
        ensures
            final(self).wf(),
            final(self).viewport_changed(
                *old(self),
                |s: OutputState| OutputState { zoom_animation_center: val, ..s },
            ),
    {
        if let Some(state) = self.active_state() {
            self.set_active_state(OutputState { zoom_animation_center: val, ..state });
        }
    }

    pub fn overview_return(&self) -> (val: Option<(PointF, Scalar)>)
        requires
            self.wf(),
        ensures
            val == (match self.active_viewport() {
                Some(state) => state.overview_return,
                None => None,
            }),
    {
        match self.active_state() {
            Some(state) => state.overview_return,
            None => None,
        }
    }

    pub fn set_overview_return(&mut self, val: Option<(PointF, Scalar)>)
        requires
            old(self).wf(),
        ensures
            final(self).wf(),
            final(self).viewport_changed(
                *old(self),
                |s: OutputState| OutputState { overview_return: val, ..s },
            ),
    {
        if let Some(state) = self.active_state() {
            self.set_active_state(OutputState { overview_return: val, ..state });
        }
    }

    pub fn camera_target(&self) -> (val: Option<PointF>)
        requires
            self.wf(),
        ensures
            val == (match self.active_viewport() {
                Some(state) => state.camera_target,
                None => None,
            }),
    {
        match self.active_state() {
            Some(state) => state.camera_target,
            None => None,
        }
    }

    pub fn set_camera_target(&mut self, val: Option<PointF>)
        requires
            old(self).wf(),
        ensures
            final(self).wf(),
            final(self).viewport_changed(
                *old(self),
                |s: OutputState| OutputState { camera_target: val, ..s },
            ),
    {
        if let Some(state) = self.active_state() {
            self.set_active_state(OutputState { camera_target: val, ..state });
        }
    }

    pub fn last_scroll_pan(&self) -> (val: Option<Timestamp>)
        requires
            self.wf(),
        ensures
            val == (match self.active_viewport() {
                Some(state) => state.last_scroll_pan,
                None => None,
            }),
    {
        match self.active_state() {
            Some(state) => state.last_scroll_pan,
            None => None,
        }
    }

    pub fn set_last_scroll_pan(&mut self, val: Option<Timestamp>)
        requires
            old(self).wf(),
        ensures
            final(self).wf(),
            final(self).viewport_changed(
                *old(self),
                |s: OutputState| OutputState { last_scroll_pan: val, ..s },
            ),
    {
        if let Some(state) = self.active_state() {
            self.set_active_state(OutputState { last_scroll_pan: val, ..state });
        }
    }

    pub fn panning(&self) -> (val: bool)
        requires
            self.wf(),
        ensures
            val == (self.active_viewport() matches Some(state) && state.panning),
    {
        match self.active_state() {
            Some(state) => state.panning,
            None => false,
        }
    }

    pub fn set_panning(&mut self, val: bool)
        requires
            old(self).wf(),
        ensures
            final(self).wf(),
            final(self).viewport_changed(
                *old(self),
                |s: OutputState| OutputState { panning: val, ..s },
            ),
    {
        if let Some(state) = self.active_state() {
            self.set_active_state(OutputState { panning: val, ..state });
        }
    }

    pub fn edge_pan_velocity(&self) -> (val: Option<PointF>)
        requires
            self.wf(),
        ensures
            val == (match self.active_viewport() {
                Some(state) => state.edge_pan_velocity,
                None => None,
            }),
    {
        match self.active_state() {
            Some(state) => state.edge_pan_velocity,
            None => None,
        }
    }

    /// When the active output was last animated; without an output that is
    /// `now`.
    pub fn last_frame_instant(&self, now: Timestamp) -> (val: Timestamp)
        requires
            self.wf(),
        ensures
            val == (match self.active_viewport() {
                Some(state) => state.last_frame_instant,
                None => now,
            }),
    {
        match self.active_state() {
            Some(state) => state.last_frame_instant,
            None => now,
        }
    }

    pub fn set_last_frame_instant(&mut self, val: Timestamp)
        requires
            old(self).wf(),
        ensures
            final(self).wf(),
            final(self).viewport_changed(
                *old(self),
                |s: OutputState| OutputState { last_frame_instant: val, ..s },
            ),
    {
        if let Some(state) = self.active_state() {
            self.set_active_state(OutputState { last_frame_instant: val, ..state });
        }
    }

    /// Batch-access per-output state. Returns `None` (and does not invoke `f`)
    /// when there is no active output. The closure runs at most once.
    pub fn with_output_state<R, F: FnOnce(&mut OutputState) -> R>(&mut self, f: F) -> (r: Option<R>)
        requires
            old(self).wf(),
            forall|m: &mut OutputState|
                old(self).active_viewport() == Some(*m) ==> #[trigger] f.requires((m,)),
        ensures
            final(self).wf(),
            match r {
                Some(value) => exists|m: &mut OutputState|
                    {
                        &&& old(self).active_viewport() == Some(*m)
                        &&& #[trigger] f.ensures((m,), value)
                        &&& final(self).viewport_replaced(*old(self), *final(m))
                    },
                None => old(self).active() is None && *final(self) == *old(self),
            },
    {
        match self.active_state() {
            Some(state) => {
                let ghost before = state;
                let mut state: OutputState = state;
                let value: R = f(&mut state);
                let ghost lent = choose|m: &mut OutputState| #[trigger]
                    f.ensures((m,), value) && *m == before && *final(m) == state;
                self.set_active_state(state);
                let r: Option<R> = Some(value);
                assert(f.ensures((lent,), r->0));
                assert(self.viewport_replaced(*old(self), *final(lent)));
                r
            },
            None => None,
        }
    }
}

/// What a setter wrote is what the getters read: the active output stays the
/// active one and its viewport state is the changed one. Every other output, and
/// everything else, stays as it was; without an output nothing changes at all.
pub proof fn lemma_get_after_set(
    before: DriftWm,
    after: DriftWm,
    change: spec_fn(OutputState) -> OutputState,
)
    requires
        before.wf(),
        after.viewport_changed(before, change),
    ensures
        after.active_at() == before.active_at(),
        after.active_viewport() == (match before.active_viewport() {
            Some(state) => Some(change(state)),
            None => None,
        }),
        before.active_at() is None ==> after.outputs@ == before.outputs@,
        after.outputs.len() == before.outputs.len(),
        forall|i: int|
            0 <= i < before.outputs.len() && before.active_at() != Some(i)
                ==> #[trigger] after.outputs@[i] == before.outputs@[i],
{
    match before.focused_output {
        Some(id) => {
            let k = choose|k: int| crate::state::wm::output_at(before.outputs@, id, k);
            assert(crate::state::wm::output_at(before.outputs@, id, k));
            assert(crate::state::wm::output_at(after.outputs@, id, k));
            after.lemma_wf_with_outputs(before);
            crate::state::wm::lemma_output_place(after.outputs@, id, k);
        },
        None => {
            if exists|i: int| first_mapped(before.outputs@, i) {
                let k = choose|k: int| first_mapped(before.outputs@, k);
                assert(first_mapped(after.outputs@, k)) by {
                    assert forall|j: int| 0 <= j < k implies (
                    #[trigger] after.outputs@[j]).location is None by {
                        assert(before.outputs@[j].location is None);
                    }
                }
                lemma_first_mapped(after.outputs@, k);
            } else {
                if exists|i: int| first_mapped(after.outputs@, i) {
                    let k = choose|k: int| first_mapped(after.outputs@, k);
                    assert(first_mapped(before.outputs@, k)) by {
                        assert forall|j: int| 0 <= j < k implies (
                        #[trigger] before.outputs@[j]).location is None by {
                            assert(after.outputs@[j].location is None);
                        }
                    }
                }
            }
        },
    }
}

/// The active output is the focused one. Without a focused one it is the first that
/// is mapped, and without a mapped one there is none.
pub proof fn lemma_active_output(wm: DriftWm, i: int)
    requires
        wm.wf(),
        0 <= i < wm.outputs.len(),
    ensures
        wm.focused_output == Some(wm.outputs@[i].id) ==> {
            &&& wm.active_at() == Some(i)
            &&& wm.active() == Some(wm.outputs@[i])
            &&& wm.active_viewport() == wm.outputs@[i].state
        },
        wm.focused_output is None && wm.outputs@[i].location is Some && (forall|j: int|
            0 <= j < i ==> (#[trigger] wm.outputs@[j]).location is None) ==> {
            &&& wm.active_at() == Some(i)
            &&& wm.active() == Some(wm.outputs@[i])
            &&& wm.active_viewport() == wm.outputs@[i].state
        },
        wm.focused_output is None && (forall|j: int|
            0 <= j < wm.outputs.len() ==> (#[trigger] wm.outputs@[j]).location is None) ==> {
            &&& wm.active_at() is None
            &&& wm.active() is None
            &&& wm.active_viewport() is None
        },
{
    assert(wm.outputs@[i].ready());
    if wm.focused_output == Some(wm.outputs@[i].id) {
        assert(crate::state::wm::output_at(wm.outputs@, wm.outputs@[i].id, i));
        crate::state::wm::lemma_output_place(wm.outputs@, wm.outputs@[i].id, i);
    } else if wm.focused_output is None {
        if wm.outputs@[i].location is Some && (forall|j: int|
            0 <= j < i ==> (#[trigger] wm.outputs@[j]).location is None) {
            assert(first_mapped(wm.outputs@, i));
            lemma_first_mapped(wm.outputs@, i);
        }
    }
}

/// An output is in fullscreen mode exactly when it has an entry, and its fullscreen
/// state is that of the entry.
pub proof fn lemma_fullscreen_state_is_the_entry(wm: DriftWm, output: u64, i: int)
    requires
        wm.wf(),
    ensures
        0 <= i < wm.fullscreen.len() && wm.fullscreen@[i].output == output ==> wm.fullscreen_on(
            output,
        ) == Some(wm.fullscreen@[i].state),
        (forall|j: int|
            0 <= j < wm.fullscreen.len() ==> (#[trigger] wm.fullscreen@[j]).output != output)
            ==> wm.fullscreen_on(output) is None,
{
    if 0 <= i < wm.fullscreen.len() && wm.fullscreen@[i].output == output {
        assert(fullscreen_at(wm.fullscreen@, output, i));
        lemma_fullscreen_place(wm.fullscreen@, output, i);
    }
}

/// A setter changes the active output alone, and of it the viewport alone.
pub proof fn lemma_setters_touch_the_active_viewport(
    before: DriftWm,
    after: DriftWm,
    change: spec_fn(OutputState) -> OutputState,
    i: int,
)
    requires
        before.wf(),
        after.viewport_changed(before, change),
        0 <= i < before.outputs.len(),
    ensures
        after.outputs.len() == before.outputs.len(),
        before.focused_output == Some(before.outputs@[i].id) ==> after.outputs@[i] == (Output {
            state: Some(change(before.outputs@[i].state->0)),
            ..before.outputs@[i]
        }),
        before.focused_output is Some && before.focused_output != Some(before.outputs@[i].id)
            ==> after.outputs@[i] == before.outputs@[i],
        before.focused_output is None && before.outputs@[i].location is None ==> after.outputs@[i]
            == before.outputs@[i],
        after.windows == before.windows,
        after.focused_output == before.focused_output,
{
    lemma_active_output(before, i);
    match before.focused_output {
        Some(id) => {
            let k = choose|k: int| crate::state::wm::output_at(before.outputs@, id, k);
            assert(crate::state::wm::output_at(before.outputs@, id, k));
        },
        None => {
            if exists|k: int| first_mapped(before.outputs@, k) {
                let k = choose|k: int| first_mapped(before.outputs@, k);
                assert(first_mapped(before.outputs@, k));
            }
        },
    }
}

} // verus!
