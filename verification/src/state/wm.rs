//! The central state of the window manager.

use crate::config::actions::Action;
use crate::config::settings::Config;
use crate::geometry::{Point, PointF, Size};
use crate::names::NameSet;
use crate::scalar::Scalar;
use crate::state::output::{Output, Timestamp};
use crate::state::windows::{FullscreenEntry, Window};
use std::collections::{HashMap, HashSet};
use vstd::prelude::*;

verus! {

broadcast use vstd::std_specs::hash::group_hash_axioms;

/// A layer surface placed at a fixed canvas position (instead of being anchored
/// to the screen). Created when a layer surface's namespace matches a window
/// rule with `position`.
#[derive(Debug)]
pub struct CanvasLayer {
    pub surface: u64,
    /// Rule position (Y-up, window-centered), converted to canvas coordinates
    /// after the first commit.
    pub rule_position: (i32, i32),
    /// Internal canvas position (Y-down, top-left). None until the first commit
    /// reveals the size.
    pub position: Option<Point>,
    pub namespace: String,
}

/// Persistent per-output state for screen recording, reused across frames so
/// that only damaged regions are rendered again.
#[derive(Clone, Copy, Debug)]
pub struct CaptureOutputState {
    /// Reused offscreen texture for captures into shared memory, with its size.
    pub offscreen_texture: Option<(u64, Size)>,
    pub age: usize,
    /// Reset age when cursor inclusion changes between frames.
    pub last_paint_cursors: bool,
}

/// Buffered middle-click from a 3-finger tap. Held for a moment to see if a
/// 3-finger swipe follows (move window). If the timer fires without a swipe,
/// the click is forwarded to the client (paste).
#[derive(Clone, Copy, Debug, PartialEq, Eq, Structural)]
pub struct PendingMiddleClick {
    pub press_time: u32,
    pub release_time: Option<u32>,
    pub timer_token: u64,
}

/// Session lock state machine: Unlocked, Pending, Locked, Unlocked.
#[derive(Clone, Copy, Debug, PartialEq, Eq, Structural)]
pub enum SessionLock {
    Unlocked,
    /// Lock requested; screen goes black until lock surface commits.
    Pending(u64),
    /// Lock confirmed; rendering only the lock surface.
    Locked,
}

/// Where a window is re-centered once its size changes.
#[derive(Clone, Copy, Debug)]
pub struct PendingRecenter {
    pub target_center: PointF,
    pub pre_exit_size: Size,
}

/// The shape of a named cursor.
#[derive(Clone, Debug)]
pub enum CursorIcon {
    Default,
    Wait,
    /// Any other cursor, by its name.
    Other(String),
}

impl CursorIcon {
    /// The name under which a cursor theme holds the cursor.
    pub open spec fn label(self) -> Seq<char> {
        match self {
            CursorIcon::Default => "default"@,
            CursorIcon::Wait => "wait"@,
            CursorIcon::Other(name) => name@,
        }
    }

    /// The same cursor.
    pub fn duplicate(&self) -> (copy: CursorIcon)
        ensures
            copy.label() == self.label(),
    {
        match self {
            CursorIcon::Default => CursorIcon::Default,
            CursorIcon::Wait => CursorIcon::Wait,
            CursorIcon::Other(name) => CursorIcon::Other(name.clone()),
        }
    }

    pub fn name(&self) -> (name: &str)
        ensures
            name@ == self.label(),
    {
        match self {
            CursorIcon::Default => "default",
            CursorIcon::Wait => "wait",
            CursorIcon::Other(name) => name.as_str(),
        }
    }
}

/// What the cursor shows.
#[derive(Clone, Debug)]
pub enum CursorImageStatus {
    Hidden,
    /// A surface that a client draws.
    Surface(u64),
    Named(CursorIcon),
}

#[derive(Debug)]
pub struct CursorState {
    pub cursor_status: CursorImageStatus,
    /// A compositor grab (pan, resize) controls the cursor.
    pub grab_cursor: bool,
    /// Hovering a decoration controls the cursor.
    pub decoration_cursor: bool,
    /// When the loading cursor appears.
    pub exec_cursor_show_at: Option<Timestamp>,
    /// When the loading cursor disappears.
    pub exec_cursor_deadline: Option<Timestamp>,
    /// The shown cursor has several frames.
    pub animated: bool,
}

/// The title bar that was drawn for a window.
#[derive(Clone, Copy, Debug, PartialEq, Eq, Structural)]
pub struct WindowDecoration {
    pub width: i32,
    pub focused: bool,
}

/// A window that had the focus, on the canvas or off it.
#[derive(Clone, Copy, Debug, PartialEq, Eq, Structural)]
pub struct RecentWindow {
    pub window: u64,
    /// The window's surface, while it has one.
    pub surface: Option<u64>,
}

/// A key that is held down and repeats its action.
#[derive(Debug)]
pub struct HeldAction {
    pub keycode: u32,
    pub action: Action,
    pub next_repeat: Timestamp,
}

/// What the renderer holds between frames.
#[derive(Debug)]
pub struct RenderCache {
    /// Counts changes of the stacking order and of window geometry.
    pub blur_geometry_generation: u64,
    /// Counts movements of the cameras.
    pub blur_camera_generation: u64,
    /// Whether each shader was compiled.
    pub blur_down_shader: bool,
    pub blur_up_shader: bool,
    pub blur_mask_shader: bool,
    pub corner_clip_shader: bool,
    pub shadow_shader: bool,
    /// The surfaces with a cached shadow.
    pub shadow_cache: HashSet<u64>,
    /// The surfaces with a cached blur.
    pub blur_cache: HashSet<u64>,
    /// The names of the outputs with a procedural background.
    pub cached_bg_elements: NameSet,
    /// The names of the outputs with a tiled background.
    pub cached_tile_bg: NameSet,
    /// The names of the outputs with a wallpaper.
    pub cached_wallpaper_bg: NameSet,
}

/// Central compositor state.
#[derive(Debug)]
pub struct DriftWm {
    pub start_time: Timestamp,
    /// All windows on the canvas, from the bottom up.
    pub windows: Vec<Window>,
    /// All outputs, in the order in which they were mapped.
    pub outputs: Vec<Output>,
    pub cursor: CursorState,
    pub dnd_icon: Option<u64>,
    /// The title bars that were drawn, by surface.
    pub decorations: HashMap<u64, WindowDecoration>,
    pub pending_ssd: HashSet<u64>,
    pub render: RenderCache,
    /// DRM render node accepted by the renderer. `None` on a nested compositor.
    pub render_device: Option<u64>,
    /// The DMA-BUF formats that the renderer accepts, each a fourcc code and a
    /// modifier.
    pub render_dmabuf_formats: Option<Vec<(u32, u64)>>,
    /// Surfaces holding idle inhibitors. Refreshed each frame: only surfaces
    /// actively scanning out (visible) count, so a hidden browser tab playing
    /// video doesn't keep the screen awake.
    pub idle_inhibiting_surfaces: HashSet<u64>,
    /// What the idle notifier was told last.
    pub idle_inhibited: bool,
    pub pending_screencopies: Vec<u64>,
    pub pending_captures: Vec<u64>,
    pub session_lock: SessionLock,
    /// The lock surface of each output.
    pub lock_surfaces: HashMap<u64, u64>,
    pub pointer_over_layer: bool,
    pub canvas_layers: Vec<CanvasLayer>,
    pub config: Config,
    pub pending_center: HashSet<u64>,
    pub pending_size: HashSet<u64>,
    /// The keyboard's focused window when each new surface appeared, before
    /// the new surface got the focus. `Some(None)` means the user explicitly
    /// had no focus, so auto-placement falls back to center; a missing entry
    /// means the snapshot was already consumed.
    pub auto_anchor_snapshot: HashMap<u64, Option<u64>>,
    /// After unfit, re-center the window once its reported geometry actually
    /// changes from `pre_exit_size`.
    pub pending_recenter: HashMap<u64, PendingRecenter>,
    /// The window that shows itself as the active one; all others show
    /// themselves as inactive.
    pub activated: Option<u64>,
    /// The surface that has the keyboard focus.
    pub keyboard_focus: Option<u64>,
    /// The windows by how recently they were focused, the latest first.
    pub focus_history: Vec<RecentWindow>,
    pub cycle_state: Option<usize>,
    pub held_action: Option<HeldAction>,
    /// Keycodes whose press was intercepted by a binding. Their releases must
    /// also be intercepted, otherwise the focused client receives a release
    /// without a press.
    pub suppressed_keys: HashSet<u32>,
    /// The outputs in fullscreen mode.
    pub fullscreen: Vec<FullscreenEntry>,
    /// The gesture in progress.
    pub gesture_state: Option<u64>,
    pub pending_middle_click: Option<PendingMiddleClick>,
    pub momentum_timer: Option<u64>,
    pub state_file_cameras: HashMap<String, (PointF, Scalar)>,
    pub state_file_last_write: Timestamp,
    /// Active XKB layout name, updated on key events.
    pub active_layout: String,
    pub state_file_layout: String,
    /// The windows that were last written to the state file, each by the number of
    /// what was written of it.
    pub state_file_windows: Vec<u64>,
    pub state_file_layer_count: usize,
    pub autostart: Vec<String>,
    pub active_crtcs: HashSet<u32>,
    pub redraws_needed: HashSet<u32>,
    pub frames_pending: HashSet<u32>,
    /// One-shot timers that keep animations going when a frame was empty.
    pub estimated_vblank_timers: HashMap<u32, u64>,
    pub config_file_mtime: Option<Timestamp>,
    /// Global animation tick, separate from the outputs' own to avoid
    /// double-ticking when several outputs render in one iteration.
    pub last_animation_tick: Timestamp,
    /// The output the pointer is currently on (for input routing).
    pub focused_output: Option<u64>,
    /// The output a gesture started on (pinned for duration of gesture).
    pub gesture_output: Option<u64>,
    /// Fullscreen window that was exited by a gesture.
    pub gesture_exited_fullscreen: Option<u64>,
    /// Output names kept as virtual placeholders when all physical outputs
    /// disconnect.
    pub disconnected_outputs: HashSet<String>,
    /// Set when an output configuration was applied on a client's request; the
    /// render loop then collects the outputs' state anew and notifies clients.
    pub output_config_dirty: bool,
    pub last_titlebar_click: Option<(Timestamp, u64)>,
}

/// No two outputs are the same.
pub open spec fn distinct_outputs(outputs: Seq<Output>) -> bool {
    forall|i: int, j: int| 0 <= i < j < outputs.len() ==> (#[trigger] outputs[i]).id != (
    #[trigger] outputs[j]).id
}

/// No output is in fullscreen mode twice.
pub open spec fn distinct_fullscreen(entries: Seq<FullscreenEntry>) -> bool {
    forall|i: int, j: int| 0 <= i < j < entries.len() ==> (#[trigger] entries[i]).output != (
    #[trigger] entries[j]).output
}

/// The output with the given id stands at `i`.
pub open spec fn output_at(outputs: Seq<Output>, id: u64, i: int) -> bool {
    0 <= i < outputs.len() && outputs[i].id == id
}

/// An output stands at one place only.
pub(crate) proof fn lemma_output_place(outputs: Seq<Output>, id: u64, i: int)
    requires
        distinct_outputs(outputs),
        output_at(outputs, id, i),
    ensures
        (choose|k: int| output_at(outputs, id, k)) == i,
{
    let k = choose|k: int| output_at(outputs, id, k);
    if i < k {
        assert(outputs[i].id != outputs[k].id);
    }
    if k < i {
        assert(outputs[k].id != outputs[i].id);
    }
}

/// Windows, outputs and fullscreen entries are listed once, every output has its
/// viewport state, and the focused output is one of them.
pub open spec fn desktop_wf(
    windows: Seq<Window>,
    outputs: Seq<Output>,
    fullscreen: Seq<FullscreenEntry>,
    focused_output: Option<u64>,
) -> bool {
    &&& crate::state::windows::distinct_windows(windows)
    &&& distinct_outputs(outputs)
    &&& distinct_fullscreen(fullscreen)
    &&& forall|i: int| 0 <= i < outputs.len() ==> (#[trigger] outputs[i]).ready()
    &&& focused_output matches Some(id) ==> exists|i: int| output_at(outputs, id, i)
}

impl DriftWm {
    /// The desktop is well formed.
    pub open spec fn wf(self) -> bool {
        desktop_wf(self.windows@, self.outputs@, self.fullscreen@, self.focused_output)
    }

    /// The desktop stays well formed as long as the outputs stay the same ones and
    /// keep their viewport state.
    pub(crate) proof fn lemma_wf_with_outputs(self, before: DriftWm)
        requires
            before.wf(),
            self.windows == before.windows,
            self.fullscreen == before.fullscreen,
            self.focused_output == before.focused_output,
            self.outputs.len() == before.outputs.len(),
            forall|i: int|
                0 <= i < before.outputs.len() ==> (#[trigger] self.outputs@[i]).id
                    == before.outputs@[i].id && (before.outputs@[i].ready()
                    ==> self.outputs@[i].ready()),
        ensures
            self.wf(),
    {
        if let Some(id) = self.focused_output {
            let k = choose|k: int| output_at(before.outputs@, id, k);
            assert(output_at(self.outputs@, id, k));
        }
        assert forall|a: int, b: int| 0 <= a < b < self.outputs.len() implies (
        #[trigger] self.outputs@[a]).id != (#[trigger] self.outputs@[b]).id by {
            assert(before.outputs@[a].id != before.outputs@[b].id);
        }
        assert forall|a: int| 0 <= a < self.outputs.len() implies (
        #[trigger] self.outputs@[a]).ready() by {
            assert(before.outputs@[a].ready());
        }
    }
}

/// A list with the same texts.
fn copy_texts(texts: &Vec<String>) -> (copy: Vec<String>)
    ensures
        copy.len() == texts.len(),
        forall|i: int| 0 <= i < texts.len() ==> (#[trigger] copy@[i])@ == texts@[i]@,
{
    let mut copy: Vec<String> = Vec::new();
    let mut i: usize = 0;
    while i < texts.len()
        invariant
            i <= texts.len(),
            copy.len() == i,
            forall|j: int| 0 <= j < i ==> (#[trigger] copy@[j])@ == texts@[j]@,
        decreases texts.len() - i,
    {
        copy.push(texts[i].clone());
        i += 1;
    }
    copy
}

impl RenderCache {
    /// Nothing was rendered yet and no shader compiled.
    pub open spec fn blank(self) -> bool {
        &&& self.blur_geometry_generation == 0
        &&& self.blur_camera_generation == 0
        &&& !self.blur_down_shader
        &&& !self.blur_up_shader
        &&& !self.blur_mask_shader
        &&& !self.corner_clip_shader
        &&& !self.shadow_shader
        &&& self.shadow_cache@ == Set::<u64>::empty()
        &&& self.blur_cache@ == Set::<u64>::empty()
        &&& self.cached_bg_elements@ == Set::<Seq<char>>::empty()
        &&& self.cached_tile_bg@ == Set::<Seq<char>>::empty()
        &&& self.cached_wallpaper_bg@ == Set::<Seq<char>>::empty()
    }

    pub fn new() -> (cache: RenderCache)
        ensures
            cache.blank(),
    {
        RenderCache {
            blur_geometry_generation: 0,
            blur_camera_generation: 0,
            blur_down_shader: false,
            blur_up_shader: false,
            blur_mask_shader: false,
            corner_clip_shader: false,
            shadow_shader: false,
            shadow_cache: HashSet::new(),
            blur_cache: HashSet::new(),
            cached_bg_elements: NameSet::new(),
            cached_tile_bg: NameSet::new(),
            cached_wallpaper_bg: NameSet::new(),
        }
    }
}

impl CursorState {
    /// The default cursor, controlled by nobody.
    pub open spec fn idle(self) -> bool {
        &&& self.cursor_status == CursorImageStatus::Named(CursorIcon::Default)
        &&& !self.grab_cursor
        &&& !self.decoration_cursor
        &&& self.exec_cursor_show_at is None
        &&& self.exec_cursor_deadline is None
        &&& !self.animated
    }

    pub fn new() -> (cursor: CursorState)
        ensures
            cursor.idle(),
    {
        CursorState {
            cursor_status: CursorImageStatus::Named(CursorIcon::Default),
            grab_cursor: false,
            decoration_cursor: false,
            exec_cursor_show_at: None,
            exec_cursor_deadline: None,
            animated: false,
        }
    }
}

impl DriftWm {
    /// The state at start: nothing on the canvas, no output, nobody focused,
    /// nothing pending, the session unlocked.
    pub open spec fn pristine(self, now: Timestamp) -> bool {
        &&& self.start_time == now
        &&& self.windows@ == Seq::<Window>::empty()
        &&& self.outputs@ == Seq::<Output>::empty()
        &&& self.cursor.idle()
        &&& self.dnd_icon is None
        &&& self.decorations@ == Map::<u64, WindowDecoration>::empty()
        &&& self.pending_ssd@ == Set::<u64>::empty()
        &&& self.render.blank()
        &&& self.render_device is None
        &&& self.render_dmabuf_formats is None
        &&& self.idle_inhibiting_surfaces@ == Set::<u64>::empty()
        &&& !self.idle_inhibited
        &&& self.pending_screencopies@ == Seq::<u64>::empty()
        &&& self.pending_captures@ == Seq::<u64>::empty()
        &&& self.session_lock == SessionLock::Unlocked
        &&& self.lock_surfaces@ == Map::<u64, u64>::empty()
        &&& !self.pointer_over_layer
        &&& self.canvas_layers@ == Seq::<CanvasLayer>::empty()
        &&& self.pending_center@ == Set::<u64>::empty()
        &&& self.pending_size@ == Set::<u64>::empty()
        &&& self.auto_anchor_snapshot@ == Map::<u64, Option<u64>>::empty()
        &&& self.pending_recenter@ == Map::<u64, PendingRecenter>::empty()
        &&& self.activated is None
        &&& self.keyboard_focus is None
        &&& self.focus_history@ == Seq::<RecentWindow>::empty()
        &&& self.cycle_state is None
        &&& self.held_action is None
        &&& self.suppressed_keys@ == Set::<u32>::empty()
        &&& self.fullscreen@ == Seq::<FullscreenEntry>::empty()
        &&& self.gesture_state is None
        &&& self.pending_middle_click is None
        &&& self.momentum_timer is None
        &&& self.state_file_cameras@ == Map::<String, (PointF, Scalar)>::empty()
        &&& self.state_file_last_write == now
        &&& self.active_layout@ == Seq::<char>::empty()
        &&& self.state_file_layout@ == Seq::<char>::empty()
        &&& self.state_file_windows@ == Seq::<u64>::empty()
        &&& self.state_file_layer_count == 0
        &&& self.active_crtcs@ == Set::<u32>::empty()
        &&& self.redraws_needed@ == Set::<u32>::empty()
        &&& self.frames_pending@ == Set::<u32>::empty()
        &&& self.estimated_vblank_timers@ == Map::<u32, u64>::empty()
        &&& self.config_file_mtime is None
        &&& self.last_animation_tick == now
        &&& self.focused_output is None
        &&& self.gesture_output is None
        &&& self.gesture_exited_fullscreen is None
        &&& self.disconnected_outputs@ == Set::<String>::empty()
        &&& !self.output_config_dirty
        &&& self.last_titlebar_click is None
    }

    /// The state at start, for a configuration.
    pub fn new(config: Config, now: Timestamp) -> (wm: DriftWm)
        ensures
            wm.wf(),
            wm.pristine(now),
            wm.config == config,
            wm.autostart.len() == config.autostart.len(),
            forall|i: int|
                0 <= i < config.autostart.len() ==> (#[trigger] wm.autostart@[i])@
                    == config.autostart@[i]@,
    {
        let autostart: Vec<String> = copy_texts(&config.autostart);
        DriftWm {
            start_time: now,
            windows: Vec::new(),
            outputs: Vec::new(),
            cursor: CursorState::new(),
            dnd_icon: None,
            decorations: HashMap::new(),
            pending_ssd: HashSet::new(),
            render: RenderCache::new(),
            render_device: None,
            render_dmabuf_formats: None,
            idle_inhibiting_surfaces: HashSet::new(),
            idle_inhibited: false,
            pending_screencopies: Vec::new(),
            pending_captures: Vec::new(),
            session_lock: SessionLock::Unlocked,
            lock_surfaces: HashMap::new(),
            pointer_over_layer: false,
            canvas_layers: Vec::new(),
            config,
            pending_center: HashSet::new(),
            pending_size: HashSet::new(),
            auto_anchor_snapshot: HashMap::new(),
            pending_recenter: HashMap::new(),
            activated: None,
            keyboard_focus: None,
            focus_history: Vec::new(),
            cycle_state: None,
            held_action: None,
            suppressed_keys: HashSet::new(),
            fullscreen: Vec::new(),
            gesture_state: None,
            pending_middle_click: None,
            momentum_timer: None,
            state_file_cameras: HashMap::new(),
            state_file_last_write: now,
            active_layout: String::new(),
            state_file_layout: String::new(),
            state_file_windows: Vec::new(),
            state_file_layer_count: 0,
            autostart,
            active_crtcs: HashSet::new(),
            redraws_needed: HashSet::new(),
            frames_pending: HashSet::new(),
            estimated_vblank_timers: HashMap::new(),
            config_file_mtime: None,
            last_animation_tick: now,
            focused_output: None,
            gesture_output: None,
            gesture_exited_fullscreen: None,
            disconnected_outputs: HashSet::new(),
            output_config_dirty: false,
            last_titlebar_click: None,
        }
    }
}

/// At the start there is nothing: no window, no output and none in fullscreen mode,
/// nobody has the focus, no title bar is drawn, nothing is captured, moved or pending,
/// and the session is not locked.
pub proof fn lemma_nothing_at_the_start(wm: DriftWm, now: Timestamp, id: u64)
    requires
        wm.pristine(now),
    ensures
        wm.windows.len() == 0,
        wm.outputs.len() == 0,
        wm.focused_output is None,
        wm.active() is None,
        wm.fullscreen_on(id) is None,
        !wm.shown_fullscreen(id),
        wm.window_in_focus() is None,
        wm.activated is None,
        wm.focus_history.len() == 0,
        wm.session_lock == SessionLock::Unlocked,
        !wm.lock_surfaces@.contains_key(id),
        !wm.decorations@.contains_key(id),
        !wm.pending_ssd@.contains(id),
        !wm.idle_inhibited && !wm.idle_inhibiting_surfaces@.contains(id),
        wm.pending_captures.len() == 0 && wm.pending_screencopies.len() == 0,
        wm.held_action is None && wm.cycle_state is None && wm.gesture_state is None,
        wm.pending_middle_click is None && wm.momentum_timer is None,
        wm.dnd_icon is None,
        !wm.output_config_dirty,
        wm.start_time == now && wm.last_animation_tick == now && wm.state_file_last_write == now,
        wm.wf(),
{
}

/// A new cache holds nothing and no shader, so that every background and shadow is
/// made anew; a new cursor is the default one that nobody controls.
pub proof fn lemma_nothing_is_cached_at_first(
    cache: RenderCache,
    cursor: CursorState,
    name: Seq<char>,
    surface: u64,
)
    requires
        cache.blank(),
        cursor.idle(),
    ensures
        cache.background_of(name) is None,
        !cache.shadow_cache@.contains(surface),
        !cache.blur_cache@.contains(surface),
        !cache.blur_down_shader && !cache.blur_up_shader && !cache.blur_mask_shader,
        !cache.corner_clip_shader && !cache.shadow_shader,
        cache.blur_geometry_generation == 0 && cache.blur_camera_generation == 0,
        cursor.cursor_status is Named && cursor.cursor_status->Named_0 is Default,
        !cursor.grab_cursor && !cursor.decoration_cursor && !cursor.animated,
        cursor.exec_cursor_show_at is None && cursor.exec_cursor_deadline is None,
{
}

/// The cursors that the compositor itself asks for have the names under which themes
/// hold them; any other one has the name that it was given.
pub proof fn lemma_cursor_names(icon: CursorIcon)
    ensures
        icon is Default ==> icon.label() == "default"@,
        icon is Wait ==> icon.label() == "wait"@,
        icon matches CursorIcon::Other(name) ==> icon.label() == name@,
{
}

} // verus!
