//! The elements of a whole frame, from front to back.

use crate::config::settings::DecorationConfig;
use crate::geometry::{Rect, Size};
use crate::render::windows::{
    BackgroundSource, BlurRequest, BlurRequestView, FrameElement, WindowFacts, WindowPlan,
};
use crate::sets::common;
use crate::state::output::output_logical_size;
use crate::state::wm::{DriftWm, RenderCache, SessionLock};
use std::collections::HashSet;
use vstd::prelude::*;

verus! {

broadcast use vstd::std_specs::hash::group_hash_axioms;

/// What the renderer found out before a frame is composed.
#[derive(Debug)]
pub struct FrameInput {
    /// Of how many elements the cursor consists.
    pub cursor_parts: usize,
    /// Whether the surface of the drag icon is alive.
    pub dnd_icon_alive: bool,
    /// Of how many elements the lock surface of the output consists.
    pub lock_parts: usize,
    /// The background that the configuration gives an output without one.
    pub fresh_background: Option<BackgroundSource>,
    /// The part of the canvas that the output shows.
    pub visible: Rect,
    /// What was found out about each window.
    pub windows: Vec<WindowFacts>,
    /// Of how many elements the layer surfaces on the canvas consist.
    pub canvas_parts: usize,
    /// The part of the canvas that each output shows, in the screen coordinates
    /// of this output.
    pub on_screen: Vec<Rect>,
    /// Of how many elements the layers consist, and the blurs behind them.
    pub overlay_parts: usize,
    pub overlay_blur: Vec<BlurRequest>,
    pub top_parts: usize,
    pub top_blur: Vec<BlurRequest>,
    pub bottom_parts: usize,
    pub background_parts: usize,
}

/// A composed frame.
#[derive(Debug)]
pub struct FramePlan {
    /// The elements, from front to back.
    pub elements: Vec<FrameElement>,
    /// The blurs to draw, from front to back.
    pub blur: Vec<BlurRequest>,
    /// Where each group that a blur can lie in starts.
    pub overlay_prefix: usize,
    pub top_prefix: usize,
    pub normal_prefix: usize,
    pub widget_prefix: usize,
}

/// Of how many elements the numbered groups of a frame consist.
#[derive(Clone, Copy, Debug, PartialEq, Eq, Structural)]
struct PartCounts {
    cursor: usize,
    overlay: usize,
    top: usize,
    canvas: usize,
    bottom: usize,
    background: usize,
}

/// The groups of elements that are numbered and nothing else.
#[derive(Clone, Copy, Debug, PartialEq, Eq, Structural)]
pub enum PartKind {
    Cursor,
    Overlay,
    Top,
    CanvasLayer,
    Bottom,
    BackgroundLayer,
    LockSurface,
}

/// The element with a number in its group.
pub open spec fn part(kind: PartKind, i: int) -> FrameElement {
    match kind {
        PartKind::Cursor => FrameElement::Cursor(i as usize),
        PartKind::Overlay => FrameElement::Overlay(i as usize),
        PartKind::Top => FrameElement::Top(i as usize),
        PartKind::CanvasLayer => FrameElement::CanvasLayer(i as usize),
        PartKind::Bottom => FrameElement::Bottom(i as usize),
        PartKind::BackgroundLayer => FrameElement::BackgroundLayer(i as usize),
        PartKind::LockSurface => FrameElement::LockSurface(i as usize),
    }
}

/// All elements of a group.
pub open spec fn parts(kind: PartKind, count: int) -> Seq<FrameElement> {
    crate::render::windows::numbered(count, |i: int| part(kind, i))
}

/// Adds all elements of a group to a list.
fn push_parts(target: &mut Vec<FrameElement>, kind: PartKind, count: usize)
    ensures
        final(target)@ == old(target)@ + parts(kind, count as int),
{
    let mut i: usize = 0;
    assert(target@ =~= old(target)@ + parts(kind, 0));
    while i < count
        invariant
            i <= count,
            target@ == old(target)@ + parts(kind, i as int),
        decreases count - i,
    {
        let element: FrameElement = match kind {
            PartKind::Cursor => FrameElement::Cursor(i),
            PartKind::Overlay => FrameElement::Overlay(i),
            PartKind::Top => FrameElement::Top(i),
            PartKind::CanvasLayer => FrameElement::CanvasLayer(i),
            PartKind::Bottom => FrameElement::Bottom(i),
            PartKind::BackgroundLayer => FrameElement::BackgroundLayer(i),
            PartKind::LockSurface => FrameElement::LockSurface(i),
        };
        target.push(element);
        assert(target@ =~= old(target)@ + parts(kind, i + 1));
        i += 1;
    }
}

/// The elements of outlines.
pub open spec fn outline_elements(edges: Seq<Rect>) -> Seq<FrameElement> {
    edges.map_values(|edge: Rect| FrameElement::Outline(edge))
}

/// The element of a background, where there is one.
pub open spec fn background_elements(source: Option<BackgroundSource>) -> Seq<FrameElement> {
    match source {
        Some(source) => seq![FrameElement::Background(source)],
        None => Seq::empty(),
    }
}

/// The surfaces behind which a blur is drawn.
pub open spec fn blurred_surfaces(blur: Seq<BlurRequest>) -> Set<u64> {
    Set::new(|id: u64| exists|i: int| 0 <= i < blur.len() && (#[trigger] blur[i]).surface == id)
}

/// By how much a client's blur region is moved so that it is relative to the
/// window's frame instead of its surface: down by the title bar, or back by where
/// the content starts.
pub fn blur_region_offset(title_bar: bool, geometry: Rect) -> (offset: (i64, i64))
    ensures
        offset == (if title_bar {
            (0i64, DecorationConfig::TITLE_BAR_HEIGHT as i64)
        } else {
            ((-geometry.loc.x) as i64, (-geometry.loc.y) as i64)
        }),
        title_bar ==> offset.0 == 0 && offset.1 == 25,
        !title_bar ==> offset.0 + geometry.loc.x == 0 && offset.1 + geometry.loc.y == 0,
{
    if title_bar {
        (0, DecorationConfig::TITLE_BAR_HEIGHT as i64)
    } else {
        (-(geometry.loc.x as i64), -(geometry.loc.y as i64))
    }
}

impl RenderCache {
    /// The background in this cache of the output with the given name.
    pub open spec fn background_of(self, name: Seq<char>) -> Option<BackgroundSource> {
        if self.cached_bg_elements@.contains(name) {
            Some(BackgroundSource::Shader)
        } else if self.cached_tile_bg@.contains(name) {
            Some(BackgroundSource::Tile)
        } else if self.cached_wallpaper_bg@.contains(name) {
            Some(BackgroundSource::Wallpaper)
        } else {
            None
        }
    }

    /// The background of the output with the given name.
    pub fn background(&self, name: &String) -> (source: Option<BackgroundSource>)
        ensures
            source == self.background_of(name@),
    {
        if self.cached_bg_elements.contains(name) {
            Some(BackgroundSource::Shader)
        } else if self.cached_tile_bg.contains(name) {
            Some(BackgroundSource::Tile)
        } else if self.cached_wallpaper_bg.contains(name) {
            Some(BackgroundSource::Wallpaper)
        } else {
            None
        }
    }

    /// `self` is `before`, except that an output without a background got one.
    pub open spec fn background_ensured(
        self,
        before: RenderCache,
        name: Seq<char>,
        fresh: Option<BackgroundSource>,
    ) -> bool {
        let missing = before.background_of(name) is None;
        &&& self == (RenderCache {
            cached_bg_elements: self.cached_bg_elements,
            cached_tile_bg: self.cached_tile_bg,
            cached_wallpaper_bg: self.cached_wallpaper_bg,
            ..before
        })
        &&& self.cached_bg_elements@ == (if missing && fresh == Some(BackgroundSource::Shader) {
            before.cached_bg_elements@.insert(name)
        } else {
            before.cached_bg_elements@
        })
        &&& self.cached_tile_bg@ == (if missing && fresh == Some(BackgroundSource::Tile) {
            before.cached_tile_bg@.insert(name)
        } else {
            before.cached_tile_bg@
        })
        &&& self.cached_wallpaper_bg@ == (if missing && fresh == Some(
            BackgroundSource::Wallpaper,
        ) {
            before.cached_wallpaper_bg@.insert(name)
        } else {
            before.cached_wallpaper_bg@
        })
    }

    /// Gives an output without a background one.
    pub fn ensure_background(&mut self, name: &String, fresh: Option<BackgroundSource>)
        ensures
            final(self).background_ensured(*old(self), name@, fresh),
            final(self).background_of(name@) == (match old(self).background_of(name@) {
                Some(source) => Some(source),
                None => fresh,
            }),
    {
        if self.background(name).is_none() {
            match fresh {
                Some(BackgroundSource::Shader) => {
                    self.cached_bg_elements.insert(name);
                },
                Some(BackgroundSource::Tile) => {
                    self.cached_tile_bg.insert(name);
                },
                Some(BackgroundSource::Wallpaper) => {
                    self.cached_wallpaper_bg.insert(name);
                },
                None => {},
            }
        }
    }
}

impl DriftWm {
    /// The drag icon, unless its surface is gone.
    pub open spec fn live_icon(self, alive: bool) -> Option<u64> {
        if alive {
            self.dnd_icon
        } else {
            None
        }
    }

    /// The elements of a frame of a locked session: those of the output's lock
    /// surface alone, or none at all.
    pub open spec fn lock_elements(self, output: u64, count: int) -> Seq<FrameElement> {
        if self.lock_surfaces@.contains_key(output) {
            parts(PartKind::LockSurface, count)
        } else {
            Seq::empty()
        }
    }

    /// Of how many elements the top or the bottom layer consists: of none when it
    /// is hidden behind a fullscreen window.
    pub open spec fn shown_parts(self, output: u64, count: int) -> int {
        if self.fullscreen_on(output) is Some {
            0
        } else {
            count
        }
    }

    /// What lies in front of the windows: the cursor, the overlay and the top
    /// layer.
    pub open spec fn front_elements(self, output: u64, input: FrameInput) -> Seq<FrameElement> {
        parts(PartKind::Cursor, input.cursor_parts as int) + parts(
            PartKind::Overlay,
            input.overlay_parts as int,
        ) + parts(PartKind::Top, self.shown_parts(output, input.top_parts as int))
    }

    /// What lies in front of the widgets: all of that, the windows, and the layer
    /// surfaces on the canvas.
    pub open spec fn upper_elements(self, output: u64, input: FrameInput) -> Seq<FrameElement> {
        self.front_elements(output, input) + self.group_elements(
            input.windows@,
            input.visible,
            false,
            0,
        ) + parts(PartKind::CanvasLayer, input.canvas_parts as int)
    }

    /// All elements of a frame, from front to back.
    pub open spec fn frame_elements(
        self,
        output: u64,
        name: Seq<char>,
        viewport: Size,
        input: FrameInput,
    ) -> Seq<FrameElement> {
        let background = match self.render.background_of(name) {
            Some(source) => Some(source),
            None => input.fresh_background,
        };
        self.upper_elements(output, input) + self.group_elements(
            input.windows@,
            input.visible,
            true,
            0,
        ) + parts(PartKind::Bottom, self.shown_parts(output, input.bottom_parts as int))
            + outline_elements(self.outlines_on(output, input.on_screen@, viewport))
            + background_elements(background) + parts(
            PartKind::BackgroundLayer,
            input.background_parts as int,
        )
    }

    /// All blurs of a frame: those of layers first, then those of windows.
    pub open spec fn frame_blurs(self, output: u64, input: FrameInput) -> Seq<BlurRequestView> {
        crate::render::windows::blur_views(input.overlay_blur@) + (if self.fullscreen_on(
            output,
        ) is Some {
            Seq::empty()
        } else {
            crate::render::windows::blur_views(input.top_blur@)
        }) + self.window_blurs(input.windows@, input.visible, 0)
    }

    /// Composes a frame of an output. While the session is locked only the lock
    /// surface is shown.
    pub fn compose_frame(&mut self, output: u64, input: FrameInput) -> (plan: FramePlan)
        requires
            old(self).wf(),
            exists|i: int| crate::state::wm::output_at(old(self).outputs@, output, i),
            input.windows.len() == old(self).windows.len(),
            input.on_screen.len() == old(self).outputs.len(),
            old(self).session_lock is Unlocked ==> forall|i: int|
                0 <= i < old(self).windows.len() ==> old(self).box_fits(
                    #[trigger] old(self).windows@[i],
                ),
        ensures
            final(self).wf(),
            final(self).dnd_icon == old(self).live_icon(input.dnd_icon_alive),
            !(old(self).session_lock is Unlocked) ==> {
                &&& plan.elements@ == old(self).lock_elements(output, input.lock_parts as int)
                &&& plan.blur@ == Seq::<BlurRequest>::empty()
                &&& *final(self) == (DriftWm { dnd_icon: final(self).dnd_icon, ..*old(self) })
            },
            old(self).session_lock is Unlocked ==> {
                &&& exists|i: int|
                    {
                        &&& #[trigger] crate::state::wm::output_at(old(self).outputs@, output, i)
                        &&& plan.elements@ == old(self).frame_elements(
                            output,
                            old(self).outputs@[i].name@,
                            old(self).outputs@[i].logical_size(),
                            input,
                        )
                        &&& (RenderCache {
                            shadow_cache: old(self).render.shadow_cache,
                            blur_cache: old(self).render.blur_cache,
                            ..final(self).render
                        }).background_ensured(
                            old(self).render,
                            old(self).outputs@[i].name@,
                            input.fresh_background,
                        )
                    }
                &&& crate::render::windows::blur_views(plan.blur@) == old(self).frame_blurs(
                    output,
                    input,
                )
                &&& plan.overlay_prefix == input.cursor_parts
                &&& plan.top_prefix == input.cursor_parts + input.overlay_parts
                &&& plan.normal_prefix == old(self).front_elements(output, input).len()
                &&& plan.widget_prefix == old(self).upper_elements(output, input).len()
                &&& final(self).decorations@ == old(self).bars_redrawn(input.visible, 0)
                &&& final(self).render.shadow_cache@ == old(self).shadows_drawn(input.visible, 0)
                &&& final(self).render.blur_cache@ == (if old(self).blur_enabled() {
                    old(self).render.blur_cache@.intersect(blurred_surfaces(plan.blur@))
                } else {
                    old(self).render.blur_cache@
                })
                &&& *final(self) == (DriftWm {
                    dnd_icon: final(self).dnd_icon,
                    decorations: final(self).decorations,
                    render: final(self).render,
                    ..*old(self)
                })
            },
            old(self).session_lock is Unlocked ==> forall|n: int, k: int|
                0 <= n < old(self).windows.len() && 0 <= k < plan.elements.len()
                    ==> looks_as_its_mode_says(
                    *old(self),
                    #[trigger] old(self).windows@[n],
                    #[trigger] plan.elements@[k],
                ),
    {
        if !input.dnd_icon_alive {
            self.dnd_icon = None;
        }
        if self.session_lock != SessionLock::Unlocked {
            return self.compose_lock_frame(output, input.lock_parts);
        }
        let ghost start = *self;
        proof {
            self.lemma_icon_is_no_matter(*old(self), output, input);
            self.lemma_boxes_same(*old(self));
            let k = choose|k: int| crate::state::wm::output_at(old(self).outputs@, output, k);
            assert(crate::state::wm::output_at(self.outputs@, output, k));
        }
        let at: usize = self.find_output(output).unwrap();
        let viewport: Size = output_logical_size(&self.outputs[at]);
        let windows: WindowPlan = self.plan_windows(&input.windows, input.visible);
        let edges: Vec<Rect> = self.build_output_outline_elements(
            output,
            &input.on_screen,
            viewport,
        );
        let fullscreen: bool = self.is_output_fullscreen(output);
        self.redraw_bars(input.visible);
        proof {
            self.lemma_bars_are_no_matter(start, input.visible, 0);
            self.lemma_boxes_same(start);
        }
        self.keep_shadows(input.visible);
        let name: String = self.outputs[at].name.clone();
        self.render.ensure_background(&name, input.fresh_background);
        let background: Option<BackgroundSource> = self.render.background(&name);

        let counts: PartCounts = PartCounts {
            cursor: input.cursor_parts,
            overlay: input.overlay_parts,
            top: if fullscreen {
                0
            } else {
                input.top_parts
            },
            canvas: input.canvas_parts,
            bottom: if fullscreen {
                0
            } else {
                input.bottom_parts
            },
            background: input.background_parts,
        };
        let mut blur: Vec<BlurRequest> = input.overlay_blur;
        let mut top_blur: Vec<BlurRequest> = input.top_blur;
        let mut window_blur: Vec<BlurRequest> = windows.blur;
        if !fullscreen {
            blur.append(&mut top_blur);
        }
        blur.append(&mut window_blur);
        assert(crate::render::windows::blur_views(blur@) =~= start.frame_blurs(output, input));
        if self.is_blur_enabled() {
            let active: HashSet<u64> = surfaces_of(&blur);
            self.render.blur_cache = common(&self.render.blur_cache, &active);
        }
        assert(crate::state::wm::output_at(old(self).outputs@, output, at as int));
        let plan: FramePlan = assemble(
            counts,
            windows.normal,
            windows.widgets,
            &edges,
            background,
            blur,
        );
        assert(plan.elements@ == start.frame_elements(output, name@, viewport, input));
        proof {
            lemma_all_look_as_their_modes_say(*old(self), output, name@, viewport, input);
        }
        assert(*self == (DriftWm {
            dnd_icon: self.dnd_icon,
            decorations: self.decorations,
            render: self.render,
            ..*old(self)
        }));
        plan
    }

    /// What a frame shows of windows does not depend on the drag icon.
    proof fn lemma_icon_is_no_matter(self, before: DriftWm, output: u64, input: FrameInput)
        requires
            self == (DriftWm { dnd_icon: self.dnd_icon, ..before }),
        ensures
            self.front_elements(output, input) == before.front_elements(output, input),
            self.upper_elements(output, input) == before.upper_elements(output, input),
            forall|name: Seq<char>, viewport: Size| #[trigger]
                self.frame_elements(output, name, viewport, input) == before.frame_elements(
                    output,
                    name,
                    viewport,
                    input,
                ),
            self.frame_blurs(output, input) == before.frame_blurs(output, input),
            self.bars_redrawn(input.visible, 0) == before.bars_redrawn(input.visible, 0),
            self.shadows_drawn(input.visible, 0) == before.shadows_drawn(input.visible, 0),
    {
        self.lemma_fullscreen_same(before, output);
        self.lemma_groups_same(before, input.windows@, input.visible, 0);
        assert forall|name: Seq<char>, viewport: Size| #[trigger]
            self.frame_elements(output, name, viewport, input) == before.frame_elements(
                output,
                name,
                viewport,
                input,
            ) by {
            assert(self.outlines_on(output, input.on_screen@, viewport) == before.outlines_on(
                output,
                input.on_screen@,
                viewport,
            ));
        }
    }

    /// What a window covers depends on which windows have a title bar, not on what
    /// the bars show.
    proof fn lemma_boxes_same(self, before: DriftWm)
        requires
            self.windows == before.windows,
            self.fullscreen == before.fullscreen,
            self.decorations@.dom() == before.decorations@.dom(),
            forall|i: int|
                0 <= i < before.windows.len() ==> before.box_fits(#[trigger] before.windows@[i]),
        ensures
            forall|i: int|
                0 <= i < self.windows.len() ==> self.box_fits(#[trigger] self.windows@[i]),
    {
        self.lemma_fullscreen_same(before, 0);
        assert forall|i: int| 0 <= i < self.windows.len() implies self.box_fits(
            #[trigger] self.windows@[i],
        ) by {
            let w = before.windows@[i];
            assert(before.box_fits(w));
            if let Some(surface) = w.surface {
                assert(self.decorations@.dom().contains(surface)
                    == before.decorations@.dom().contains(surface));
            }
            assert(self.has_ssd(w) == before.has_ssd(w));
        }
    }

    /// Fullscreen mode depends on the fullscreen entries alone.
    proof fn lemma_fullscreen_same(self, before: DriftWm, output: u64)
        requires
            self.fullscreen == before.fullscreen,
        ensures
            self.fullscreen_on(output) == before.fullscreen_on(output),
            forall|id: u64| self.shown_fullscreen(id) == before.shown_fullscreen(id),
    {
    }

    /// What windows contribute does not depend on the drag icon.
    proof fn lemma_groups_same(
        self,
        before: DriftWm,
        facts: Seq<WindowFacts>,
        visible: Rect,
        n: int,
    )
        requires
            self == (DriftWm { dnd_icon: self.dnd_icon, ..before }),
        ensures
            self.group_elements(facts, visible, false, n) == before.group_elements(
                facts,
                visible,
                false,
                n,
            ),
            self.group_elements(facts, visible, true, n) == before.group_elements(
                facts,
                visible,
                true,
                n,
            ),
            self.window_blurs(facts, visible, n) == before.window_blurs(facts, visible, n),
            self.bars_redrawn(visible, n) == before.bars_redrawn(visible, n),
            self.shadows_drawn(visible, n) == before.shadows_drawn(visible, n),
        decreases self.windows.len() - n,
    {
        if 0 <= n < self.windows.len() {
            self.lemma_groups_same(before, facts, visible, n + 1);
            let w = self.windows@[n];
            self.lemma_fullscreen_same(before, 0);
            assert(self.has_ssd(w) == before.has_ssd(w));
            assert(self.chrome_of(w) == before.chrome_of(w));
            assert(self.solid_elements(w, facts[n]) == before.solid_elements(w, facts[n]));
            assert(self.window_elements(w, facts[n]) == before.window_elements(w, facts[n]));
        }
    }

    /// Which shadows are drawn does not depend on what the title bars show.
    proof fn lemma_bars_are_no_matter(self, before: DriftWm, visible: Rect, n: int)
        requires
            self == (DriftWm { decorations: self.decorations, ..before }),
            self.decorations@.dom() == before.decorations@.dom(),
        ensures
            self.shadows_drawn(visible, n) == before.shadows_drawn(visible, n),
        decreases self.windows.len() - n,
    {
        if 0 <= n < self.windows.len() {
            self.lemma_bars_are_no_matter(before, visible, n + 1);
            let w = self.windows@[n];
            self.lemma_fullscreen_same(before, 0);
            assert(self.decorated(w) == before.decorated(w)) by {
                if let Some(surface) = w.surface {
                    assert(self.decorations@.dom().contains(surface)
                        == before.decorations@.dom().contains(surface));
                }
            }
            assert(self.has_ssd(w) == before.has_ssd(w));
            assert(self.chrome_of(w) == before.chrome_of(w));
        }
    }

    /// The frame of a locked session.
    fn compose_lock_frame(&self, output: u64, lock_parts: usize) -> (plan: FramePlan)
        ensures
            plan.elements@ == self.lock_elements(output, lock_parts as int),
            plan.blur@ == Seq::<BlurRequest>::empty(),
    {
        let mut elements: Vec<FrameElement> = Vec::new();
        if self.lock_surfaces.contains_key(&output) {
            push_parts(&mut elements, PartKind::LockSurface, lock_parts);
        }
        assert(elements@ =~= self.lock_elements(output, lock_parts as int));
        FramePlan {
            elements,
            blur: Vec::new(),
            overlay_prefix: 0,
            top_prefix: 0,
            normal_prefix: 0,
            widget_prefix: 0,
        }
    }
}

/// An element of a frame looks as the mode of a window says, if it belongs to the
/// window. In the mode `Bare`, that of the window's rule or else the default one, and
/// without a title bar of ours, there is no shadow and nothing is clipped; in any other
/// mode, with the clip shader, the surfaces are clipped unless the window is fullscreen
/// or has a title bar.
pub open spec fn looks_as_its_mode_says(
    wm: DriftWm,
    w: crate::state::windows::Window,
    element: FrameElement,
) -> bool {
    let mode = match w.rule {
        Some(rule) => match rule.decoration {
            Some(mode) => mode,
            None => wm.config.decorations.default_mode,
        },
        None => wm.config.decorations.default_mode,
    };
    let full = exists|i: int|
        0 <= i < wm.fullscreen.len() && (#[trigger] wm.fullscreen@[i]).state.window == w.id;
    let bar = !full && w.surface is Some && wm.decorations@.contains_key(w.surface->0);
    &&& mode is Bare && !bar ==> {
        &&& element matches FrameElement::Shadow { window, .. } ==> window != w.id
        &&& element matches FrameElement::Content { window, clip, .. } ==> window == w.id
            ==> clip is None
    }
    &&& wm.render.corner_clip_shader && !(mode is Bare) && !full && !bar ==> (
    element matches FrameElement::Content { window, clip, .. } ==> window == w.id ==> clip is Some)
}

/// Every element of a frame looks as the modes of the windows say.
proof fn lemma_all_look_as_their_modes_say(
    wm: DriftWm,
    output: u64,
    name: Seq<char>,
    viewport: Size,
    input: FrameInput,
)
    requires
        wm.wf(),
    ensures
        forall|n: int, k: int|
            0 <= n < wm.windows.len() && 0 <= k < wm.frame_elements(
                output,
                name,
                viewport,
                input,
            ).len() ==> looks_as_its_mode_says(
                wm,
                #[trigger] wm.windows@[n],
                #[trigger] wm.frame_elements(output, name, viewport, input)[k],
            ),
{
    assert forall|n: int, k: int|
        0 <= n < wm.windows.len() && 0 <= k < wm.frame_elements(
            output,
            name,
            viewport,
            input,
        ).len() implies looks_as_its_mode_says(
        wm,
        #[trigger] wm.windows@[n],
        #[trigger] wm.frame_elements(output, name, viewport, input)[k],
    ) by {
        lemma_mode_decides_how_a_window_looks(wm, output, name, viewport, input, n, k);
    }
}

/// Puts the groups of elements together, from front to back.
fn assemble(
    counts: PartCounts,
    normal: Vec<FrameElement>,
    widgets: Vec<FrameElement>,
    edges: &Vec<Rect>,
    background: Option<BackgroundSource>,
    blur: Vec<BlurRequest>,
) -> (plan: FramePlan)
    ensures
        ({
            let front = parts(PartKind::Cursor, counts.cursor as int) + parts(
                PartKind::Overlay,
                counts.overlay as int,
            ) + parts(PartKind::Top, counts.top as int);
            let upper = front + normal@ + parts(PartKind::CanvasLayer, counts.canvas as int);
            &&& plan.elements@ == upper + widgets@ + parts(PartKind::Bottom, counts.bottom as int)
                + outline_elements(edges@) + background_elements(background) + parts(
                PartKind::BackgroundLayer,
                counts.background as int,
            )
            &&& plan.overlay_prefix == counts.cursor
            &&& plan.top_prefix == counts.cursor + counts.overlay
            &&& plan.normal_prefix == front.len()
            &&& plan.widget_prefix == upper.len()
            &&& plan.blur == blur
        }),
{
    let ghost normal_elements = normal@;
    let ghost widget_elements = widgets@;
    let mut normal: Vec<FrameElement> = normal;
    let mut widgets: Vec<FrameElement> = widgets;
    let mut elements: Vec<FrameElement> = Vec::new();
    push_parts(&mut elements, PartKind::Cursor, counts.cursor);
    let overlay_prefix: usize = elements.len();
    push_parts(&mut elements, PartKind::Overlay, counts.overlay);
    let top_prefix: usize = elements.len();
    push_parts(&mut elements, PartKind::Top, counts.top);
    let ghost front = parts(PartKind::Cursor, counts.cursor as int) + parts(
        PartKind::Overlay,
        counts.overlay as int,
    ) + parts(PartKind::Top, counts.top as int);
    assert(elements@ =~= front);
    let normal_prefix: usize = elements.len();
    elements.append(&mut normal);
    push_parts(&mut elements, PartKind::CanvasLayer, counts.canvas);
    let widget_prefix: usize = elements.len();
    elements.append(&mut widgets);
    push_parts(&mut elements, PartKind::Bottom, counts.bottom);
    let ghost before_outlines = elements@;
    let mut i: usize = 0;
    assert(elements@ =~= before_outlines + outline_elements(edges@.take(0)));
    while i < edges.len()
        invariant
            i <= edges.len(),
            elements@ == before_outlines + outline_elements(edges@.take(i as int)),
        decreases edges.len() - i,
    {
        elements.push(FrameElement::Outline(edges[i]));
        assert(elements@ =~= before_outlines + outline_elements(edges@.take(i + 1)));
        i += 1;
    }
    assert(edges@.take(i as int) =~= edges@);
    let ghost before_background = elements@;
    if let Some(source) = background {
        elements.push(FrameElement::Background(source));
    }
    assert(elements@ =~= before_background + background_elements(background));
    push_parts(&mut elements, PartKind::BackgroundLayer, counts.background);
    FramePlan { elements, blur, overlay_prefix, top_prefix, normal_prefix, widget_prefix }
}

/// The surfaces behind which a blur is drawn.
fn surfaces_of(blur: &Vec<BlurRequest>) -> (ids: HashSet<u64>)
    ensures
        ids@ == blurred_surfaces(blur@),
{
    let mut ids: HashSet<u64> = HashSet::new();
    let mut i: usize = 0;
    while i < blur.len()
        invariant
            i <= blur.len(),
            forall|id: u64| #[trigger]
                ids@.contains(id) <==> exists|j: int|
                    0 <= j < i && (#[trigger] blur@[j]).surface == id,
        decreases blur.len() - i,
    {
        ids.insert(blur[i].surface);
        i += 1;
    }
    assert(ids@ =~= blurred_surfaces(blur@));
    ids
}

/// The elements of the windows from the one at `n` up come first in their group.
proof fn lemma_group_starts_with(
    wm: DriftWm,
    facts: Seq<WindowFacts>,
    visible: Rect,
    widgets: bool,
    m: int,
    n: int,
)
    requires
        0 <= m <= n <= wm.windows.len(),
    ensures
        wm.group_elements(facts, visible, widgets, n).len() <= wm.group_elements(
            facts,
            visible,
            widgets,
            m,
        ).len(),
        forall|k: int|
            0 <= k < wm.group_elements(facts, visible, widgets, n).len()
                ==> #[trigger] wm.group_elements(facts, visible, widgets, m)[k]
                == wm.group_elements(facts, visible, widgets, n)[k],
    decreases n - m,
{
    if m < n {
        lemma_group_starts_with(wm, facts, visible, widgets, m + 1, n);
    }
}

/// The blur behind a window addresses that window: counted from the start of its
/// group in the frame, the elements that the blur lies behind are the window's
/// own, all of them, and its shadow is not among them.
pub proof fn lemma_blur_lies_behind_its_window(
    wm: DriftWm,
    output: u64,
    name: Seq<char>,
    viewport: Size,
    input: FrameInput,
    n: int,
    k: int,
)
    requires
        0 <= n < wm.windows.len(),
        wm.in_view(wm.windows@[n], input.visible),
        0 <= k < wm.blur_of(input.windows@, input.visible, n).elem_count,
    ensures
        ({
            let w = wm.windows@[n];
            let blur = wm.blur_of(input.windows@, input.visible, n);
            let prefix = if blur.layer is Widget {
                wm.upper_elements(output, input).len()
            } else {
                wm.front_elements(output, input).len()
            };
            let frame = wm.frame_elements(output, name, viewport, input);
            let element = frame[prefix + blur.elem_start + k];
            &&& prefix + blur.elem_start + k < frame.len()
            &&& element == wm.solid_elements(w, input.windows@[n])[k]
            &&& match element {
                FrameElement::Popup { window, .. } => window == w.id,
                FrameElement::TitleBar { window, .. } => window == w.id,
                FrameElement::Content { window, .. } => window == w.id,
                _ => false,
            }
        }),
{
    let w = wm.windows@[n];
    let facts = input.windows@;
    let widgets = w.widget();
    let group = wm.group_elements(facts, input.visible, widgets, 0);
    let upto = wm.group_elements(facts, input.visible, widgets, n);
    let above = wm.group_elements(facts, input.visible, widgets, n + 1);
    let own = wm.window_elements(w, facts[n]);
    let solid = wm.solid_elements(w, facts[n]);
    lemma_group_starts_with(wm, facts, input.visible, widgets, 0, n);
    assert(upto == above + own);
    assert(own[k] == solid[k]);
    let at = above.len() + k;
    assert(upto[at] == own[k]);
    assert(group[at] == upto[at]);
    let front = wm.front_elements(output, input);
    let upper = wm.upper_elements(output, input);
    let normal = wm.group_elements(facts, input.visible, false, 0);
    let frame = wm.frame_elements(output, name, viewport, input);
    if widgets {
        assert(frame[upper.len() + at] == group[at]);
    } else {
        assert(upper[front.len() + at] == normal[at]);
        assert(frame[front.len() + at] == upper[front.len() + at]);
    }
}

/// A fullscreen window is drawn without a title bar, a shadow or rounded corners.
pub proof fn lemma_fullscreen_windows_are_bare(wm: DriftWm, w: crate::state::windows::Window)
    requires
        wm.shown_fullscreen(w.id),
    ensures
        wm.chrome_of(w) is Plain,
        !wm.casts_shadow(w),
        wm.clip_of(w) is None,
{
}

/// An element that belongs to a window, at its place in the frame, is one of the
/// elements of a window in view; that window and the element's place among its
/// elements are returned.
proof fn lemma_window_element_has_a_window(
    wm: DriftWm,
    output: u64,
    name: Seq<char>,
    viewport: Size,
    input: FrameInput,
    k: int,
) -> (r: (int, int))
    requires
        0 <= k < wm.frame_elements(output, name, viewport, input).len(),
        ({
            let element = wm.frame_elements(output, name, viewport, input)[k];
            element is Popup || element is TitleBar || element is Content || element is Shadow
        }),
    ensures
        0 <= r.0 < wm.windows.len(),
        wm.in_view(wm.windows@[r.0], input.visible),
        0 <= r.1 < wm.window_elements(wm.windows@[r.0], input.windows@[r.0]).len(),
        wm.frame_elements(output, name, viewport, input)[k] == wm.window_elements(
            wm.windows@[r.0],
            input.windows@[r.0],
        )[r.1],
{
    let facts = input.windows@;
    let visible = input.visible;
    let frame = wm.frame_elements(output, name, viewport, input);
    let front = wm.front_elements(output, input);
    let normal = wm.group_elements(facts, visible, false, 0);
    let upper = wm.upper_elements(output, input);
    let widget = wm.group_elements(facts, visible, true, 0);
    if k < upper.len() {
        assert(frame[k] == upper[k]);
        assert(front.len() <= k < front.len() + normal.len());
        assert(upper[k] == normal[k - front.len()]);
        crate::render::windows::lemma_group_shows_its_windows(
            wm,
            facts,
            visible,
            false,
            0,
            k - front.len(),
        );
        let (m, j) = choose|m: int, j: int|
            {
                &&& 0 <= m < wm.windows.len()
                &&& wm.in_view(wm.windows@[m], visible)
                &&& 0 <= j < wm.window_elements(wm.windows@[m], facts[m]).len()
                &&& normal[k - front.len()] == #[trigger] wm.window_elements(
                    wm.windows@[m],
                    facts[m],
                )[j]
            };
        (m, j)
    } else {
        assert(k < upper.len() + widget.len());
        assert(frame[k] == widget[k - upper.len()]);
        crate::render::windows::lemma_group_shows_its_windows(
            wm,
            facts,
            visible,
            true,
            0,
            k - upper.len(),
        );
        let (m, j) = choose|m: int, j: int|
            {
                &&& 0 <= m < wm.windows.len()
                &&& wm.in_view(wm.windows@[m], visible)
                &&& 0 <= j < wm.window_elements(wm.windows@[m], facts[m]).len()
                &&& widget[k - upper.len()] == #[trigger] wm.window_elements(
                    wm.windows@[m],
                    facts[m],
                )[j]
            };
        (m, j)
    }
}

/// The mode that holds for a window decides how it looks in a frame, whatever the
/// default mode is. A window whose rule, or else whose default, says `Bare` and
/// that has no title bar of ours casts no shadow and is not clipped. With the clip
/// shader, a window in any other mode is clipped unless it is fullscreen or has a
/// title bar.
pub proof fn lemma_mode_decides_how_a_window_looks(
    wm: DriftWm,
    output: u64,
    name: Seq<char>,
    viewport: Size,
    input: FrameInput,
    n: int,
    k: int,
)
    requires
        0 <= n < wm.windows.len(),
        forall|i: int, j: int|
            0 <= i < j < wm.windows.len() ==> (#[trigger] wm.windows@[i]).id != (
            #[trigger] wm.windows@[j]).id,
        0 <= k < wm.frame_elements(output, name, viewport, input).len(),
    ensures
        ({
            let w = wm.windows@[n];
            let mode = match w.rule {
                Some(rule) => match rule.decoration {
                    Some(mode) => mode,
                    None => wm.config.decorations.default_mode,
                },
                None => wm.config.decorations.default_mode,
            };
            let full = exists|i: int|
                0 <= i < wm.fullscreen.len() && (#[trigger] wm.fullscreen@[i]).state.window == w.id;
            let bar = !full && w.surface is Some && wm.decorations@.contains_key(w.surface->0);
            let element = wm.frame_elements(output, name, viewport, input)[k];
            &&& mode is Bare && !bar ==> {
                &&& element matches FrameElement::Shadow { window, .. } ==> window != w.id
                &&& element matches FrameElement::Content { window, clip, .. } ==> window == w.id
                    ==> clip is None
            }
            &&& full ==> {
                &&& element matches FrameElement::Shadow { window, .. } ==> window != w.id
                &&& element matches FrameElement::TitleBar { window, .. } ==> window != w.id
                &&& element matches FrameElement::Content { window, clip, .. } ==> window == w.id
                    ==> clip is None
            }
            &&& wm.render.corner_clip_shader && !(mode is Bare) && !full && !bar ==> (
            element matches FrameElement::Content { window, clip, .. } ==> window == w.id
                ==> clip is Some)
            &&& element matches FrameElement::TitleBar { window, .. } ==> window == w.id ==> bar
        }),
{
    let element = wm.frame_elements(output, name, viewport, input)[k];
    if element is Shadow || element is TitleBar || element is Content {
        let (m, j) = lemma_window_element_has_a_window(wm, output, name, viewport, input, k);
        let w = wm.windows@[m];
        let facts = input.windows@[m];
        crate::render::windows::lemma_window_is_drawn_in_order(wm, w, facts);
        crate::render::windows::lemma_bare_windows_stay_bare(wm, w, facts, j);
        if wm.render.corner_clip_shader {
            crate::render::windows::lemma_other_windows_are_clipped(wm, w, facts, j);
        }
        if m < n {
            assert(wm.windows@[m].id != wm.windows@[n].id);
        }
        if n < m {
            assert(wm.windows@[n].id != wm.windows@[m].id);
        }
    }
}

/// A frame shows every window in view whole: each element of such a window stands
/// in the frame.
pub proof fn lemma_frame_shows_every_window_in_view(
    wm: DriftWm,
    output: u64,
    name: Seq<char>,
    viewport: Size,
    input: FrameInput,
    n: int,
    j: int,
)
    requires
        0 <= n < wm.windows.len(),
        wm.in_view(wm.windows@[n], input.visible),
        0 <= j < wm.window_elements(wm.windows@[n], input.windows@[n]).len(),
    ensures
        wm.frame_elements(output, name, viewport, input).contains(
            wm.window_elements(wm.windows@[n], input.windows@[n])[j],
        ),
{
    let facts = input.windows@;
    let w = wm.windows@[n];
    let widgets = w.surface is Some && w.rule is Some && w.rule->0.widget;
    crate::render::windows::lemma_window_in_view_is_drawn_whole(
        wm,
        facts,
        input.visible,
        widgets,
        n,
        j,
    );
    let group = wm.group_elements(facts, input.visible, widgets, 0);
    let at = wm.group_elements(facts, input.visible, widgets, n + 1).len() + j;
    let front = wm.front_elements(output, input);
    let upper = wm.upper_elements(output, input);
    let frame = wm.frame_elements(output, name, viewport, input);
    if widgets {
        assert(frame[upper.len() + at] == group[at]);
    } else {
        assert(upper[front.len() + at] == group[at]);
        assert(frame[front.len() + at] == upper[front.len() + at]);
    }
}

/// A frame starts with the cursor, the overlay layer and the top layer, each part
/// by part, and ends with the parts of the background layer. The top layer is left
/// out, all of it, while a window is fullscreen on the output.
pub proof fn lemma_frame_starts_and_ends_with_layers(
    wm: DriftWm,
    output: u64,
    name: Seq<char>,
    viewport: Size,
    input: FrameInput,
    k: int,
)
    ensures
        ({
            let frame = wm.frame_elements(output, name, viewport, input);
            let full = exists|i: int|
                0 <= i < wm.fullscreen.len() && (#[trigger] wm.fullscreen@[i]).output == output;
            let cursor = input.cursor_parts as int;
            let overlay = input.overlay_parts as int;
            let top = if full { 0 } else { input.top_parts as int };
            let back = input.background_parts as int;
            &&& cursor + overlay + top + back <= frame.len()
            &&& 0 <= k < cursor ==> frame[k] == FrameElement::Cursor(k as usize)
            &&& 0 <= k < overlay ==> frame[cursor + k] == FrameElement::Overlay(k as usize)
            &&& 0 <= k < top ==> frame[cursor + overlay + k] == FrameElement::Top(k as usize)
            &&& 0 <= k < back ==> frame[frame.len() - back + k] == FrameElement::BackgroundLayer(
                k as usize,
            )
            &&& wm.front_elements(output, input).len() == cursor + overlay + top
        }),
{
    let full = exists|i: int|
        0 <= i < wm.fullscreen.len() && (#[trigger] wm.fullscreen@[i]).output == output;
    lemma_fullscreen_by_entries(wm, output);
    let frame = wm.frame_elements(output, name, viewport, input);
    let front = wm.front_elements(output, input);
    let upper = wm.upper_elements(output, input);
    let cursor = input.cursor_parts as int;
    let overlay = input.overlay_parts as int;
    let top = if full { 0 } else { input.top_parts as int };
    assert(front.len() == cursor + overlay + top);
    assert forall|i: int| 0 <= i < front.len() implies #[trigger] frame[i] == front[i] by {
        assert(upper[i] == front[i]);
        assert(frame[i] == upper[i]);
    }
    if 0 <= k < cursor {
        assert(front[k] == part(PartKind::Cursor, k));
    }
    if 0 <= k < overlay {
        assert(front[cursor + k] == part(PartKind::Overlay, k));
    }
    if 0 <= k < top {
        assert(front[cursor + overlay + k] == part(PartKind::Top, k));
    }
}

/// An output is in fullscreen mode exactly when it has an entry.
proof fn lemma_fullscreen_by_entries(wm: DriftWm, output: u64)
    ensures
        wm.fullscreen_on(output) is Some <==> exists|i: int|
            0 <= i < wm.fullscreen.len() && (#[trigger] wm.fullscreen@[i]).output == output,
{
    if exists|i: int|
        0 <= i < wm.fullscreen.len() && (#[trigger] wm.fullscreen@[i]).output == output {
        let i = choose|i: int|
            0 <= i < wm.fullscreen.len() && (#[trigger] wm.fullscreen@[i]).output == output;
        assert(crate::state::view::fullscreen_at(wm.fullscreen@, output, i));
    }
}

/// Behind the windows come the layer surfaces on the canvas, then the widgets, the
/// bottom layer, the outlines of other outputs and the background, in this order.
/// The bottom layer is left out, all of it, while a window is fullscreen on the
/// output. The background is the one that is kept for the output, or else the one
/// that the configuration gives it.
pub proof fn lemma_frame_behind_the_windows(
    wm: DriftWm,
    output: u64,
    name: Seq<char>,
    viewport: Size,
    input: FrameInput,
    k: int,
)
    ensures
        ({
            let frame = wm.frame_elements(output, name, viewport, input);
            let full = exists|i: int|
                0 <= i < wm.fullscreen.len() && (#[trigger] wm.fullscreen@[i]).output == output;
            let windows = wm.group_elements(input.windows@, input.visible, false, 0);
            let widgets = wm.group_elements(input.windows@, input.visible, true, 0);
            let edges = wm.outlines_on(output, input.on_screen@, viewport);
            let kept = wm.render.cached_bg_elements@.contains(name)
                || wm.render.cached_tile_bg@.contains(name)
                || wm.render.cached_wallpaper_bg@.contains(name);
            let backs = if kept || input.fresh_background is Some { 1int } else { 0 };
            let canvas = input.canvas_parts as int;
            let bottom = if full { 0 } else { input.bottom_parts as int };
            let at_windows = input.cursor_parts + input.overlay_parts + (if full {
                0
            } else {
                input.top_parts as int
            });
            let at_canvas = at_windows + windows.len();
            let at_widgets = at_canvas + canvas;
            let at_bottom = at_widgets + widgets.len();
            let at_edges = at_bottom + bottom;
            let at_back = at_edges + edges.len();
            &&& frame.len() == at_back + backs + input.background_parts
            &&& 0 <= k < windows.len() ==> frame[at_windows + k] == windows[k]
            &&& 0 <= k < canvas ==> frame[at_canvas + k] == FrameElement::CanvasLayer(k as usize)
            &&& 0 <= k < widgets.len() ==> frame[at_widgets + k] == widgets[k]
            &&& 0 <= k < bottom ==> frame[at_bottom + k] == FrameElement::Bottom(k as usize)
            &&& 0 <= k < edges.len() ==> frame[at_edges + k] == FrameElement::Outline(edges[k])
            &&& backs == 1 ==> {
                let source = frame[at_back];
                &&& source is Background
                &&& !kept ==> Some(source->Background_0) == input.fresh_background
                &&& kept ==> match source->Background_0 {
                    BackgroundSource::Shader => wm.render.cached_bg_elements@.contains(name),
                    BackgroundSource::Tile => wm.render.cached_tile_bg@.contains(name),
                    BackgroundSource::Wallpaper => wm.render.cached_wallpaper_bg@.contains(name),
                }
            }
            &&& wm.upper_elements(output, input).len() == at_widgets
        }),
{
    let full = exists|i: int|
        0 <= i < wm.fullscreen.len() && (#[trigger] wm.fullscreen@[i]).output == output;
    lemma_fullscreen_by_entries(wm, output);
    let frame = wm.frame_elements(output, name, viewport, input);
    let front = wm.front_elements(output, input);
    let windows = wm.group_elements(input.windows@, input.visible, false, 0);
    let widgets = wm.group_elements(input.windows@, input.visible, true, 0);
    let upper = wm.upper_elements(output, input);
    let edges = wm.outlines_on(output, input.on_screen@, viewport);
    let bottom = if full { 0 } else { input.bottom_parts as int };
    assert(wm.shown_parts(output, input.bottom_parts as int) == bottom);
    assert forall|i: int| 0 <= i < upper.len() implies #[trigger] frame[i] == upper[i] by {}
    if 0 <= k < windows.len() {
        assert(upper[front.len() + k] == windows[k]);
    }
    if 0 <= k < input.canvas_parts {
        assert(upper[front.len() + windows.len() + k] == part(PartKind::CanvasLayer, k));
    }
    let at_bottom = upper.len() + widgets.len();
    if 0 <= k < bottom {
        assert(frame[at_bottom + k] == part(PartKind::Bottom, k));
    }
    if 0 <= k < edges.len() {
        assert(frame[at_bottom + bottom + k] == outline_elements(edges)[k]);
    }
}

/// A procedural background that is kept for an output comes before a tiled one, and
/// that before a wallpaper. An output that keeps a background gets no other one,
/// and one that keeps none gets exactly the one that the configuration gives it.
pub proof fn lemma_kept_background_stays(
    before: RenderCache,
    after: RenderCache,
    name: Seq<char>,
    other: Seq<char>,
    fresh: Option<BackgroundSource>,
)
    requires
        after.background_ensured(before, name, fresh),
    ensures
        before.cached_bg_elements@.contains(name) ==> before.background_of(name) == Some(
            BackgroundSource::Shader,
        ),
        !before.cached_bg_elements@.contains(name) && before.cached_tile_bg@.contains(name)
            ==> before.background_of(name) == Some(BackgroundSource::Tile),
        !before.cached_bg_elements@.contains(name) && !before.cached_tile_bg@.contains(name)
            && before.cached_wallpaper_bg@.contains(name) ==> before.background_of(name) == Some(
            BackgroundSource::Wallpaper,
        ),
        !before.cached_bg_elements@.contains(name) && !before.cached_tile_bg@.contains(name)
            && !before.cached_wallpaper_bg@.contains(name) ==> {
            &&& before.background_of(name) is None
            &&& after.background_of(name) == fresh
        },
        before.background_of(name) is Some ==> {
            &&& after.cached_bg_elements@ == before.cached_bg_elements@
            &&& after.cached_tile_bg@ == before.cached_tile_bg@
            &&& after.cached_wallpaper_bg@ == before.cached_wallpaper_bg@
        },
        other != name ==> after.background_of(other) == before.background_of(other),
{
    match fresh {
        Some(BackgroundSource::Shader) => {},
        Some(BackgroundSource::Tile) => {},
        Some(BackgroundSource::Wallpaper) => {},
        None => {},
    }
}

/// A locked output shows its lock surface and nothing else, and nothing at all
/// while it has no lock surface.
pub proof fn lemma_locked_frame_shows_the_lock_alone(wm: DriftWm, output: u64, count: int, k: int)
    requires
        0 <= count <= usize::MAX,
    ensures
        wm.lock_surfaces@.contains_key(output) ==> wm.lock_elements(output, count).len() == count,
        !wm.lock_surfaces@.contains_key(output) ==> wm.lock_elements(output, count).len() == 0,
        0 <= k < wm.lock_elements(output, count).len() ==> wm.lock_elements(output, count)[k]
            == FrameElement::LockSurface(k as usize),
{
}

/// The blurs of a frame are those of the overlay layer, those of the top layer
/// unless a window is fullscreen on the output, and those of the windows, in this
/// order.
pub proof fn lemma_frame_blurs_in_order(wm: DriftWm, output: u64, input: FrameInput, k: int)
    ensures
        ({
            let blurs = wm.frame_blurs(output, input);
            let full = exists|i: int|
                0 <= i < wm.fullscreen.len() && (#[trigger] wm.fullscreen@[i]).output == output;
            let overlay = input.overlay_blur.len() as int;
            let top = if full { 0 } else { input.top_blur.len() as int };
            let windows = wm.window_blurs(input.windows@, input.visible, 0);
            &&& blurs.len() == overlay + top + windows.len()
            &&& 0 <= k < overlay ==> blurs[k] == input.overlay_blur@[k]@
            &&& 0 <= k < top ==> blurs[overlay + k] == input.top_blur@[k]@
            &&& 0 <= k < windows.len() ==> blurs[overlay + top + k] == windows[k]
        }),
{
    lemma_fullscreen_by_entries(wm, output);
}

/// A live drag icon is kept; one whose surface is gone is dropped.
pub proof fn lemma_dead_icon_is_dropped(wm: DriftWm)
    ensures
        wm.live_icon(true) == wm.dnd_icon,
        wm.live_icon(false) is None,
{
}

/// The blurs that are kept are those that are drawn: a surface counts as blurred
/// exactly when some blur of the frame lies behind it.
pub proof fn lemma_blurred_surfaces_have_a_blur(blur: Seq<BlurRequest>, surface: u64)
    ensures
        blurred_surfaces(blur).contains(surface) <==> exists|i: int|
            0 <= i < blur.len() && (#[trigger] blur[i]).surface == surface,
{
}

} // verus!
