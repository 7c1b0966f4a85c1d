//! The elements of a frame that windows contribute, and the blur behind them.

use crate::config::rules::{effective_decoration_mode, DecorationMode};
use crate::config::settings::DecorationConfig;
use crate::geometry::{saturating_difference, saturating_sum, Point, Rect, Size};
use crate::scalar::{Scalar, ONE_BITS};
use crate::state::placement::FrameRect;
use crate::state::windows::Window;
use crate::state::wm::{DriftWm, WindowDecoration};
use vstd::prelude::*;

verus! {

broadcast use vstd::std_specs::hash::group_hash_axioms;

/// How far the corners of a window are rounded off, in half pixels.
#[derive(Clone, Copy, Debug, PartialEq, Eq, Structural)]
pub struct CornerRadii {
    pub top_left: i64,
    pub top_right: i64,
    pub bottom_right: i64,
    pub bottom_left: i64,
}

/// The part of a window's surfaces that is drawn.
#[derive(Clone, Copy, Debug, PartialEq, Eq, Structural)]
pub struct CornerClip {
    /// The content's rectangle, relative to where the surface is drawn.
    pub area: Rect,
    pub radii: CornerRadii,
}

/// Where a background comes from.
#[derive(Clone, Copy, Debug, PartialEq, Eq, Structural)]
pub enum BackgroundSource {
    /// A procedural shader.
    Shader,
    /// A tiled texture.
    Tile,
    /// A single image.
    Wallpaper,
}

/// One element of a frame.
#[derive(Clone, Copy, Debug)]
pub enum FrameElement {
    /// A part of the cursor.
    Cursor(usize),
    /// A part of the overlay layer.
    Overlay(usize),
    /// A part of the top layer.
    Top(usize),
    /// A part of a window's popups.
    Popup { window: u64, part: usize },
    /// A window's title bar; translucent where an alpha is given.
    TitleBar { window: u64, alpha: Option<Scalar> },
    /// A part of a window's surfaces, clipped or plain.
    Content { window: u64, part: usize, clip: Option<CornerClip> },
    /// A window's shadow, around a body that is relative to where the surface is
    /// drawn.
    Shadow { window: u64, body: FrameRect, radius: i32, opacity: Scalar },
    /// A part of the layer surfaces on the canvas.
    CanvasLayer(usize),
    /// A part of the bottom layer.
    Bottom(usize),
    /// An edge of another output's outline.
    Outline(Rect),
    Background(BackgroundSource),
    /// A part of the background layer.
    BackgroundLayer(usize),
    /// A part of the lock surface.
    LockSurface(usize),
}

/// Which group of elements a blur lies in.
#[derive(Clone, Copy, Debug, PartialEq, Eq, Structural)]
pub enum BlurLayer {
    Overlay,
    Top,
    Normal,
    Widget,
}

/// A blur behind some elements of a group.
#[derive(Debug)]
pub struct BlurRequest {
    pub surface: u64,
    pub screen_rect: Rect,
    /// The first of the elements, counted from the start of the group.
    pub elem_start: usize,
    pub elem_count: usize,
    pub layer: BlurLayer,
    /// The parts to blur; everything when there is no list.
    pub region: Option<Vec<Rect>>,
}

/// What a [`BlurRequest`] says.
pub struct BlurRequestView {
    pub surface: u64,
    pub screen_rect: Rect,
    pub elem_start: int,
    pub elem_count: int,
    pub layer: BlurLayer,
    pub region: Option<Seq<Rect>>,
}

impl View for BlurRequest {
    type V = BlurRequestView;

    open spec fn view(&self) -> BlurRequestView {
        BlurRequestView {
            surface: self.surface,
            screen_rect: self.screen_rect,
            elem_start: self.elem_start as int,
            elem_count: self.elem_count as int,
            layer: self.layer,
            region: match self.region {
                Some(parts) => Some(parts@),
                None => None,
            },
        }
    }
}

/// What a list of blur requests says.
pub open spec fn blur_views(requests: Seq<BlurRequest>) -> Seq<BlurRequestView> {
    requests.map_values(|request: BlurRequest| request@)
}

/// What the renderer found out about a window.
#[derive(Debug)]
pub struct WindowFacts {
    /// Of how many elements the popups consist.
    pub popup_parts: usize,
    /// Of how many elements the surfaces consist.
    pub surface_parts: usize,
    /// Whether a title bar could be uploaded.
    pub bar_drawn: bool,
    /// Where the window lies on the screen, in physical pixels.
    pub screen_rect: Rect,
    /// The rectangles that the client wants blurred, as opposite corners relative
    /// to `screen_rect` in physical pixels. An empty list means that the client
    /// wants no blur.
    pub blur_corners: Option<Vec<(Point, Point)>>,
}

/// What a window is drawn with around its content.
#[derive(Clone, Copy, Debug, PartialEq, Eq, Structural)]
pub enum Chrome {
    /// A title bar, and the corners and the shadow of the whole frame.
    TitleBar,
    /// The corners and the shadow of the content.
    Rounded,
    /// Nothing.
    Plain,
}

/// A radius in half pixels, at most half of the shorter side and never negative.
pub open spec fn corner_radius(radius: int, size: Size) -> int {
    let most = crate::geometry::larger(
        crate::geometry::smaller(size.w as int, size.h as int),
        0,
    );
    crate::geometry::smaller(crate::geometry::larger(2 * radius, 0), most)
}

/// A radius in half pixels, limited so that a tiny window doesn't get corners
/// wider than half its side.
pub fn clamp_corner(radius: i32, size: Size) -> (r: i64)
    ensures
        r == corner_radius(radius as int, size),
        0 <= r <= 0x7fff_ffff,
{
    let side: i32 = if size.w < size.h {
        size.w
    } else {
        size.h
    };
    let most: i64 = if side > 0 {
        side as i64
    } else {
        0
    };
    let wanted: i64 = if radius > 0 {
        2 * radius as i64
    } else {
        0
    };
    if wanted < most {
        wanted
    } else {
        most
    }
}

/// The parts of a rectangle list that lie in a window of the given size.
pub open spec fn clipped_region(corners: Seq<(Point, Point)>, size: Size) -> Seq<Rect>
    decreases corners.len(),
{
    if corners.len() == 0 {
        Seq::empty()
    } else {
        let before = clipped_region(corners.drop_last(), size);
        let (a, b) = corners.last();
        let part = Rect::spanned(a.x as int, a.y as int, b.x as int, b.y as int);
        let bounds = Rect { loc: Point { x: 0, y: 0 }, size };
        if part.meets(bounds) {
            before.push(part.common(bounds))
        } else {
            before
        }
    }
}

/// Clips a client's blur region to its window.
fn clip_region(corners: &Vec<(Point, Point)>, size: Size) -> (parts: Vec<Rect>)
    ensures
        parts@ == clipped_region(corners@, size),
{
    let bounds: Rect = Rect::from_size(size);
    let mut parts: Vec<Rect> = Vec::new();
    let mut i: usize = 0;
    assert(corners@.take(0) =~= Seq::<(Point, Point)>::empty());
    while i < corners.len()
        invariant
            i <= corners.len(),
            bounds == (Rect { loc: Point { x: 0, y: 0 }, size }),
            parts@ == clipped_region(corners@.take(i as int), size),
        decreases corners.len() - i,
    {
        proof {
            let seen = corners@.take(i + 1);
            assert(seen.drop_last() =~= corners@.take(i as int));
            assert(seen.last() == corners@[i as int]);
        }
        let (a, b): (Point, Point) = corners[i];
        if let Some(part) = Rect::from_extremities(a, b).intersection(&bounds) {
            parts.push(part);
        }
        i += 1;
    }
    assert(corners@.take(i as int) =~= corners@);
    parts
}

/// `n` elements that `make` numbers from 0.
pub open spec fn numbered(n: int, make: spec_fn(int) -> FrameElement) -> Seq<FrameElement> {
    Seq::new(n as nat, make)
}

impl WindowFacts {
    /// The client asks for a blur behind parts of its window.
    pub open spec fn client_blur(self) -> bool {
        self.blur_corners matches Some(corners) && corners@.len() > 0
    }

    /// The parts that the client wants blurred, where any of them lies in the
    /// window.
    pub open spec fn region(self) -> Option<Seq<Rect>> {
        match self.blur_corners {
            Some(corners) => {
                let parts = clipped_region(corners@, self.screen_rect.size);
                if parts.len() > 0 {
                    Some(parts)
                } else {
                    None
                }
            },
            None => None,
        }
    }
}

impl DriftWm {
    /// A window has a title bar of ours in this frame.
    pub open spec fn has_ssd(self, w: Window) -> bool {
        !self.shown_fullscreen(w.id) && self.decorated(w)
    }

    /// What the surfaces of a window cover on the canvas.
    pub open spec fn surface_box(w: Window) -> Rect {
        let dx = crate::geometry::saturated(w.location.x - w.geometry.loc.x);
        let dy = crate::geometry::saturated(w.location.y - w.geometry.loc.y);
        Rect {
            loc: Point {
                x: crate::geometry::saturated(w.bbox.loc.x + dx) as i32,
                y: crate::geometry::saturated(w.bbox.loc.y + dy) as i32,
            },
            size: w.bbox.size,
        }
    }

    /// What a window covers on the canvas, with its title bar and the shadow
    /// around both.
    pub open spec fn covered_box(self, w: Window) -> Rect {
        let inner = Self::surface_box(w);
        let r = DecorationConfig::SHADOW_RADIUS as int;
        let bar = DecorationConfig::TITLE_BAR_HEIGHT as int;
        if self.has_ssd(w) {
            Rect {
                loc: Point {
                    x: (inner.loc.x - r) as i32,
                    y: (inner.loc.y - (bar + r)) as i32,
                },
                size: Size {
                    w: (inner.size.w + 2 * r) as i32,
                    h: (inner.size.h + bar + 2 * r) as i32,
                },
            }
        } else {
            inner
        }
    }

    /// A window's title bar, where it has one, and the shadow around it stay
    /// within the range of `i32`.
    pub open spec fn box_fits(self, w: Window) -> bool {
        let inner = Self::surface_box(w);
        let r = DecorationConfig::SHADOW_RADIUS as int;
        let bar = DecorationConfig::TITLE_BAR_HEIGHT as int;
        self.has_ssd(w) ==> {
            &&& inner.loc.x - r >= i32::MIN
            &&& inner.loc.y - (bar + r) >= i32::MIN
            &&& inner.size.w + 2 * r <= i32::MAX
            &&& inner.size.h + bar + 2 * r <= i32::MAX
        }
    }

    /// A window appears in a frame that shows the given part of the canvas.
    pub open spec fn in_view(self, w: Window, visible: Rect) -> bool {
        w.surface is Some && visible.meets(self.covered_box(w))
    }

    /// The opacity that the rules give a window.
    pub open spec fn opacity_of(w: Window) -> Scalar {
        match w.rule {
            Some(rule) => match rule.opacity {
                Some(opacity) => opacity,
                None => Scalar { bits: ONE_BITS },
            },
            None => Scalar { bits: ONE_BITS },
        }
    }

    /// The decoration mode that holds for a window.
    pub open spec fn mode_of(self, w: Window) -> DecorationMode {
        match w.rule {
            Some(rule) => match rule.decoration {
                Some(mode) => mode,
                None => self.config.decorations.default_mode,
            },
            None => self.config.decorations.default_mode,
        }
    }

    /// What a window is drawn with around its content. Without the clip shader,
    /// when fullscreen, and in the mode `Bare` that is nothing.
    pub open spec fn chrome_of(self, w: Window) -> Chrome {
        if self.has_ssd(w) {
            Chrome::TitleBar
        } else if self.render.corner_clip_shader && !(self.mode_of(w) is Bare)
            && !self.shown_fullscreen(w.id) {
            Chrome::Rounded
        } else {
            Chrome::Plain
        }
    }

    /// How the surfaces of a window are clipped: under a title bar only the
    /// bottom corners are rounded, and only for a radius above zero; otherwise
    /// all corners are, and even without a radius what lies outside of the
    /// content is cut off.
    pub open spec fn clip_of(self, w: Window) -> Option<CornerClip> {
        let r = corner_radius(
            self.config.decorations.corner_radius as int,
            w.geometry.size,
        ) as i64;
        match self.chrome_of(w) {
            Chrome::TitleBar => if self.render.corner_clip_shader
                && self.config.decorations.corner_radius > 0 {
                Some(
                    CornerClip {
                        area: w.geometry,
                        radii: CornerRadii {
                            top_left: 0,
                            top_right: 0,
                            bottom_right: r,
                            bottom_left: r,
                        },
                    },
                )
            } else {
                None
            },
            Chrome::Rounded => Some(
                CornerClip {
                    area: w.geometry,
                    radii: CornerRadii {
                        top_left: r,
                        top_right: r,
                        bottom_right: r,
                        bottom_left: r,
                    },
                },
            ),
            Chrome::Plain => None,
        }
    }

    /// A window casts a shadow.
    pub open spec fn casts_shadow(self, w: Window) -> bool {
        self.render.shadow_shader && !(self.chrome_of(w) is Plain)
    }

    /// What a window's shadow surrounds, relative to where the surface is drawn:
    /// the title bar and the content below it, or the content alone.
    pub open spec fn shadow_body(self, w: Window) -> FrameRect {
        let bar = DecorationConfig::TITLE_BAR_HEIGHT as int;
        if self.has_ssd(w) {
            FrameRect {
                x: 0,
                y: -bar as i64,
                w: w.geometry.size.w as i64,
                h: (w.geometry.size.h + bar) as i64,
            }
        } else {
            FrameRect {
                x: w.geometry.loc.x as i64,
                y: w.geometry.loc.y as i64,
                w: w.geometry.size.w as i64,
                h: w.geometry.size.h as i64,
            }
        }
    }

    /// A window's elements without its shadow, from front to back: the popups,
    /// the title bar, the surfaces.
    pub open spec fn solid_elements(self, w: Window, facts: WindowFacts) -> Seq<FrameElement> {
        let opacity = Self::opacity_of(w);
        let clip = self.clip_of(w);
        numbered(
            facts.popup_parts as int,
            |i: int| FrameElement::Popup { window: w.id, part: i as usize },
        ) + (if self.has_ssd(w) && facts.bar_drawn {
            seq![
                FrameElement::TitleBar {
                    window: w.id,
                    alpha: if opacity.below(Scalar { bits: ONE_BITS }) {
                        Some(opacity)
                    } else {
                        None
                    },
                },
            ]
        } else {
            Seq::empty()
        }) + numbered(
            facts.surface_parts as int,
            |i: int| FrameElement::Content { window: w.id, part: i as usize, clip },
        )
    }

    /// A window's elements, from front to back, the shadow last.
    pub open spec fn window_elements(self, w: Window, facts: WindowFacts) -> Seq<FrameElement> {
        self.solid_elements(w, facts) + (if self.casts_shadow(w) {
            seq![
                FrameElement::Shadow {
                    window: w.id,
                    body: self.shadow_body(w),
                    radius: self.config.decorations.corner_radius,
                    opacity: Self::opacity_of(w),
                },
            ]
        } else {
            Seq::empty()
        })
    }

    /// The rules ask for a blur behind a window.
    pub open spec fn rule_blur(w: Window) -> bool {
        w.rule matches Some(rule) && rule.blur
    }

    /// The blur shaders are all there.
    pub open spec fn blur_enabled(self) -> bool {
        self.render.blur_down_shader && self.render.blur_up_shader && self.render.blur_mask_shader
    }

    /// A blur is drawn behind a window: something asks for it, there is something
    /// to draw it behind, and a client that asked for parts of its window alone
    /// asked for some that lie in it.
    pub open spec fn blurred(self, w: Window, facts: WindowFacts) -> bool {
        &&& self.blur_enabled()
        &&& Self::rule_blur(w) || facts.client_blur()
        &&& self.solid_elements(w, facts).len() > 0
        &&& !(facts.client_blur() && facts.region() is None && !Self::rule_blur(w))
    }

    /// The elements of the widgets, or of the other windows, from the topmost
    /// window down to the one at `n`.
    pub open spec fn group_elements(
        self,
        facts: Seq<WindowFacts>,
        visible: Rect,
        widgets: bool,
        n: int,
    ) -> Seq<FrameElement>
        decreases self.windows.len() - n,
    {
        if n < 0 || n >= self.windows.len() {
            Seq::empty()
        } else {
            let above = self.group_elements(facts, visible, widgets, n + 1);
            let w = self.windows@[n];
            if self.in_view(w, visible) && w.widget() == widgets {
                above + self.window_elements(w, facts[n])
            } else {
                above
            }
        }
    }

    /// The blur behind the window at `n`.
    pub open spec fn blur_of(
        self,
        facts: Seq<WindowFacts>,
        visible: Rect,
        n: int,
    ) -> BlurRequestView {
        let w = self.windows@[n];
        BlurRequestView {
            surface: w.surface->0,
            screen_rect: facts[n].screen_rect,
            elem_start: self.group_elements(facts, visible, w.widget(), n + 1).len() as int,
            elem_count: self.solid_elements(w, facts[n]).len() as int,
            layer: if w.widget() {
                BlurLayer::Widget
            } else {
                BlurLayer::Normal
            },
            region: if facts[n].client_blur() {
                facts[n].region()
            } else {
                None
            },
        }
    }

    /// The blurs behind windows, from the topmost window down to the one at `n`.
    pub open spec fn window_blurs(
        self,
        facts: Seq<WindowFacts>,
        visible: Rect,
        n: int,
    ) -> Seq<BlurRequestView>
        decreases self.windows.len() - n,
    {
        if n < 0 || n >= self.windows.len() {
            Seq::empty()
        } else {
            let above = self.window_blurs(facts, visible, n + 1);
            let w = self.windows@[n];
            if self.in_view(w, visible) && self.blurred(w, facts[n]) {
                above.push(self.blur_of(facts, visible, n))
            } else {
                above
            }
        }
    }

    /// The title bars after those of the windows in view, from the topmost window
    /// down to the one at `n`, were redrawn.
    pub open spec fn bars_redrawn(self, visible: Rect, n: int) -> Map<u64, WindowDecoration>
        decreases self.windows.len() - n,
    {
        if n < 0 || n >= self.windows.len() {
            self.decorations@
        } else {
            let above = self.bars_redrawn(visible, n + 1);
            let w = self.windows@[n];
            if self.in_view(w, visible) && self.has_ssd(w) {
                above.insert(
                    w.surface->0,
                    WindowDecoration {
                        width: w.geometry.size.w,
                        focused: self.keyboard_focus == w.surface,
                    },
                )
            } else {
                above
            }
        }
    }

    /// The surfaces with a cached shadow after the shadows of the windows in
    /// view, from the topmost window down to the one at `n`, were drawn.
    pub open spec fn shadows_drawn(self, visible: Rect, n: int) -> Set<u64>
        decreases self.windows.len() - n,
    {
        if n < 0 || n >= self.windows.len() {
            self.render.shadow_cache@
        } else {
            let above = self.shadows_drawn(visible, n + 1);
            let w = self.windows@[n];
            if self.in_view(w, visible) && self.casts_shadow(w) {
                above.insert(w.surface->0)
            } else {
                above
            }
        }
    }
}

/// Where a popup is drawn, relative to where the surface of its window is: its
/// offset counts from the content of the one to the content of the other.
pub fn popup_position(content: Point, offset: Point, popup_content: Point) -> (at: Point)
    ensures
        at.x == crate::geometry::saturated(
            crate::geometry::saturated(content.x + offset.x) - popup_content.x,
        ),
        at.y == crate::geometry::saturated(
            crate::geometry::saturated(content.y + offset.y) - popup_content.y,
        ),
        i32::MIN <= content.x + offset.x <= i32::MAX && i32::MIN <= content.x + offset.x
            - popup_content.x <= i32::MAX ==> at.x + popup_content.x == content.x + offset.x,
        i32::MIN <= content.y + offset.y <= i32::MAX && i32::MIN <= content.y + offset.y
            - popup_content.y <= i32::MAX ==> at.y + popup_content.y == content.y + offset.y,
{
    Point {
        x: saturating_difference(saturating_sum(content.x, offset.x), popup_content.x),
        y: saturating_difference(saturating_sum(content.y, offset.y), popup_content.y),
    }
}

/// The elements of a frame that windows contribute.
#[derive(Debug)]
pub struct WindowPlan {
    pub normal: Vec<FrameElement>,
    pub widgets: Vec<FrameElement>,
    pub blur: Vec<BlurRequest>,
}

/// Adds numbered popup elements to a list.
fn push_popups(target: &mut Vec<FrameElement>, window: u64, count: usize)
    ensures
        final(target)@ == old(target)@ + numbered(
            count as int,
            |i: int| FrameElement::Popup { window, part: i as usize },
        ),
{
    let ghost make = |i: int| FrameElement::Popup { window, part: i as usize };
    let mut i: usize = 0;
    assert(target@ =~= old(target)@ + numbered(0, make));
    while i < count
        invariant
            i <= count,
            make == (|i: int| FrameElement::Popup { window, part: i as usize }),
            target@ == old(target)@ + numbered(i as int, make),
        decreases count - i,
    {
        target.push(FrameElement::Popup { window, part: i });
        assert(target@ =~= old(target)@ + numbered(i + 1, make));
        i += 1;
    }
}

/// Adds numbered surface elements to a list.
fn push_contents(
    target: &mut Vec<FrameElement>,
    window: u64,
    count: usize,
    clip: Option<CornerClip>,
)
    ensures
        final(target)@ == old(target)@ + numbered(
            count as int,
            |i: int| FrameElement::Content { window, part: i as usize, clip },
        ),
{
    let ghost make = |i: int| FrameElement::Content { window, part: i as usize, clip };
    let mut i: usize = 0;
    assert(target@ =~= old(target)@ + numbered(0, make));
    while i < count
        invariant
            i <= count,
            make == (|i: int| FrameElement::Content { window, part: i as usize, clip }),
            target@ == old(target)@ + numbered(i as int, make),
        decreases count - i,
    {
        target.push(FrameElement::Content { window, part: i, clip });
        assert(target@ =~= old(target)@ + numbered(i + 1, make));
        i += 1;
    }
}

impl DriftWm {
    fn shows_title_bar(&self, w: &Window) -> (b: bool)
        ensures
            b == self.has_ssd(*w),
    {
        !self.is_shown_fullscreen(w.id) && self.is_decorated(w)
    }

    pub(crate) fn is_blur_enabled(&self) -> (b: bool)
        ensures
            b == self.blur_enabled(),
    {
        self.render.blur_down_shader && self.render.blur_up_shader && self.render.blur_mask_shader
    }

    /// Whether a window appears in a frame that shows the given part of the
    /// canvas.
    pub fn is_in_view(&self, w: &Window, visible: Rect) -> (b: bool)
        requires
            self.box_fits(*w),
        ensures
            b == self.in_view(*w, visible),
    {
        if w.surface.is_none() {
            return false;
        }
        let dx: i32 = saturating_difference(w.location.x, w.geometry.loc.x);
        let dy: i32 = saturating_difference(w.location.y, w.geometry.loc.y);
        let mut bbox: Rect = Rect {
            loc: Point {
                x: saturating_sum(w.bbox.loc.x, dx),
                y: saturating_sum(w.bbox.loc.y, dy),
            },
            size: w.bbox.size,
        };
        if self.shows_title_bar(w) {
            let r: i32 = DecorationConfig::SHADOW_RADIUS;
            let bar: i32 = DecorationConfig::TITLE_BAR_HEIGHT;
            bbox = Rect {
                loc: Point { x: bbox.loc.x - r, y: bbox.loc.y - (bar + r) },
                size: Size { w: bbox.size.w + 2 * r, h: bbox.size.h + (bar + 2 * r) },
            };
        }
        visible.overlaps(&bbox)
    }

    /// What a window is drawn with around its content.
    pub fn window_chrome(&self, w: &Window) -> (chrome: Chrome)
        ensures
            chrome == self.chrome_of(*w),
    {
        if self.shows_title_bar(w) {
            return Chrome::TitleBar;
        }
        let rule_mode: Option<&DecorationMode> = match &w.rule {
            Some(rule) => match &rule.decoration {
                Some(mode) => Some(mode),
                None => None,
            },
            None => None,
        };
        let mode: &DecorationMode = effective_decoration_mode(
            rule_mode,
            &self.config.decorations.default_mode,
        );
        if self.render.corner_clip_shader && *mode != DecorationMode::Bare
            && !self.is_shown_fullscreen(w.id) {
            Chrome::Rounded
        } else {
            Chrome::Plain
        }
    }

    fn opacity_for(w: &Window) -> (opacity: Scalar)
        ensures
            opacity == Self::opacity_of(*w),
    {
        match &w.rule {
            Some(rule) => match rule.opacity {
                Some(opacity) => opacity,
                None => Scalar::one(),
            },
            None => Scalar::one(),
        }
    }

    /// Adds the elements of a window to a list, and tells whether the last one is
    /// its shadow.
    fn push_window(&self, target: &mut Vec<FrameElement>, w: &Window, facts: &WindowFacts) -> (
    shadow: bool)
        ensures
            final(target)@ == old(target)@ + self.window_elements(*w, *facts),
            shadow == self.casts_shadow(*w),
    {
        let chrome: Chrome = self.window_chrome(w);
        let opacity: Scalar = Self::opacity_for(w);
        let radius: i32 = self.config.decorations.corner_radius;
        let r: i64 = clamp_corner(radius, w.geometry.size);
        let clip: Option<CornerClip> = match chrome {
            Chrome::TitleBar => if self.render.corner_clip_shader && radius > 0 {
                Some(
                    CornerClip {
                        area: w.geometry,
                        radii: CornerRadii {
                            top_left: 0,
                            top_right: 0,
                            bottom_right: r,
                            bottom_left: r,
                        },
                    },
                )
            } else {
                None
            },
            Chrome::Rounded => Some(
                CornerClip {
                    area: w.geometry,
                    radii: CornerRadii {
                        top_left: r,
                        top_right: r,
                        bottom_right: r,
                        bottom_left: r,
                    },
                },
            ),
            Chrome::Plain => None,
        };
        let ghost start = target@;
        push_popups(target, w.id, facts.popup_parts);
        if chrome == Chrome::TitleBar && facts.bar_drawn {
            let alpha: Option<Scalar> = if opacity.less_than(Scalar::one()) {
                Some(opacity)
            } else {
                None
            };
            target.push(FrameElement::TitleBar { window: w.id, alpha });
        }
        push_contents(target, w.id, facts.surface_parts, clip);
        assert(target@ =~= start + self.solid_elements(*w, *facts));
        if self.render.shadow_shader && chrome != Chrome::Plain {
            let bar: i64 = DecorationConfig::TITLE_BAR_HEIGHT as i64;
            let body: FrameRect = if chrome == Chrome::TitleBar {
                FrameRect {
                    x: 0,
                    y: -bar,
                    w: w.geometry.size.w as i64,
                    h: w.geometry.size.h as i64 + bar,
                }
            } else {
                FrameRect {
                    x: w.geometry.loc.x as i64,
                    y: w.geometry.loc.y as i64,
                    w: w.geometry.size.w as i64,
                    h: w.geometry.size.h as i64,
                }
            };
            target.push(FrameElement::Shadow { window: w.id, body, radius, opacity });
            assert(target@ =~= start + self.window_elements(*w, *facts));
            true
        } else {
            assert(target@ =~= start + self.window_elements(*w, *facts));
            false
        }
    }

    /// The blur behind a window whose `elem_count` elements, without the shadow,
    /// start at `elem_start`.
    fn blur_behind(
        &self,
        w: &Window,
        facts: &WindowFacts,
        elem_start: usize,
        elem_count: usize,
    ) -> (r: Option<BlurRequest>)
        requires
            w.surface is Some,
            elem_count == self.solid_elements(*w, *facts).len(),
        ensures
            match r {
                Some(request) => self.blurred(*w, *facts) && request@ == (BlurRequestView {
                    surface: w.surface->0,
                    screen_rect: facts.screen_rect,
                    elem_start: elem_start as int,
                    elem_count: elem_count as int,
                    layer: if w.widget() {
                        BlurLayer::Widget
                    } else {
                        BlurLayer::Normal
                    },
                    region: if facts.client_blur() {
                        facts.region()
                    } else {
                        None
                    },
                }),
                None => !self.blurred(*w, *facts),
            },
    {
        let rule_blur: bool = match &w.rule {
            Some(rule) => rule.blur,
            None => false,
        };
        let client_blur: bool = match &facts.blur_corners {
            Some(corners) => corners.len() > 0,
            None => false,
        };
        if !self.is_blur_enabled() || !(rule_blur || client_blur) || elem_count == 0 {
            return None;
        }
        let region: Option<Vec<Rect>> = if client_blur {
            match &facts.blur_corners {
                Some(corners) => {
                    let parts: Vec<Rect> = clip_region(corners, facts.screen_rect.size);
                    if parts.len() > 0 {
                        Some(parts)
                    } else {
                        None
                    }
                },
                None => None,
            }
        } else {
            None
        };
        if client_blur && region.is_none() && !rule_blur {
            return None;
        }
        Some(
            BlurRequest {
                surface: w.surface.unwrap(),
                screen_rect: facts.screen_rect,
                elem_start,
                elem_count,
                layer: if w.is_widget() {
                    BlurLayer::Widget
                } else {
                    BlurLayer::Normal
                },
                region,
            },
        )
    }

    /// The elements of a frame that windows contribute: those of widgets and
    /// those of the other windows apart, so that the layer surfaces on the canvas
    /// fit in between.
    pub fn plan_windows(&self, facts: &Vec<WindowFacts>, visible: Rect) -> (plan: WindowPlan)
        requires
            facts.len() == self.windows.len(),
            forall|i: int| 0 <= i < self.windows.len() ==> self.box_fits(#[trigger] self.windows@[i]),
        ensures
            plan.normal@ == self.group_elements(facts@, visible, false, 0),
            plan.widgets@ == self.group_elements(facts@, visible, true, 0),
            blur_views(plan.blur@) == self.window_blurs(facts@, visible, 0),
    {
        let mut normal: Vec<FrameElement> = Vec::new();
        let mut widgets: Vec<FrameElement> = Vec::new();
        let mut blur: Vec<BlurRequest> = Vec::new();
        let mut n: usize = self.windows.len();
        assert(blur_views(blur@) =~= Seq::<BlurRequestView>::empty());
        while n > 0
            invariant
                n <= self.windows.len(),
                facts.len() == self.windows.len(),
                forall|i: int|
                    0 <= i < self.windows.len() ==> self.box_fits(#[trigger] self.windows@[i]),
                normal@ == self.group_elements(facts@, visible, false, n as int),
                widgets@ == self.group_elements(facts@, visible, true, n as int),
                blur_views(blur@) == self.window_blurs(facts@, visible, n as int),
            decreases n,
        {
            n -= 1;
            let w: &Window = &self.windows[n];
            assert(self.box_fits(self.windows@[n as int]));
            if self.is_in_view(w, visible) {
                let f: &WindowFacts = &facts[n];
                let widget: bool = w.is_widget();
                let request: Option<BlurRequest>;
                if widget {
                    let elem_start: usize = widgets.len();
                    let shadow: bool = self.push_window(&mut widgets, w, f);
                    let elem_count: usize = if shadow {
                        widgets.len() - elem_start - 1
                    } else {
                        widgets.len() - elem_start
                    };
                    request = self.blur_behind(w, f, elem_start, elem_count);
                } else {
                    let elem_start: usize = normal.len();
                    let shadow: bool = self.push_window(&mut normal, w, f);
                    let elem_count: usize = if shadow {
                        normal.len() - elem_start - 1
                    } else {
                        normal.len() - elem_start
                    };
                    request = self.blur_behind(w, f, elem_start, elem_count);
                }
                let ghost before = blur@;
                if let Some(request) = request {
                    blur.push(request);
                    assert(blur_views(blur@) =~= blur_views(before).push(request@));
                }
            }
        }
        WindowPlan { normal, widgets, blur }
    }

    /// Redraws the title bars of the windows in view.
    pub fn redraw_bars(&mut self, visible: Rect)
        requires
            forall|i: int|
                0 <= i < old(self).windows.len() ==> old(self).box_fits(
                    #[trigger] old(self).windows@[i],
                ),
        ensures
            old(self).wf() ==> final(self).wf(),
            final(self).decorations@ == old(self).bars_redrawn(visible, 0),
            final(self).decorations@.dom() == old(self).decorations@.dom(),
            *final(self) == (DriftWm { decorations: final(self).decorations, ..*old(self) }),
    {
        let mut n: usize = self.windows.len();
        while n > 0
            invariant
                n <= self.windows.len(),
                forall|i: int|
                    0 <= i < old(self).windows.len() ==> old(self).box_fits(
                        #[trigger] old(self).windows@[i],
                    ),
                self.decorations@ == old(self).bars_redrawn(visible, n as int),
                self.decorations@.dom() == old(self).decorations@.dom(),
                *self == (DriftWm { decorations: self.decorations, ..*old(self) }),
            decreases n,
        {
            n -= 1;
            let w: &Window = &self.windows[n];
            assert(old(self).box_fits(old(self).windows@[n as int]));
            proof {
                let now = *self;
                let was = *old(self);
                assert(now.decorated(*w) == was.decorated(*w)) by {
                    if let Some(surface) = w.surface {
                        assert(now.decorations@.dom().contains(surface)
                            == was.decorations@.dom().contains(surface));
                    }
                }
                assert(now.shown_fullscreen(w.id) == was.shown_fullscreen(w.id));
                assert(now.has_ssd(*w) == was.has_ssd(*w));
                assert(now.in_view(*w, visible) == was.in_view(*w, visible));
            }
            if self.is_in_view(w, visible) && self.shows_title_bar(w) {
                let surface: u64 = w.surface.unwrap();
                let focused: bool = match self.keyboard_focus {
                    Some(focus) => focus == surface,
                    None => false,
                };
                let width: i32 = w.geometry.size.w;
                self.decorations.insert(surface, WindowDecoration { width, focused });
                assert(self.decorations@.dom() =~= old(self).decorations@.dom());
            }
        }
    }

    /// Remembers the shadows of the windows in view.
    pub fn keep_shadows(&mut self, visible: Rect)
        requires
            forall|i: int|
                0 <= i < old(self).windows.len() ==> old(self).box_fits(
                    #[trigger] old(self).windows@[i],
                ),
        ensures
            old(self).wf() ==> final(self).wf(),
            final(self).render.shadow_cache@ == old(self).shadows_drawn(visible, 0),
            *final(self) == (DriftWm {
                render: crate::state::wm::RenderCache {
                    shadow_cache: final(self).render.shadow_cache,
                    ..old(self).render
                },
                ..*old(self)
            }),
    {
        let mut n: usize = self.windows.len();
        while n > 0
            invariant
                n <= self.windows.len(),
                forall|i: int|
                    0 <= i < old(self).windows.len() ==> old(self).box_fits(
                        #[trigger] old(self).windows@[i],
                    ),
                self.render.shadow_cache@ == old(self).shadows_drawn(visible, n as int),
                *self == (DriftWm {
                    render: crate::state::wm::RenderCache {
                        shadow_cache: self.render.shadow_cache,
                        ..old(self).render
                    },
                    ..*old(self)
                }),
            decreases n,
        {
            n -= 1;
            let w: &Window = &self.windows[n];
            assert(old(self).box_fits(old(self).windows@[n as int]));
            proof {
                let now = *self;
                let was = *old(self);
                assert(now.shown_fullscreen(w.id) == was.shown_fullscreen(w.id));
                assert(now.has_ssd(*w) == was.has_ssd(*w));
                assert(now.in_view(*w, visible) == was.in_view(*w, visible));
                assert(now.chrome_of(*w) == was.chrome_of(*w));
            }
            if self.is_in_view(w, visible) && self.render.shadow_shader && self.window_chrome(w)
                != Chrome::Plain {
                let surface: u64 = w.surface.unwrap();
                self.render.shadow_cache.insert(surface);
            }
        }
    }
}

/// A window is drawn from front to back as its popups, its title bar, its surfaces
/// and its shadow. It has a title bar when its surface is decorated and it is not
/// fullscreen. It casts a shadow, where the shader for it is there, under a title
/// bar or, with the clip shader, in any mode but `Bare`; a fullscreen window casts
/// none. The mode is that of the window's rule, and the default one only where the
/// rule sets none.
pub proof fn lemma_window_is_drawn_in_order(wm: DriftWm, w: Window, facts: WindowFacts)
    ensures
        ({
            let mode = match w.rule {
                Some(rule) => match rule.decoration {
                    Some(mode) => mode,
                    None => wm.config.decorations.default_mode,
                },
                None => wm.config.decorations.default_mode,
            };
            let full = exists|i: int|
                0 <= i < wm.fullscreen.len() && (#[trigger] wm.fullscreen@[i]).state.window == w.id;
            let bar = !full && w.surface is Some && wm.decorations@.contains_key(w.surface->0);
            let shadow = wm.render.shadow_shader && (bar || (wm.render.corner_clip_shader && !full
                && mode != DecorationMode::Bare));
            let elements = wm.window_elements(w, facts);
            let popups = facts.popup_parts as int;
            let bars = if bar && facts.bar_drawn { 1int } else { 0 };
            let contents = facts.surface_parts as int;
            &&& elements.len() == popups + bars + contents + (if shadow { 1int } else { 0 })
            &&& forall|k: int|
                0 <= k < popups ==> #[trigger] elements[k] == (FrameElement::Popup {
                    window: w.id,
                    part: k as usize,
                })
            &&& bars == 1 ==> elements[popups] is TitleBar && elements[popups]->TitleBar_window
                == w.id
            &&& forall|k: int|
                popups + bars <= k < popups + bars + contents ==> {
                    &&& #[trigger] elements[k] is Content
                    &&& elements[k]->Content_window == w.id
                    &&& elements[k]->Content_part == k - popups - bars
                }
            &&& shadow ==> elements.last() is Shadow && elements.last()->Shadow_window == w.id
        }),
{
    let full = exists|i: int|
        0 <= i < wm.fullscreen.len() && (#[trigger] wm.fullscreen@[i]).state.window == w.id;
    assert(wm.shown_fullscreen(w.id) == full);
    let elements = wm.window_elements(w, facts);
    let solid = wm.solid_elements(w, facts);
    assert forall|k: int| 0 <= k < solid.len() implies #[trigger] elements[k] == solid[k] by {}
}

/// A bare window is drawn bare: where the mode that holds for a window is `Bare`
/// (that of its rule, or the default one where the rule sets none) and it has no
/// title bar of ours, it has neither a title bar nor a shadow and nothing of it is
/// clipped. The same holds of a fullscreen window in any mode.
pub proof fn lemma_bare_windows_stay_bare(wm: DriftWm, w: Window, facts: WindowFacts, k: int)
    requires
        0 <= k < wm.window_elements(w, facts).len(),
    ensures
        ({
            let mode = match w.rule {
                Some(rule) => match rule.decoration {
                    Some(mode) => mode,
                    None => wm.config.decorations.default_mode,
                },
                None => wm.config.decorations.default_mode,
            };
            let full = exists|i: int|
                0 <= i < wm.fullscreen.len() && (#[trigger] wm.fullscreen@[i]).state.window == w.id;
            let bar = !full && w.surface is Some && wm.decorations@.contains_key(w.surface->0);
            let element = wm.window_elements(w, facts)[k];
            full || (mode is Bare && !bar) ==> {
                &&& !(element is Shadow)
                &&& !(element is TitleBar)
                &&& element matches FrameElement::Content { clip, .. } ==> clip is None
            }
        }),
{
    lemma_window_is_drawn_in_order(wm, w, facts);
    let full = exists|i: int|
        0 <= i < wm.fullscreen.len() && (#[trigger] wm.fullscreen@[i]).state.window == w.id;
    assert(wm.shown_fullscreen(w.id) == full);
    let solid = wm.solid_elements(w, facts);
    if k < solid.len() {
        assert(wm.window_elements(w, facts)[k] == solid[k]);
    }
}

/// With the clip shader, the surfaces of a window in any mode but `Bare` are cut
/// off at its content, unless it is fullscreen. All four corners are rounded off
/// alike, by twice the radius in half pixels but by no more than a side is long.
pub proof fn lemma_other_windows_are_clipped(wm: DriftWm, w: Window, facts: WindowFacts, k: int)
    requires
        0 <= k < wm.window_elements(w, facts).len(),
        wm.render.corner_clip_shader,
    ensures
        ({
            let mode = match w.rule {
                Some(rule) => match rule.decoration {
                    Some(mode) => mode,
                    None => wm.config.decorations.default_mode,
                },
                None => wm.config.decorations.default_mode,
            };
            let full = exists|i: int|
                0 <= i < wm.fullscreen.len() && (#[trigger] wm.fullscreen@[i]).state.window == w.id;
            let bar = !full && w.surface is Some && wm.decorations@.contains_key(w.surface->0);
            let element = wm.window_elements(w, facts)[k];
            !full && !bar && !(mode is Bare) ==> (element matches FrameElement::Content {
                clip,
                ..
            } ==> {
                &&& clip is Some
                &&& clip->0.area == w.geometry
                &&& clip->0.radii.top_left == clip->0.radii.top_right
                &&& clip->0.radii.top_right == clip->0.radii.bottom_right
                &&& clip->0.radii.bottom_right == clip->0.radii.bottom_left
                &&& w.geometry.size.w >= 0 && w.geometry.size.h >= 0
                    && wm.config.decorations.corner_radius >= 0 ==> {
                    let r = clip->0.radii.top_left;
                    &&& 0 <= r <= w.geometry.size.w
                    &&& r <= w.geometry.size.h
                    &&& r <= 2 * wm.config.decorations.corner_radius
                    &&& r == 2 * wm.config.decorations.corner_radius || r == w.geometry.size.w || r
                        == w.geometry.size.h
                }
            })
        }),
{
    let full = exists|i: int|
        0 <= i < wm.fullscreen.len() && (#[trigger] wm.fullscreen@[i]).state.window == w.id;
    assert(wm.shown_fullscreen(w.id) == full);
    let solid = wm.solid_elements(w, facts);
    if k < solid.len() {
        assert(wm.window_elements(w, facts)[k] == solid[k]);
    }
}

/// Under a title bar only the lower corners of a window are rounded off, and they
/// are only where there is a clip shader and a radius to round them with; without
/// either nothing is clipped.
pub proof fn lemma_title_bars_keep_the_upper_corners(
    wm: DriftWm,
    w: Window,
    facts: WindowFacts,
    k: int,
)
    requires
        0 <= k < wm.window_elements(w, facts).len(),
    ensures
        ({
            let mode = match w.rule {
                Some(rule) => match rule.decoration {
                    Some(mode) => mode,
                    None => wm.config.decorations.default_mode,
                },
                None => wm.config.decorations.default_mode,
            };
            let full = exists|i: int|
                0 <= i < wm.fullscreen.len() && (#[trigger] wm.fullscreen@[i]).state.window == w.id;
            let bar = !full && w.surface is Some && wm.decorations@.contains_key(w.surface->0);
            let element = wm.window_elements(w, facts)[k];
            let radius = wm.config.decorations.corner_radius;
            bar ==> (element matches FrameElement::Content { clip, .. } ==> {
                &&& clip is Some <==> wm.render.corner_clip_shader && radius > 0
                &&& clip is Some ==> {
                    &&& clip->0.area == w.geometry
                    &&& clip->0.radii.top_left == 0
                    &&& clip->0.radii.top_right == 0
                    &&& clip->0.radii.bottom_left == clip->0.radii.bottom_right
                    &&& w.geometry.size.w >= 0 && w.geometry.size.h >= 0 ==> {
                        let r = clip->0.radii.bottom_left;
                        &&& 0 <= r <= w.geometry.size.w
                        &&& r <= w.geometry.size.h
                        &&& r <= 2 * radius
                        &&& r == 2 * radius || r == w.geometry.size.w || r == w.geometry.size.h
                    }
                }
            })
        }),
{
    let full = exists|i: int|
        0 <= i < wm.fullscreen.len() && (#[trigger] wm.fullscreen@[i]).state.window == w.id;
    assert(wm.shown_fullscreen(w.id) == full);
    let solid = wm.solid_elements(w, facts);
    if k < solid.len() {
        assert(wm.window_elements(w, facts)[k] == solid[k]);
    }
}

/// A shadow surrounds what is drawn: the content, and above it the 25 pixels of the
/// title bar where there is one. It has the corner radius of the configuration and
/// the opacity of the window's rule, one where the rule sets none.
pub proof fn lemma_shadow_surrounds_the_frame(wm: DriftWm, w: Window, facts: WindowFacts, k: int)
    requires
        0 <= k < wm.window_elements(w, facts).len(),
        wm.window_elements(w, facts)[k] is Shadow,
    ensures
        ({
            let mode = match w.rule {
                Some(rule) => match rule.decoration {
                    Some(mode) => mode,
                    None => wm.config.decorations.default_mode,
                },
                None => wm.config.decorations.default_mode,
            };
            let full = exists|i: int|
                0 <= i < wm.fullscreen.len() && (#[trigger] wm.fullscreen@[i]).state.window == w.id;
            let bar = !full && w.surface is Some && wm.decorations@.contains_key(w.surface->0);
            let element = wm.window_elements(w, facts)[k];
            let body = element->Shadow_body;
            &&& body.w == w.geometry.size.w
            &&& bar ==> body.x == 0 && body.y == -25 && body.y + body.h == w.geometry.size.h
            &&& !bar ==> body.x == w.geometry.loc.x && body.y == w.geometry.loc.y && body.h
                == w.geometry.size.h
            &&& element->Shadow_radius == wm.config.decorations.corner_radius
            &&& (w.rule matches Some(rule) && rule.opacity is Some) ==> element->Shadow_opacity
                == w.rule->0.opacity->0
            &&& !(w.rule matches Some(rule) && rule.opacity is Some)
                ==> element->Shadow_opacity.bits == ONE_BITS
        }),
{
    let full = exists|i: int|
        0 <= i < wm.fullscreen.len() && (#[trigger] wm.fullscreen@[i]).state.window == w.id;
    assert(wm.shown_fullscreen(w.id) == full);
    let solid = wm.solid_elements(w, facts);
    if k < solid.len() {
        assert(wm.window_elements(w, facts)[k] == solid[k]);
    }
}

/// A title bar is translucent exactly when the window's rule sets an opacity below
/// one, and then it has that opacity.
pub proof fn lemma_title_bar_opacity(wm: DriftWm, w: Window, facts: WindowFacts, k: int)
    requires
        0 <= k < wm.window_elements(w, facts).len(),
    ensures
        wm.window_elements(w, facts)[k] matches FrameElement::TitleBar { alpha, .. } ==> {
            let set = w.rule matches Some(rule) && rule.opacity is Some
                && rule.opacity->0.below(Scalar { bits: ONE_BITS });
            &&& alpha is Some <==> set
            &&& set ==> alpha->0 == w.rule->0.opacity->0
        },
{
    let solid = wm.solid_elements(w, facts);
    if k < solid.len() {
        assert(wm.window_elements(w, facts)[k] == solid[k]);
    }
}

/// A corner is rounded off by its radius, limited to half of the shorter side: in
/// half pixels it is at most twice the radius and at most each side, and one of
/// these where none is negative.
pub proof fn lemma_corner_is_limited_by_the_sides(radius: int, size: Size)
    ensures
        corner_radius(radius, size) >= 0,
        radius <= 0 || size.w <= 0 || size.h <= 0 ==> corner_radius(radius, size) == 0,
        radius > 0 && size.w > 0 && size.h > 0 ==> {
            let r = corner_radius(radius, size);
            &&& r <= 2 * radius && r <= size.w && r <= size.h
            &&& r == 2 * radius || r == size.w || r == size.h
        },
{
}

/// A window appears in a frame exactly when it has a surface and the box around it
/// reaches into the part of the canvas that is shown. The box is that of its
/// surfaces, moved with the content to where the window stands; around a window
/// with a title bar it is 14 pixels wider on each side, and at the top 25 more.
pub proof fn lemma_in_view_when_the_box_shows(wm: DriftWm, w: Window, visible: Rect)
    requires
        i32::MIN <= w.location.x - w.geometry.loc.x <= i32::MAX,
        i32::MIN <= w.location.y - w.geometry.loc.y <= i32::MAX,
        i32::MIN + 14 <= w.bbox.loc.x + (w.location.x - w.geometry.loc.x) <= i32::MAX,
        i32::MIN + 39 <= w.bbox.loc.y + (w.location.y - w.geometry.loc.y) <= i32::MAX,
        0 <= w.bbox.size.w,
        0 <= w.bbox.size.h,
        w.bbox.size.w + 28 <= i32::MAX,
        w.bbox.size.h + 53 <= i32::MAX,
        w.bbox.loc.x + (w.location.x - w.geometry.loc.x) + w.bbox.size.w + 14 <= i32::MAX,
        w.bbox.loc.y + (w.location.y - w.geometry.loc.y) + w.bbox.size.h + 14 <= i32::MAX,
        0 <= visible.size.w,
        0 <= visible.size.h,
        visible.loc.x + visible.size.w <= i32::MAX,
        visible.loc.y + visible.size.h <= i32::MAX,
    ensures
        ({
            let full = exists|i: int|
                0 <= i < wm.fullscreen.len() && (#[trigger] wm.fullscreen@[i]).state.window == w.id;
            let bar = !full && w.surface is Some && wm.decorations@.contains_key(w.surface->0);
            let side = if bar { 14int } else { 0 };
            let above = if bar { 39int } else { 0 };
            let left = w.bbox.loc.x + (w.location.x - w.geometry.loc.x);
            let top = w.bbox.loc.y + (w.location.y - w.geometry.loc.y);
            wm.in_view(w, visible) <==> {
                &&& w.surface is Some
                &&& visible.loc.x < left + w.bbox.size.w + side
                &&& left - side < visible.loc.x + visible.size.w
                &&& visible.loc.y < top + w.bbox.size.h + side
                &&& top - above < visible.loc.y + visible.size.h
            }
        }),
{
    let full = exists|i: int|
        0 <= i < wm.fullscreen.len() && (#[trigger] wm.fullscreen@[i]).state.window == w.id;
    assert(wm.shown_fullscreen(w.id) == full);
}

/// What a group shows is what its windows show: every element of the group belongs
/// to a window of the group in view, and every element of such a window is in the
/// group.
pub proof fn lemma_group_shows_its_windows(
    wm: DriftWm,
    facts: Seq<WindowFacts>,
    visible: Rect,
    widgets: bool,
    n: int,
    k: int,
)
    requires
        0 <= n <= wm.windows.len(),
        0 <= k < wm.group_elements(facts, visible, widgets, n).len(),
    ensures
        exists|m: int, j: int|
            {
                &&& n <= m < wm.windows.len()
                &&& wm.in_view(wm.windows@[m], visible)
                &&& (wm.windows@[m].surface is Some && wm.windows@[m].rule is Some
                    && wm.windows@[m].rule->0.widget) == widgets
                &&& 0 <= j < wm.window_elements(wm.windows@[m], facts[m]).len()
                &&& wm.group_elements(facts, visible, widgets, n)[k]
                    == #[trigger] wm.window_elements(wm.windows@[m], facts[m])[j]
            },
    decreases wm.windows.len() - n,
{
    if n < wm.windows.len() {
        let above = wm.group_elements(facts, visible, widgets, n + 1);
        let own = wm.window_elements(wm.windows@[n], facts[n]);
        if k < above.len() {
            lemma_group_shows_its_windows(wm, facts, visible, widgets, n + 1, k);
        } else {
            assert(wm.group_elements(facts, visible, widgets, n)[k] == own[k - above.len()]);
        }
    }
}

/// Every window in view is drawn whole: its elements stand together in the group
/// of the widgets if it is one and in that of the other windows if not, and those
/// of the windows above it come before them.
pub proof fn lemma_window_in_view_is_drawn_whole(
    wm: DriftWm,
    facts: Seq<WindowFacts>,
    visible: Rect,
    widgets: bool,
    n: int,
    j: int,
)
    requires
        0 <= n < wm.windows.len(),
        wm.in_view(wm.windows@[n], visible),
        (wm.windows@[n].surface is Some && wm.windows@[n].rule is Some
            && wm.windows@[n].rule->0.widget) == widgets,
        0 <= j < wm.window_elements(wm.windows@[n], facts[n]).len(),
    ensures
        ({
            let group = wm.group_elements(facts, visible, widgets, 0);
            let start = wm.group_elements(facts, visible, widgets, n + 1).len();
            &&& start + j < group.len()
            &&& group[start + j] == wm.window_elements(wm.windows@[n], facts[n])[j]
        }),
{
    let upto = wm.group_elements(facts, visible, widgets, n);
    let start = wm.group_elements(facts, visible, widgets, n + 1).len();
    assert(upto[start + j] == wm.window_elements(wm.windows@[n], facts[n])[j]);
    lemma_upper_windows_come_first(wm, facts, visible, widgets, n);
}

/// The elements of the windows from the one at `n` up come first in their group.
proof fn lemma_upper_windows_come_first(
    wm: DriftWm,
    facts: Seq<WindowFacts>,
    visible: Rect,
    widgets: bool,
    n: int,
)
    requires
        0 <= n <= wm.windows.len(),
    ensures
        wm.group_elements(facts, visible, widgets, n).is_prefix_of(
            wm.group_elements(facts, visible, widgets, 0),
        ),
    decreases n,
{
    if n > 0 {
        lemma_upper_windows_come_first(wm, facts, visible, widgets, n - 1);
        let more = wm.group_elements(facts, visible, widgets, n - 1);
        let less = wm.group_elements(facts, visible, widgets, n);
        let all = wm.group_elements(facts, visible, widgets, 0);
        assert(less.is_prefix_of(more));
        assert(less =~= all.subrange(0, less.len() as int));
    }
}

/// A blur is drawn behind a window exactly when the blur shaders are all there,
/// something of the window is drawn besides its shadow, and the window's rule asks
/// for it or the client asks for it in some part of the window.
pub proof fn lemma_blurred_when_asked_for(wm: DriftWm, w: Window, facts: WindowFacts)
    ensures
        ({
            let full = exists|i: int|
                0 <= i < wm.fullscreen.len() && (#[trigger] wm.fullscreen@[i]).state.window == w.id;
            let bar = !full && w.surface is Some && wm.decorations@.contains_key(w.surface->0);
            let by_rule = w.rule is Some && w.rule->0.blur;
            let by_client = facts.blur_corners is Some && clipped_region(
                facts.blur_corners->0@,
                facts.screen_rect.size,
            ).len() > 0;
            wm.blurred(w, facts) <==> {
                &&& wm.render.blur_down_shader
                &&& wm.render.blur_up_shader
                &&& wm.render.blur_mask_shader
                &&& facts.popup_parts > 0 || facts.surface_parts > 0 || (bar && facts.bar_drawn)
                &&& by_rule || by_client
            }
        }),
{
    let full = exists|i: int|
        0 <= i < wm.fullscreen.len() && (#[trigger] wm.fullscreen@[i]).state.window == w.id;
    assert(wm.shown_fullscreen(w.id) == full);
    if facts.blur_corners is Some && facts.blur_corners->0@.len() == 0 {
        assert(clipped_region(facts.blur_corners->0@, facts.screen_rect.size).len() == 0);
    }
}

/// Clipping a blur region keeps its pixels in the window: a pixel lies in the
/// clipped region exactly when it lies in the window and between two of the given
/// opposite corners.
pub proof fn lemma_clipped_region_keeps_the_pixels(
    corners: Seq<(Point, Point)>,
    size: Size,
    x: int,
    y: int,
)
    requires
        size.w < i32::MAX,
        size.h < i32::MAX,
        forall|k: int|
            0 <= k < corners.len() ==> {
                &&& (#[trigger] corners[k]).0.x <= corners[k].1.x
                &&& corners[k].0.y <= corners[k].1.y
                &&& corners[k].1.x - corners[k].0.x <= i32::MAX
                &&& corners[k].1.y - corners[k].0.y <= i32::MAX
            },
    ensures
        ({
            let parts = clipped_region(corners, size);
            (exists|k: int|
                {
                    &&& 0 <= k < parts.len()
                    &&& (#[trigger] parts[k]).loc.x <= x < parts[k].loc.x + parts[k].size.w
                    &&& parts[k].loc.y <= y < parts[k].loc.y + parts[k].size.h
                }) <==> 0 <= x < size.w && 0 <= y < size.h && (exists|k: int|
                {
                    &&& 0 <= k < corners.len()
                    &&& (#[trigger] corners[k]).0.x <= x < corners[k].1.x
                    &&& corners[k].0.y <= y < corners[k].1.y
                })
        }),
{
    lemma_region_step(corners, size, x, y);
}

/// Some rectangle of a list covers a pixel.
spec fn in_some_part(parts: Seq<Rect>, x: int, y: int) -> bool {
    exists|k: int|
        {
            &&& 0 <= k < parts.len()
            &&& (#[trigger] parts[k]).loc.x <= x < parts[k].loc.x + parts[k].size.w
            &&& parts[k].loc.y <= y < parts[k].loc.y + parts[k].size.h
        }
}

/// A pixel lies between two opposite corners of a list.
spec fn between_some_corners(corners: Seq<(Point, Point)>, x: int, y: int) -> bool {
    exists|k: int|
        {
            &&& 0 <= k < corners.len()
            &&& (#[trigger] corners[k]).0.x <= x < corners[k].1.x
            &&& corners[k].0.y <= y < corners[k].1.y
        }
}

/// What one more rectangle adds.
proof fn lemma_in_one_more_part(parts: Seq<Rect>, part: Rect, x: int, y: int)
    ensures
        in_some_part(parts.push(part), x, y) <==> in_some_part(parts, x, y) || (part.loc.x <= x
            < part.loc.x + part.size.w && part.loc.y <= y < part.loc.y + part.size.h),
{
    let all = parts.push(part);
    assert(all[parts.len() as int] == part);
    if in_some_part(parts, x, y) {
        let k = choose|k: int|
            {
                &&& 0 <= k < parts.len()
                &&& (#[trigger] parts[k]).loc.x <= x < parts[k].loc.x + parts[k].size.w
                &&& parts[k].loc.y <= y < parts[k].loc.y + parts[k].size.h
            };
        assert(all[k] == parts[k]);
    }
    if in_some_part(all, x, y) {
        let k = choose|k: int|
            {
                &&& 0 <= k < all.len()
                &&& (#[trigger] all[k]).loc.x <= x < all[k].loc.x + all[k].size.w
                &&& all[k].loc.y <= y < all[k].loc.y + all[k].size.h
            };
        if k < parts.len() {
            assert(all[k] == parts[k]);
        }
    }
}

proof fn lemma_region_step(corners: Seq<(Point, Point)>, size: Size, x: int, y: int)
    requires
        size.w < i32::MAX,
        size.h < i32::MAX,
        forall|k: int|
            0 <= k < corners.len() ==> {
                &&& (#[trigger] corners[k]).0.x <= corners[k].1.x
                &&& corners[k].0.y <= corners[k].1.y
                &&& corners[k].1.x - corners[k].0.x <= i32::MAX
                &&& corners[k].1.y - corners[k].0.y <= i32::MAX
            },
    ensures
        in_some_part(clipped_region(corners, size), x, y) <==> 0 <= x < size.w && 0 <= y < size.h
            && between_some_corners(corners, x, y),
    decreases corners.len(),
{
    if corners.len() > 0 {
        let fewer = corners.drop_last();
        let before = clipped_region(fewer, size);
        let (a, b) = corners.last();
        let last = Rect::spanned(a.x as int, a.y as int, b.x as int, b.y as int);
        let bounds = Rect { loc: Point { x: 0, y: 0 }, size };
        assert forall|k: int| 0 <= k < fewer.len() implies #[trigger] fewer[k] == corners[k] by {}
        assert(corners[corners.len() - 1] == (a, b));
        lemma_region_step(fewer, size, x, y);
        lemma_in_one_more_part(before, last.common(bounds), x, y);
        if between_some_corners(corners, x, y) {
            let k = choose|k: int|
                {
                    &&& 0 <= k < corners.len()
                    &&& (#[trigger] corners[k]).0.x <= x < corners[k].1.x
                    &&& corners[k].0.y <= y < corners[k].1.y
                };
            if k < fewer.len() {
                assert(fewer[k] == corners[k]);
            }
        }
        if between_some_corners(fewer, x, y) {
            let k = choose|k: int|
                {
                    &&& 0 <= k < fewer.len()
                    &&& (#[trigger] fewer[k]).0.x <= x < fewer[k].1.x
                    &&& fewer[k].0.y <= y < fewer[k].1.y
                };
            assert(corners[k] == fewer[k]);
        }
        let hit = a.x <= x < b.x && a.y <= y < b.y;
        assert(between_some_corners(corners, x, y) <==> between_some_corners(fewer, x, y) || hit);
        let part = last.common(bounds);
        if last.meets(bounds) {
            assert(hit && 0 <= x < size.w && 0 <= y < size.h <==> part.loc.x <= x < part.loc.x
                + part.size.w && part.loc.y <= y < part.loc.y + part.size.h);
        } else {
            assert(!(hit && 0 <= x < size.w && 0 <= y < size.h));
        }
    }
}

/// The blur of a window lies behind all that is drawn of it but its shadow, after what
/// is drawn of the windows above it in its group. Its region is what the client asked
/// for, clipped to the window; where nothing of that is left, or the client asked for
/// nothing, the blur covers the whole window.
pub proof fn lemma_blur_of_a_window(
    wm: DriftWm,
    facts: Seq<WindowFacts>,
    visible: Rect,
    n: int,
)
    requires
        0 <= n < wm.windows.len(),
    ensures
        ({
            let w = wm.windows@[n];
            let full = exists|i: int|
                0 <= i < wm.fullscreen.len() && (#[trigger] wm.fullscreen@[i]).state.window == w.id;
            let bar = !full && w.surface is Some && wm.decorations@.contains_key(w.surface->0);
            let blur = wm.blur_of(facts, visible, n);
            &&& w.surface is Some ==> blur.surface == w.surface->0
            &&& blur.screen_rect == facts[n].screen_rect
            &&& blur.layer is Widget <==> w.surface is Some && w.rule is Some && w.rule->0.widget
            &&& blur.layer is Normal || blur.layer is Widget
            &&& blur.region is Some <==> facts[n].blur_corners is Some && clipped_region(
                facts[n].blur_corners->0@,
                facts[n].screen_rect.size,
            ).len() > 0
            &&& blur.region is Some ==> blur.region->0 == clipped_region(
                facts[n].blur_corners->0@,
                facts[n].screen_rect.size,
            )
            &&& blur.elem_count == facts[n].popup_parts + facts[n].surface_parts + (if bar
                && facts[n].bar_drawn {
                1int
            } else {
                0
            })
            &&& blur.elem_start == wm.group_elements(
                facts,
                visible,
                w.surface is Some && w.rule is Some && w.rule->0.widget,
                n + 1,
            ).len()
        }),
{
    let w = wm.windows@[n];
    let full = exists|i: int|
        0 <= i < wm.fullscreen.len() && (#[trigger] wm.fullscreen@[i]).state.window == w.id;
    assert(wm.shown_fullscreen(w.id) == full);
    if facts[n].blur_corners is Some && facts[n].blur_corners->0@.len() == 0 {
        assert(clipped_region(facts[n].blur_corners->0@, facts[n].screen_rect.size).len() == 0);
    }
}

/// Every window in view behind which a blur is drawn has its blur in the list.
pub proof fn lemma_every_blur_is_drawn(
    wm: DriftWm,
    facts: Seq<WindowFacts>,
    visible: Rect,
    n: int,
    m: int,
)
    requires
        0 <= n <= m < wm.windows.len(),
        wm.in_view(wm.windows@[m], visible),
        wm.blurred(wm.windows@[m], facts[m]),
    ensures
        wm.window_blurs(facts, visible, n).contains(wm.blur_of(facts, visible, m)),
    decreases m - n,
{
    let list = wm.window_blurs(facts, visible, n);
    let above = wm.window_blurs(facts, visible, n + 1);
    let blur = wm.blur_of(facts, visible, m);
    if n < m {
        lemma_every_blur_is_drawn(wm, facts, visible, n + 1, m);
        let i = choose|i: int| 0 <= i < above.len() && above[i] == blur;
        assert(list[i] == blur);
    } else {
        assert(list[above.len() as int] == blur);
    }
}

/// Every blur in the list is that of a window in view behind which one is drawn;
/// that window is returned.
pub proof fn lemma_every_blur_has_a_window(
    wm: DriftWm,
    facts: Seq<WindowFacts>,
    visible: Rect,
    n: int,
    k: int,
) -> (m: int)
    requires
        0 <= n <= wm.windows.len(),
        0 <= k < wm.window_blurs(facts, visible, n).len(),
    ensures
        n <= m < wm.windows.len(),
        wm.in_view(wm.windows@[m], visible),
        wm.blurred(wm.windows@[m], facts[m]),
        wm.window_blurs(facts, visible, n)[k] == wm.blur_of(facts, visible, m),
    decreases wm.windows.len() - n,
{
    let above = wm.window_blurs(facts, visible, n + 1);
    if k < above.len() {
        lemma_every_blur_has_a_window(wm, facts, visible, n + 1, k)
    } else {
        n
    }
}

/// A title bar is redrawn to the width of its window and to whether the window has
/// the keyboard focus, when its window is in view and not fullscreen; otherwise it
/// stays. The window is given as the only one with its surface.
pub proof fn lemma_bars_follow_their_windows(
    wm: DriftWm,
    visible: Rect,
    n: int,
    m: int,
    surface: u64,
)
    requires
        0 <= n <= m < wm.windows.len(),
        wm.windows@[m].surface == Some(surface),
        forall|i: int|
            0 <= i < wm.windows.len() && i != m ==> (#[trigger] wm.windows@[i]).surface != Some(
                surface,
            ),
        wm.decorations@.contains_key(surface),
    ensures
        ({
            let w = wm.windows@[m];
            let full = exists|i: int|
                0 <= i < wm.fullscreen.len() && (#[trigger] wm.fullscreen@[i]).state.window == w.id;
            let bars = wm.bars_redrawn(visible, n);
            &&& bars.contains_key(surface)
            &&& wm.in_view(w, visible) && !full ==> bars[surface].width == w.geometry.size.w && (
            bars[surface].focused <==> wm.keyboard_focus == Some(surface))
            &&& !wm.in_view(w, visible) || full ==> bars[surface] == wm.decorations@[surface]
        }),
    decreases wm.windows.len() - n,
{
    let w = wm.windows@[m];
    let full = exists|i: int|
        0 <= i < wm.fullscreen.len() && (#[trigger] wm.fullscreen@[i]).state.window == w.id;
    assert(wm.shown_fullscreen(w.id) == full);
    if n < m {
        lemma_bars_follow_their_windows(wm, visible, n + 1, m, surface);
        assert(wm.windows@[n].surface != Some(surface));
    } else {
        lemma_other_bars_stay(wm, visible, m + 1, surface);
    }
}

/// A title bar whose surface no window has stays as it is.
proof fn lemma_other_bars_stay(wm: DriftWm, visible: Rect, n: int, surface: u64)
    requires
        0 <= n <= wm.windows.len(),
        forall|i: int|
            n <= i < wm.windows.len() ==> (#[trigger] wm.windows@[i]).surface != Some(surface),
    ensures
        wm.bars_redrawn(visible, n).contains_key(surface) == wm.decorations@.contains_key(surface),
        wm.decorations@.contains_key(surface) ==> wm.bars_redrawn(visible, n)[surface]
            == wm.decorations@[surface],
    decreases wm.windows.len() - n,
{
    if n < wm.windows.len() {
        lemma_other_bars_stay(wm, visible, n + 1, surface);
        assert(wm.windows@[n].surface != Some(surface));
    }
}

/// A shadow is in the cache afterwards exactly when it was there before or a window
/// in view with that surface casts one.
pub proof fn lemma_shadows_are_kept(wm: DriftWm, visible: Rect, n: int, surface: u64)
    requires
        0 <= n <= wm.windows.len(),
    ensures
        wm.shadows_drawn(visible, n).contains(surface) <==> {
            ||| wm.render.shadow_cache@.contains(surface)
            ||| exists|m: int|
                n <= m < wm.windows.len() && (#[trigger] wm.windows@[m]).surface == Some(surface)
                    && wm.in_view(wm.windows@[m], visible) && wm.casts_shadow(wm.windows@[m])
        },
    decreases wm.windows.len() - n,
{
    if n < wm.windows.len() {
        lemma_shadows_are_kept(wm, visible, n + 1, surface);
        let w = wm.windows@[n];
        assert(wm.windows@[n] == w);
    }
}

} // verus!
