//! Where new windows are placed.

use crate::config::settings::DecorationConfig;
use crate::geometry::{HalfPoint, Point, PointF, Size};
use crate::scalar::{Scalar, HALF_BITS};
use crate::state::windows::{find_id, Window};
use crate::state::wm::DriftWm;
use vstd::prelude::*;

verus! {

broadcast use vstd::std_specs::hash::group_hash_axioms;

/// How close two windows' corners are when one hides the other.
pub const CASCADE_TOLERANCE: i64 = 2;

/// Two corners lie within a few pixels of each other.
pub open spec fn close_to(loc: Point, x: int, y: int) -> bool {
    &&& -CASCADE_TOLERANCE <= loc.x - x <= CASCADE_TOLERANCE
    &&& -CASCADE_TOLERANCE <= loc.y - y <= CASCADE_TOLERANCE
}

/// A window other than `skip` stands at a position, or within a few pixels.
pub open spec fn occupied(stack: Seq<Window>, skip: u64, x: int, y: int) -> bool {
    exists|i: int|
        0 <= i < stack.len() && (#[trigger] stack[i]).id != skip && close_to(
            stack[i].location,
            x,
            y,
        )
}

/// The position after `steps` diagonal steps is the first free one.
pub open spec fn first_free(
    stack: Seq<Window>,
    skip: u64,
    pos: (i32, i32),
    steps: nat,
) -> bool {
    let step = DecorationConfig::TITLE_BAR_HEIGHT as int;
    &&& !occupied(stack, skip, pos.0 + steps * step, pos.1 + steps * step)
    &&& forall|k: nat|
        k < steps ==> #[trigger] occupied(stack, skip, pos.0 + k * step, pos.1 + k * step)
}

/// The first free position can be written down.
pub open spec fn free_position_fits(stack: Seq<Window>, skip: u64, pos: (i32, i32)) -> bool {
    exists|steps: nat|
        {
            &&& #[trigger] first_free(stack, skip, pos, steps)
            &&& pos.0 + steps * DecorationConfig::TITLE_BAR_HEIGHT <= i32::MAX
            &&& pos.1 + steps * DecorationConfig::TITLE_BAR_HEIGHT <= i32::MAX
        }
}

/// A rectangle on the canvas, wide enough to hold any window with its title bar.
#[derive(Clone, Copy, Debug, PartialEq, Eq, Structural)]
pub struct FrameRect {
    pub x: i64,
    pub y: i64,
    pub w: i64,
    pub h: i64,
}

/// Where to look for a place next to the anchor window.
#[derive(Debug)]
pub struct PlacementRequest {
    /// The frames of all windows that count, from the bottom up. All of them may
    /// serve as neighbors.
    pub rects: Vec<FrameRect>,
    /// Which of them is the anchor.
    pub focused_idx: usize,
    /// The size of the new window's frame.
    pub new_w: i64,
    pub new_h: i64,
    /// The center of the usable area on the screen, in half pixels.
    pub screen_center: HalfPoint,
}

/// Where the cursor wants a new window, and the bounds that keep it visible.
#[derive(Clone, Copy, Debug)]
pub struct CursorPlacement {
    /// The content's corner that centers the frame on the cursor.
    pub raw: PointF,
    /// The smallest corner that keeps the frame inside the usable area.
    pub lower: PointF,
    /// The largest such corner; below `lower` for an oversized window.
    pub upper: PointF,
}

/// One coordinate, kept between the bounds; where the bounds cross, the lower
/// one holds.
pub open spec fn bounded(raw: Scalar, lower: Scalar, upper: Scalar) -> Scalar {
    raw.clamped(lower, upper.larger(lower))
}

impl DriftWm {
    /// A window that is fullscreen on some output.
    pub open spec fn shown_fullscreen(self, window: u64) -> bool {
        exists|i: int|
            0 <= i < self.fullscreen.len() && (#[trigger] self.fullscreen@[i]).state.window
                == window
    }

    pub(crate) fn is_shown_fullscreen(&self, window: u64) -> (b: bool)
        ensures
            b == self.shown_fullscreen(window),
    {
        let mut i: usize = 0;
        while i < self.fullscreen.len()
            invariant
                i <= self.fullscreen.len(),
                forall|j: int|
                    0 <= j < i ==> (#[trigger] self.fullscreen@[j]).state.window != window,
            decreases self.fullscreen.len() - i,
        {
            if self.fullscreen[i].state.window == window {
                return true;
            }
            i += 1;
        }
        false
    }

    /// Offset a spawn position so it doesn't overlap an existing window.
    /// Walks in diagonal steps (title bar height) until no window is within a
    /// few pixels.
    pub fn cascade_position(&self, pos: (i32, i32), skip: u64) -> (r: (i32, i32))
        requires
            free_position_fits(self.windows@, skip, pos),
        ensures
            exists|steps: nat|
                {
                    &&& #[trigger] first_free(self.windows@, skip, pos, steps)
                    &&& r.0 == pos.0 + steps * DecorationConfig::TITLE_BAR_HEIGHT
                    &&& r.1 == pos.1 + steps * DecorationConfig::TITLE_BAR_HEIGHT
                },
            r.0 - pos.0 == r.1 - pos.1,
            r.0 >= pos.0,
            (r.0 - pos.0) % 25 == 0,
            forall|i: int|
                0 <= i < self.windows.len() && (#[trigger] self.windows@[i]).id != skip ==> {
                    ||| self.windows@[i].location.x - r.0 > 2
                    ||| r.0 - self.windows@[i].location.x > 2
                    ||| self.windows@[i].location.y - r.1 > 2
                    ||| r.1 - self.windows@[i].location.y > 2
                },
    {
        let step: i32 = DecorationConfig::TITLE_BAR_HEIGHT;
        let mut at: (i32, i32) = pos;
        let ghost mut steps: nat = 0;
        let ghost last = choose|last: nat|
            {
                &&& #[trigger] first_free(self.windows@, skip, pos, last)
                &&& pos.0 + last * DecorationConfig::TITLE_BAR_HEIGHT <= i32::MAX
                &&& pos.1 + last * DecorationConfig::TITLE_BAR_HEIGHT <= i32::MAX
            };
        loop
            invariant
                step == DecorationConfig::TITLE_BAR_HEIGHT,
                first_free(self.windows@, skip, pos, last),
                pos.0 + last * step <= i32::MAX,
                pos.1 + last * step <= i32::MAX,
                steps <= last,
                at.0 == pos.0 + steps * step,
                at.1 == pos.1 + steps * step,
            decreases last - steps,
        {
            if !self.is_occupied(at, skip) {
                proof {
                    if steps < last {
                        assert(occupied(
                            self.windows@,
                            skip,
                            pos.0 + steps * step,
                            pos.1 + steps * step,
                        ));
                    }
                    lemma_cascade_clears_every_window(self.windows@, skip, pos, steps);
                    assert((steps * 25) % 25 == 0) by (nonlinear_arith);
                }
                return at;
            }
            proof {
                steps = steps + 1;
            }
            at = (at.0 + step, at.1 + step);
        }
    }

    /// Whether the walk from a spawn position comes to a free one that can be
    /// written down.
    pub fn can_cascade(&self, pos: (i32, i32), skip: u64) -> (b: bool)
        ensures
            b == free_position_fits(self.windows@, skip, pos),
    {
        let step: i32 = DecorationConfig::TITLE_BAR_HEIGHT;
        let mut at: (i32, i32) = pos;
        let ghost mut steps: nat = 0;
        let ghost last = choose|last: nat|
            last <= self.windows.len() && #[trigger] first_free(self.windows@, skip, pos, last);
        proof {
            lemma_cascade_ends(self.windows@, skip, pos);
        }
        loop
            invariant
                step == DecorationConfig::TITLE_BAR_HEIGHT,
                first_free(self.windows@, skip, pos, last),
                steps <= last,
                at.0 == pos.0 + steps * DecorationConfig::TITLE_BAR_HEIGHT,
                at.1 == pos.1 + steps * DecorationConfig::TITLE_BAR_HEIGHT,
            decreases last - steps,
        {
            if !self.is_occupied(at, skip) {
                proof {
                    if steps < last {
                        assert(occupied(
                            self.windows@,
                            skip,
                            pos.0 + steps * DecorationConfig::TITLE_BAR_HEIGHT,
                            pos.1 + steps * DecorationConfig::TITLE_BAR_HEIGHT,
                        ));
                    }
                    assert(first_free(self.windows@, skip, pos, steps));
                }
                return true;
            }
            assert(steps < last);
            if at.0 > i32::MAX - step || at.1 > i32::MAX - step {
                proof {
                    assert forall|other: nat| #[trigger]
                        first_free(self.windows@, skip, pos, other) implies other == last by {
                        lemma_first_free_is_unique(self.windows@, skip, pos, other, last);
                    }
                }
                return false;
            }
            proof {
                steps = steps + 1;
            }
            at = (at.0 + step, at.1 + step);
        }
    }

    /// Whether a window other than `skip` stands at a position, or within a few
    /// pixels.
    fn is_occupied(&self, at: (i32, i32), skip: u64) -> (b: bool)
        ensures
            b == occupied(self.windows@, skip, at.0 as int, at.1 as int),
    {
        let mut i: usize = 0;
        while i < self.windows.len()
            invariant
                i <= self.windows.len(),
                forall|j: int|
                    0 <= j < i ==> !((#[trigger] self.windows@[j]).id != skip && close_to(
                        self.windows@[j].location,
                        at.0 as int,
                        at.1 as int,
                    )),
            decreases self.windows.len() - i,
        {
            let w: &Window = &self.windows[i];
            let dx: i64 = w.location.x as i64 - at.0 as i64;
            let dy: i64 = w.location.y as i64 - at.1 as i64;
            if w.id != skip && -CASCADE_TOLERANCE <= dx && dx <= CASCADE_TOLERANCE
                && -CASCADE_TOLERANCE <= dy && dy <= CASCADE_TOLERANCE {
                return true;
            }
            i += 1;
        }
        false
    }

    /// Spawn position for `placement = "cursor"`: center the visual frame
    /// (title bar and content) on the cursor, clamped to the active output's
    /// usable canvas rect so the new window is fully visible without panning.
    /// `placement` is `None` without a pointer. Returns `None` if there is no
    /// active output or no pointer.
    pub fn cursor_placement_pos(&self, placement: Option<CursorPlacement>) -> (r: Option<
        (i32, i32),
    >)
        requires
            self.wf(),
            placement matches Some(p) ==> !p.lower.x.nan() && !p.lower.y.nan(),
        ensures
            r == (match (self.active(), placement) {
                (Some(_), Some(p)) => Some(
                    (
                        crate::geometry::saturated(
                            bounded(p.raw.x, p.lower.x, p.upper.x).nearest(),
                        ) as i32,
                        crate::geometry::saturated(
                            bounded(p.raw.y, p.lower.y, p.upper.y).nearest(),
                        ) as i32,
                    ),
                ),
                _ => None,
            }),
    {
        if self.active_index().is_none() {
            return None;
        }
        match placement {
            Some(p) => {
                let max_x: Scalar = p.upper.x.max(p.lower.x);
                let max_y: Scalar = p.upper.y.max(p.lower.y);
                let x: Scalar = p.raw.x.clamp(p.lower.x, max_x);
                let y: Scalar = p.raw.y.clamp(p.lower.y, max_y);
                Some((x.round_to_i32(), y.round_to_i32()))
            },
            None => None,
        }
    }

    /// The window that a new window is placed next to: the one that had the
    /// focus when the new surface appeared, unless it is gone, a widget or
    /// fullscreen.
    pub open spec fn anchor(self, new_window: Window) -> Option<Window> {
        match new_window.surface {
            Some(surface) => match self.auto_anchor_snapshot@.get(surface) {
                Some(Some(id)) => match crate::state::windows::window_by_id(self.windows@, id) {
                    Some(w) => if w.widget() || self.shown_fullscreen(id) {
                        None
                    } else {
                        Some(w)
                    },
                    None => None,
                },
                _ => None,
            },
            None => None,
        }
    }

    /// The windows that count for the placement of a new one: neither the new
    /// window itself nor widgets nor fullscreen windows.
    pub open spec fn counts_for(self, new_window: u64) -> spec_fn(Window) -> bool {
        |w: Window| w.id != new_window && !w.widget() && !self.shown_fullscreen(w.id)
    }

    /// A window's frame, from the top of its title bar to the bottom of its
    /// content.
    pub open spec fn frame_of(self, w: Window) -> FrameRect {
        FrameRect {
            x: w.location.x as i64,
            y: (w.location.y - self.bar_height(w)) as i64,
            w: w.geometry.size.w as i64,
            h: (w.geometry.size.h + self.bar_height(w)) as i64,
        }
    }

    /// The window next to which a new one is placed.
    pub fn auto_placement_anchor(&self, new_window: &Window) -> (r: Option<&Window>)
        ensures
            match r {
                Some(w) => self.anchor(*new_window) == Some(*w),
                None => self.anchor(*new_window) is None,
            },
    {
        let surface: u64 = match new_window.surface {
            Some(surface) => surface,
            None => {
                return None;
            },
        };
        let id: u64 = match self.auto_anchor_snapshot.get(&surface) {
            Some(Some(id)) => *id,
            _ => {
                return None;
            },
        };
        match find_id(&self.windows, id) {
            Some(i) => if self.windows[i].is_widget() || self.is_shown_fullscreen(id) {
                None
            } else {
                Some(&self.windows[i])
            },
            None => None,
        }
    }

    /// The windows that count, in their order, with their frames.
    pub open spec fn frames_around(self, new_window: u64) -> Seq<FrameRect> {
        self.windows@.filter(self.counts_for(new_window)).map_values(|w: Window| self.frame_of(w))
    }

    /// Whether a new window is placed next to its anchor: there is one, it is
    /// another window, and at least half of it is visible, so that it is what the
    /// user is working with right now.
    pub open spec fn anchored(self, new_window: Window, visible: Scalar) -> bool {
        self.anchor(new_window) matches Some(w) && w.id != new_window.id && !visible.below(
            Scalar { bits: HALF_BITS },
        )
    }

    /// What to look for when placing a new window next to the focused one. The
    /// part of the anchor that is visible is given. `None` means that there is
    /// nothing to anchor to.
    pub fn auto_placement_request(
        &self,
        new_window: &Window,
        new_size: Size,
        bar: i32,
        visible: Scalar,
    ) -> (r: Option<PlacementRequest>)
        requires
            self.wf(),
        ensures
            r is Some <==> self.anchored(*new_window, visible),
            r matches Some(request) ==> {
                let counted = self.windows@.filter(self.counts_for(new_window.id));
                &&& request.rects@ == self.frames_around(new_window.id)
                &&& request.focused_idx < counted.len()
                &&& self.anchor(*new_window) == Some(counted[request.focused_idx as int])
                &&& request.new_w == new_size.w
                &&& request.new_h == new_size.h + bar
                &&& request.screen_center == self.usable_area().middle()
            },
    {
        let focused: &Window = match self.auto_placement_anchor(new_window) {
            Some(w) => w,
            None => {
                return None;
            },
        };
        if visible.less_than(Scalar::half()) {
            return None;
        }
        let ghost counts = self.counts_for(new_window.id);
        let ghost frame = |w: Window| self.frame_of(w);
        let mut rects: Vec<FrameRect> = Vec::new();
        let mut focused_idx: Option<usize> = None;
        let mut i: usize = 0;
        proof {
            reveal(Seq::filter);
            assert(self.windows@.take(0) =~= Seq::<Window>::empty());
            assert(rects@ =~= self.windows@.take(0).filter(counts).map_values(frame));
        }
        while i < self.windows.len()
            invariant
                i <= self.windows.len(),
                self.wf(),
                counts == self.counts_for(new_window.id),
                frame == (|w: Window| self.frame_of(w)),
                self.anchor(*new_window) == Some(*focused),
                rects@ == self.windows@.take(i as int).filter(counts).map_values(frame),
                match focused_idx {
                    Some(k) => k < self.windows@.take(i as int).filter(counts).len()
                        && self.windows@.take(i as int).filter(counts)[k as int] == *focused,
                    None => forall|j: int|
                        0 <= j < i ==> !((#[trigger] self.windows@[j]).id == focused.id && counts(
                            self.windows@[j],
                        )),
                },
            decreases self.windows.len() - i,
        {
            proof {
                crate::stack::lemma_filter_take(self.windows@, counts, i as int);
            }
            let w: &Window = &self.windows[i];
            let ghost before = self.windows@.take(i as int).filter(counts);
            if w.id != new_window.id && !w.is_widget() && !self.is_shown_fullscreen(w.id) {
                let b: i64 = self.window_ssd_bar(w) as i64;
                if w.id == focused.id {
                    proof {
                        self.lemma_anchor_is(*new_window, i as int);
                    }
                    focused_idx = Some(rects.len());
                }
                rects.push(
                    FrameRect {
                        x: w.location.x as i64,
                        y: w.location.y as i64 - b,
                        w: w.geometry.size.w as i64,
                        h: w.geometry.size.h as i64 + b,
                    },
                );
                assert(rects@ =~= before.push(*w).map_values(frame));
            }
            i += 1;
        }
        assert(self.windows@.take(i as int) =~= self.windows@);
        match focused_idx {
            Some(focused_idx) => {
                proof {
                    self.windows@.lemma_filter_pred(counts, focused_idx as int);
                }
                Some(
                    PlacementRequest {
                        rects,
                        focused_idx,
                        new_w: new_size.w as i64,
                        new_h: new_size.h as i64 + bar as i64,
                        screen_center: self.usable_center_screen(),
                    },
                )
            },
            None => {
                proof {
                    self.lemma_anchor_found(*new_window);
                    let k = choose|k: int|
                        0 <= k < self.windows.len() && self.windows@[k] == *focused;
                    assert(!(self.windows@[k].id == focused.id && counts(self.windows@[k])));
                }
                None
            },
        }
    }

    /// The anchor is a window of the stack that is neither a widget nor
    /// fullscreen.
    proof fn lemma_anchor_found(self, new_window: Window)
        requires
            self.anchor(new_window) is Some,
        ensures
            self.windows@.contains(self.anchor(new_window)->0),
            !self.anchor(new_window)->0.widget(),
            !self.shown_fullscreen(self.anchor(new_window)->0.id),
    {
        let id = self.auto_anchor_snapshot@.get(new_window.surface->0)->0->0;
        let it = crate::state::stacking::the_window(id);
        let k = choose|k: int| crate::stack::first_at(self.windows@, it, k);
        assert(crate::stack::first_at(self.windows@, it, k));
        assert(self.windows@[k] == self.anchor(new_window)->0);
    }

    /// The window with the anchor's id is the anchor.
    proof fn lemma_anchor_is(self, new_window: Window, i: int)
        requires
            self.wf(),
            self.anchor(new_window) is Some,
            0 <= i < self.windows.len(),
            self.windows@[i].id == self.anchor(new_window)->0.id,
        ensures
            self.windows@[i] == self.anchor(new_window)->0,
    {
        self.lemma_anchor_found(new_window);
        let w = self.anchor(new_window)->0;
        let k = choose|k: int| 0 <= k < self.windows.len() && self.windows@[k] == w;
        if k < i {
            assert(self.windows@[k].id != self.windows@[i].id);
        }
        if i < k {
            assert(self.windows@[i].id != self.windows@[k].id);
        }
    }

    /// Spawn position for `placement = "auto"`: snap-place adjacent to the
    /// focused window's cluster. Returns the new window's content top-left:
    /// the frame's corner that was found, shifted down by `bar`. `None` when
    /// there's no eligible focused window or no valid placement was found; the
    /// caller should fall back to center.
    pub fn auto_placement_pos(
        &self,
        new_window: &Window,
        new_size: Size,
        bar: i32,
        visible: Scalar,
        found: Option<PointF>,
    ) -> (r: Option<(i32, i32)>)
        requires
            self.wf(),
            found matches Some(p) ==> i32::MIN <= crate::geometry::saturated(p.y.nearest()) + bar
                <= i32::MAX,
        ensures
            r == (match found {
                Some(p) => if self.anchored(*new_window, visible) {
                    Some(
                        (
                            crate::geometry::saturated(p.x.nearest()) as i32,
                            (crate::geometry::saturated(p.y.nearest()) + bar) as i32,
                        ),
                    )
                } else {
                    None
                },
                None => None,
            }),
    {
        if self.auto_placement_request(new_window, new_size, bar, visible).is_none() {
            return None;
        }
        match found {
            Some(p) => Some((p.x.round_to_i32(), p.y.round_to_i32() + bar)),
            None => None,
        }
    }

    /// The theme and size from which a cursor is loaded.
    pub fn load_xcursor(&self) -> (source: (&str, u32))
        ensures
            source.0@ == (match self.config.cursor_theme {
                Some(theme) => theme@,
                None => "default"@,
            }),
            source.1 == (match self.config.cursor_size {
                Some(size) => size,
                None => crate::config::settings::DEFAULT_CURSOR_SIZE,
            }),
    {
        (self.config.cursor_theme_name(), self.config.cursor_pixel_size())
    }
}

/// Continues a walk on which `blocking` lists a window at each position so far.
proof fn lemma_walk_ends(stack: Seq<Window>, skip: u64, pos: (i32, i32), blocking: Seq<int>)
    requires
        blocking.no_duplicates(),
        forall|k: int|
            0 <= k < blocking.len() ==> {
                &&& 0 <= #[trigger] blocking[k] < stack.len()
                &&& stack[blocking[k]].id != skip
                &&& close_to(
                    stack[blocking[k]].location,
                    pos.0 + k * DecorationConfig::TITLE_BAR_HEIGHT,
                    pos.1 + k * DecorationConfig::TITLE_BAR_HEIGHT,
                )
            },
    ensures
        exists|steps: nat| steps <= stack.len() && #[trigger] first_free(stack, skip, pos, steps),
    decreases stack.len() - blocking.len(),
{
    let step = DecorationConfig::TITLE_BAR_HEIGHT as int;
    let n = blocking.len();
    crate::stack::lemma_indices_bounded(blocking, stack.len() as int);
    assert forall|k: nat| k < n implies #[trigger] occupied(
        stack,
        skip,
        pos.0 + k * step,
        pos.1 + k * step,
    ) by {
        assert(stack[blocking[k as int]].id != skip);
    }
    if occupied(stack, skip, pos.0 + n * step, pos.1 + n * step) {
        let i = choose|i: int|
            0 <= i < stack.len() && (#[trigger] stack[i]).id != skip && close_to(
                stack[i].location,
                pos.0 + n * step,
                pos.1 + n * step,
            );
        assert forall|k: int| 0 <= k < n implies blocking[k] != i by {
            assert(close_to(stack[blocking[k]].location, pos.0 + k * step, pos.1 + k * step));
        }
        let longer = blocking.push(i);
        crate::stack::lemma_indices_bounded(longer, stack.len() as int);
        lemma_walk_ends(stack, skip, pos, longer);
    } else {
        assert(first_free(stack, skip, pos, n));
    }
}

/// The cascade ends: after at most as many steps as there are windows it comes to
/// a free position, for a window can block only one position of the walk.
pub proof fn lemma_cascade_ends(stack: Seq<Window>, skip: u64, pos: (i32, i32))
    ensures
        exists|steps: nat| steps <= stack.len() && #[trigger] first_free(stack, skip, pos, steps),
        pos.0 + stack.len() * DecorationConfig::TITLE_BAR_HEIGHT <= i32::MAX && pos.1 + stack.len()
            * DecorationConfig::TITLE_BAR_HEIGHT <= i32::MAX ==> free_position_fits(
            stack,
            skip,
            pos,
        ),
{
    lemma_walk_ends(stack, skip, pos, Seq::empty());
}

/// The cascade is deterministic: there is at most one first free position.
pub proof fn lemma_first_free_is_unique(
    stack: Seq<Window>,
    skip: u64,
    pos: (i32, i32),
    a: nat,
    b: nat,
)
    requires
        first_free(stack, skip, pos, a),
        first_free(stack, skip, pos, b),
    ensures
        a == b,
{
    let step = DecorationConfig::TITLE_BAR_HEIGHT as int;
    if a < b {
        assert(occupied(stack, skip, pos.0 + a * step, pos.1 + a * step));
    }
    if b < a {
        assert(occupied(stack, skip, pos.0 + b * step, pos.1 + b * step));
    }
}

/// A window placed at the cursor starts inside the bounds: never before the
/// lower one, and never past the upper one unless the window is oversized.
pub proof fn lemma_placement_stays_inside(raw: Scalar, lower: Scalar, upper: Scalar)
    requires
        !raw.nan(),
        !lower.nan(),
    ensures
        bounded(raw, lower, upper).at_least_spec(lower),
        upper.at_least_spec(lower) ==> upper.at_least_spec(bounded(raw, lower, upper)),
        upper.below(lower) ==> bounded(raw, lower, upper).same_number(lower),
        raw.at_least_spec(lower) && upper.at_least_spec(raw) ==> bounded(raw, lower, upper) == raw,
{
}

/// The cascade clears every window: at the position that it comes to, no window
/// but the one to skip lies within two pixels on both axes.
pub proof fn lemma_cascade_clears_every_window(
    stack: Seq<Window>,
    skip: u64,
    pos: (i32, i32),
    steps: nat,
)
    requires
        first_free(stack, skip, pos, steps),
    ensures
        forall|i: int|
            0 <= i < stack.len() && (#[trigger] stack[i]).id != skip ==> {
                ||| stack[i].location.x - (pos.0 + 25 * steps) > 2
                ||| (pos.0 + 25 * steps) - stack[i].location.x > 2
                ||| stack[i].location.y - (pos.1 + 25 * steps) > 2
                ||| (pos.1 + 25 * steps) - stack[i].location.y > 2
            },
{
    let step = DecorationConfig::TITLE_BAR_HEIGHT as int;
    assert forall|i: int| 0 <= i < stack.len() && (#[trigger] stack[i]).id != skip implies {
        ||| stack[i].location.x - (pos.0 + 25 * steps) > 2
        ||| (pos.0 + 25 * steps) - stack[i].location.x > 2
        ||| stack[i].location.y - (pos.1 + 25 * steps) > 2
        ||| (pos.1 + 25 * steps) - stack[i].location.y > 2
    } by {
        assert(!close_to(stack[i].location, pos.0 + steps * step, pos.1 + steps * step));
    }
}

/// The cascade goes no further than it must: every position of the walk before
/// the one that it comes to, 25 pixels apart on both axes, lies within two pixels
/// of a window other than the one to skip.
pub proof fn lemma_cascade_passes_only_hidden_positions(
    stack: Seq<Window>,
    skip: u64,
    pos: (i32, i32),
    steps: nat,
    k: nat,
)
    requires
        first_free(stack, skip, pos, steps),
        k < steps,
    ensures
        exists|i: int|
            {
                &&& 0 <= i < stack.len()
                &&& (#[trigger] stack[i]).id != skip
                &&& -2 <= stack[i].location.x - (pos.0 + 25 * k) <= 2
                &&& -2 <= stack[i].location.y - (pos.1 + 25 * k) <= 2
            },
{
    let step = DecorationConfig::TITLE_BAR_HEIGHT as int;
    assert(occupied(stack, skip, pos.0 + k * step, pos.1 + k * step));
}

/// Moving the whole canvas moves the cascade with it: with every window and the
/// start moved by the same distance, the same number of steps leads to the first
/// free position.
pub proof fn lemma_cascade_moves_with_the_canvas(
    stack: Seq<Window>,
    moved: Seq<Window>,
    skip: u64,
    pos: (i32, i32),
    start: (i32, i32),
    steps: nat,
)
    requires
        first_free(stack, skip, pos, steps),
        moved.len() == stack.len(),
        forall|i: int|
            0 <= i < stack.len() ==> {
                &&& (#[trigger] moved[i]).id == stack[i].id
                &&& moved[i].location.x - start.0 == stack[i].location.x - pos.0
                &&& moved[i].location.y - start.1 == stack[i].location.y - pos.1
            },
    ensures
        first_free(moved, skip, start, steps),
{
    let step = DecorationConfig::TITLE_BAR_HEIGHT as int;
    assert forall|k: nat| k < steps implies #[trigger] occupied(
        moved,
        skip,
        start.0 + k * step,
        start.1 + k * step,
    ) by {
        assert(occupied(stack, skip, pos.0 + k * step, pos.1 + k * step));
        let i = choose|i: int|
            0 <= i < stack.len() && (#[trigger] stack[i]).id != skip && close_to(
                stack[i].location,
                pos.0 + k * step,
                pos.1 + k * step,
            );
        assert(moved[i].id == stack[i].id);
    }
    if occupied(moved, skip, start.0 + steps * step, start.1 + steps * step) {
        let i = choose|i: int|
            0 <= i < moved.len() && (#[trigger] moved[i]).id != skip && close_to(
                moved[i].location,
                start.0 + steps * step,
                start.1 + steps * step,
            );
        assert(stack[i].id != skip);
    }
}

/// On whole pixels, a window placed at the cursor keeps the cursor's position
/// where that lies between the bounds and the nearer bound where it does not;
/// where the bounds cross, the lower one holds.
pub proof fn lemma_cursor_placement_on_pixels(raw: int, lower: int, upper: int)
    requires
        i32::MIN <= raw <= i32::MAX,
        i32::MIN <= lower <= i32::MAX,
        i32::MIN <= upper <= i32::MAX,
    ensures
        ({
            let placed = bounded(
                Scalar::of_int(raw),
                Scalar::of_int(lower),
                Scalar::of_int(upper),
            ).nearest();
            &&& raw <= lower ==> placed == lower
            &&& upper <= lower ==> placed == lower
            &&& lower <= raw <= upper ==> placed == raw
            &&& lower <= upper <= raw ==> placed == upper
        }),
{
    crate::numbers::lemma_of_int_value(raw);
    crate::numbers::lemma_of_int_value(lower);
    crate::numbers::lemma_of_int_value(upper);
    crate::numbers::lemma_of_int_orders(raw, lower);
    crate::numbers::lemma_of_int_orders(upper, lower);
    crate::numbers::lemma_of_int_orders(upper, raw);
    crate::numbers::lemma_of_int_orders(lower, raw);
}

/// A new window is anchored to the window that was focused when its surface appeared,
/// provided that it is another one, still on the canvas, no widget, not fullscreen and
/// at least half visible; otherwise it is not anchored. The anchor is given as the
/// window with the remembered id.
pub proof fn lemma_anchor_is_the_window_in_use(
    wm: DriftWm,
    new_window: Window,
    visible: Scalar,
    surface: u64,
    i: int,
)
    requires
        wm.wf(),
        new_window.surface == Some(surface),
        0 <= i < wm.windows.len(),
        wm.auto_anchor_snapshot@.contains_key(surface),
        wm.auto_anchor_snapshot@[surface] == Some(wm.windows@[i].id),
    ensures
        ({
            let w = wm.windows@[i];
            let widget = w.surface is Some && w.rule is Some && w.rule->0.widget;
            let full = exists|k: int|
                0 <= k < wm.fullscreen.len() && (#[trigger] wm.fullscreen@[k]).state.window == w.id;
            let half = Scalar { bits: HALF_BITS };
            &&& widget || full ==> wm.anchor(new_window) is None
            &&& !widget && !full ==> wm.anchor(new_window) == Some(w)
            &&& wm.anchored(new_window, visible) <==> !widget && !full && w.id != new_window.id && (
            visible.nan() || visible.same_number(half) || half.below(visible))
        }),
{
    let w = wm.windows@[i];
    let full = exists|k: int|
        0 <= k < wm.fullscreen.len() && (#[trigger] wm.fullscreen@[k]).state.window == w.id;
    assert(wm.shown_fullscreen(w.id) == full);
    crate::numbers::lemma_one_and_half();
    assert forall|j: int| 0 <= j < i implies (#[trigger] wm.windows@[j]).id != w.id by {
        assert(wm.windows@[j].id != wm.windows@[i].id);
    }
    crate::state::windows::lemma_windows_are_found(wm.windows@, surface, w.id, i);
}

/// Without a remembered focus there is nothing to anchor to: when nothing was focused,
/// nothing was remembered, the window is gone, or the new window has no surface.
pub proof fn lemma_no_focus_no_anchor(wm: DriftWm, new_window: Window, visible: Scalar)
    ensures
        new_window.surface is None ==> wm.anchor(new_window) is None,
        new_window.surface matches Some(surface) ==> {
            &&& !wm.auto_anchor_snapshot@.contains_key(surface) ==> wm.anchor(new_window) is None
            &&& wm.auto_anchor_snapshot@.contains_key(surface)
                && wm.auto_anchor_snapshot@[surface] is None ==> wm.anchor(new_window) is None
            &&& wm.auto_anchor_snapshot@.contains_key(surface)
                && wm.auto_anchor_snapshot@[surface] is Some && (forall|i: int|
                0 <= i < wm.windows.len() ==> (#[trigger] wm.windows@[i]).id
                    != wm.auto_anchor_snapshot@[surface]->0) ==> wm.anchor(new_window) is None
        },
        wm.anchor(new_window) is None ==> !wm.anchored(new_window, visible),
{
    if let Some(surface) = new_window.surface {
        if wm.auto_anchor_snapshot@.contains_key(surface) {
            if let Some(id) = wm.auto_anchor_snapshot@[surface] {
                crate::state::windows::lemma_windows_are_found(wm.windows@, surface, id, 0);
            }
        }
    }
}

/// The windows around which a new one is placed are all others that are neither
/// widgets nor fullscreen, each with its frame: its content, and above it the 25
/// pixels of its title bar where it has one.
pub proof fn lemma_frames_of_all_other_windows(wm: DriftWm, new_window: u64, i: int)
    requires
        0 <= i < wm.windows.len(),
    ensures
        ({
            let w = wm.windows@[i];
            let widget = w.surface is Some && w.rule is Some && w.rule->0.widget;
            let full = exists|k: int|
                0 <= k < wm.fullscreen.len() && (#[trigger] wm.fullscreen@[k]).state.window == w.id;
            let bar = if w.surface is Some && wm.decorations@.contains_key(w.surface->0) {
                25int
            } else {
                0
            };
            let counted = wm.windows@.filter(wm.counts_for(new_window));
            &&& counted.contains(w) <==> w.id != new_window && !widget && !full
            &&& wm.frames_around(new_window).len() == counted.len()
            &&& forall|k: int|
                0 <= k < counted.len() && #[trigger] counted[k] == w ==> {
                    let frame = wm.frames_around(new_window)[k];
                    &&& frame.x == w.location.x
                    &&& frame.y == w.location.y - bar
                    &&& frame.w == w.geometry.size.w
                    &&& frame.y + frame.h == w.location.y + w.geometry.size.h
                }
        }),
{
    let w = wm.windows@[i];
    let full = exists|k: int|
        0 <= k < wm.fullscreen.len() && (#[trigger] wm.fullscreen@[k]).state.window == w.id;
    assert(wm.shown_fullscreen(w.id) == full);
    crate::stack::lemma_filter_holds(wm.windows@, wm.counts_for(new_window));
    assert(wm.windows@.contains(w));
}

} // verus!
