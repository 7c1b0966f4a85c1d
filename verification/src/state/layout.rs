//! Where outputs stand, which of them a window or a point is on, and what moves
//! on them.

use crate::geometry::{saturating_i32, saturating_sum, HalfPoint, Point, PointF, Rect, Size};
use crate::scalar::{Scalar, HALF_BITS, ONE_BITS};
use crate::state::output::{layout_center, output_logical_size, output_state, Output};
use crate::state::windows::{find_id, FullscreenState};
use crate::state::wm::DriftWm;
use vstd::prelude::*;

verus! {

/// Half of a number, cut off towards zero.
pub open spec fn halved_to_zero(n: int) -> int {
    if n >= 0 {
        n / 2
    } else {
        -((-n) / 2)
    }
}

/// The pixel that a position in half pixels lies in, cut off towards zero and
/// moved into the range of `i32`.
pub open spec fn pixel_of(p: HalfPoint) -> Point {
    Point {
        x: crate::geometry::saturated(halved_to_zero(p.x2 as int)) as i32,
        y: crate::geometry::saturated(halved_to_zero(p.y2 as int)) as i32,
    }
}

fn halve_to_zero(n: i64) -> (h: i64)
    requires
        n > i64::MIN,
    ensures
        h == halved_to_zero(n as int),
{
    if n >= 0 {
        n / 2
    } else {
        -((-n) / 2)
    }
}

/// The center of a window's content on the canvas.
pub open spec fn content_center(location: Point, geometry: Rect) -> HalfPoint {
    (Rect { loc: location, size: geometry.size }).middle()
}

/// The first mapped output whose visible part of the canvas covers a point.
pub open spec fn shown_at(outputs: Seq<Output>, visible: Seq<Rect>, p: Point, i: int) -> bool {
    &&& 0 <= i < outputs.len()
    &&& outputs[i].location is Some
    &&& visible[i].covers(p.x as int, p.y as int)
    &&& forall|j: int|
        0 <= j < i ==> !((#[trigger] outputs[j]).location is Some && visible[j].covers(
            p.x as int,
            p.y as int,
        ))
}

/// How far a coordinate lies outside of the range from `low` up to but not
/// including `high`.
pub open spec fn gap(low: int, high: int, at: int) -> int {
    if at < low {
        low - at
    } else if at >= high {
        at - high + 1
    } else {
        0
    }
}

/// The square of the distance from a pixel to a rectangle.
pub open spec fn distance_squared(r: Rect, p: Point) -> int {
    let dx = gap(r.loc.x as int, r.right(), p.x as int);
    let dy = gap(r.loc.y as int, r.bottom(), p.y as int);
    dx * dx + dy * dy
}

/// The mapped output at `i` shows the part of the canvas that is nearest to a
/// point, and of several equally near ones it is the first.
pub open spec fn nearest_at(outputs: Seq<Output>, visible: Seq<Rect>, p: Point, i: int) -> bool {
    &&& 0 <= i < outputs.len()
    &&& outputs[i].location is Some
    &&& forall|j: int|
        0 <= j < outputs.len() && (#[trigger] outputs[j]).location is Some ==> {
            &&& distance_squared(visible[i], p) <= distance_squared(visible[j], p)
            &&& j < i ==> distance_squared(visible[i], p) < distance_squared(visible[j], p)
        }
}

/// Some mapped output shows a part of a rectangle.
pub open spec fn shown_somewhere(outputs: Seq<Output>, visible: Seq<Rect>, r: Rect) -> bool {
    exists|i: int|
        0 <= i < outputs.len() && (#[trigger] outputs[i]).location is Some && visible[i].meets(r)
}

fn gap_of(low: i32, high: i32, at: i32) -> (d: u64)
    ensures
        d == gap(low as int, high as int, at as int),
        d <= 0x1_0000_0000,
{
    if at < low {
        (low as i64 - at as i64) as u64
    } else if at >= high {
        (at as i64 - high as i64 + 1) as u64
    } else {
        0
    }
}

fn squared_distance(r: &Rect, p: Point) -> (d: u128)
    ensures
        d == distance_squared(*r, p),
{
    let right: i32 = saturating_sum(r.loc.x, r.size.w);
    let bottom: i32 = saturating_sum(r.loc.y, r.size.h);
    let dx: u128 = gap_of(r.loc.x, right, p.x) as u128;
    let dy: u128 = gap_of(r.loc.y, bottom, p.y) as u128;
    assert(dx * dx <= 0x1_0000_0000_0000_0000 && dy * dy <= 0x1_0000_0000_0000_0000)
        by (nonlinear_arith)
        requires
            0 <= dx <= 0x1_0000_0000,
            0 <= dy <= 0x1_0000_0000,
    ;
    dx * dx + dy * dy
}

/// How far an output lies from another one, and how well it lies in a direction.
#[derive(Clone, Copy, Debug)]
pub struct Bearing {
    /// The distance of the centers.
    pub dist: Scalar,
    /// The component of the unit vector from one center to the other that leads
    /// in the direction.
    pub dot: Scalar,
}

/// The output at `i` is a candidate in the direction that the bearings were taken
/// for: mapped, another output than `from`, at least one pixel away, and within
/// about 60 degrees of the direction.
pub open spec fn in_direction(
    outputs: Seq<Output>,
    bearings: Seq<Bearing>,
    from: u64,
    i: int,
) -> bool {
    &&& 0 <= i < outputs.len()
    &&& outputs[i].location is Some
    &&& outputs[i].id != from
    &&& !bearings[i].dist.below(Scalar { bits: ONE_BITS })
    &&& (Scalar { bits: HALF_BITS }).below(bearings[i].dot)
}

/// The output at `i` is the nearest candidate, and of several equally near ones
/// the first.
pub open spec fn nearest_in_direction(
    outputs: Seq<Output>,
    bearings: Seq<Bearing>,
    from: u64,
    i: int,
) -> bool {
    &&& in_direction(outputs, bearings, from, i)
    &&& forall|j: int| #[trigger]
        in_direction(outputs, bearings, from, j) ==> {
            &&& bearings[i].dist.total_rank() <= bearings[j].dist.total_rank()
            &&& j < i ==> bearings[i].dist.total_rank() < bearings[j].dist.total_rank()
        }
}

/// The output covers a position in layout space.
pub open spec fn covers_layout_pos(output: Output, pos: PointF) -> bool {
    let at = output.viewport().layout_position;
    let size = output.logical_size();
    &&& output.location is Some
    &&& pos.x.at_least_spec(Scalar::of_int(at.x as int))
    &&& pos.x.below(Scalar::of_int(at.x + size.w))
    &&& pos.y.at_least_spec(Scalar::of_int(at.y as int))
    &&& pos.y.below(Scalar::of_int(at.y + size.h))
}

/// A camera position, rounded to whole pixels.
pub open spec fn rounded_camera(camera: PointF) -> Point {
    Point {
        x: crate::geometry::saturated(camera.x.nearest()) as i32,
        y: crate::geometry::saturated(camera.y.nearest()) as i32,
    }
}

/// An output after its position was synced to its camera.
pub open spec fn synced(output: Output) -> Output {
    if output.location is Some {
        Output { location: Some(rounded_camera(output.viewport().camera)), ..output }
    } else {
        output
    }
}

/// The output's position on the canvas is known and is that of its camera.
pub open spec fn in_sync(output: Output) -> bool {
    output.location is Some ==> output.mode is Some && output.location == Some(
        rounded_camera(output.viewport().camera),
    )
}

impl DriftWm {
    /// Get the fullscreen state for the active output (if any).
    pub fn active_fullscreen(&self) -> (state: Option<FullscreenState>)
        requires
            self.wf(),
        ensures
            state == (match self.active() {
                Some(output) => self.fullscreen_on(output.id),
                None => None,
            }),
    {
        match self.active_index() {
            Some(i) => self.fullscreen_state(self.outputs[i].id),
            None => None,
        }
    }

    /// The fullscreen state of an output (if any).
    fn fullscreen_state(&self, output: u64) -> (state: Option<FullscreenState>)
        requires
            self.wf(),
        ensures
            state == self.fullscreen_on(output),
    {
        let mut i: usize = 0;
        while i < self.fullscreen.len()
            invariant
                i <= self.fullscreen.len(),
                self.wf(),
                forall|j: int|
                    0 <= j < i ==> (#[trigger] self.fullscreen@[j]).output != output,
            decreases self.fullscreen.len() - i,
        {
            if self.fullscreen[i].output == output {
                proof {
                    crate::state::view::lemma_fullscreen_place(
                        self.fullscreen@,
                        output,
                        i as int,
                    );
                }
                return Some(self.fullscreen[i].state);
            }
            i += 1;
        }
        None
    }

    /// The focused output is the active one.
    proof fn lemma_focused_is_active(self)
        requires
            self.wf(),
        ensures
            forall|i: int|
                0 <= i < self.outputs.len() && self.focused_output == Some(
                    (#[trigger] self.outputs@[i]).id,
                ) ==> self.active() == Some(self.outputs@[i]),
    {
        assert forall|i: int|
            0 <= i < self.outputs.len() && self.focused_output == Some(
                (#[trigger] self.outputs@[i]).id,
            ) implies self.active() == Some(self.outputs@[i]) by {
            crate::state::view::lemma_active_output(self, i);
        }
    }

    /// Check if the active output is in fullscreen mode.
    pub fn is_fullscreen(&self) -> (b: bool)
        requires
            self.wf(),
        ensures
            b == (self.active() matches Some(output) && self.fullscreen_on(output.id) is Some),
    {
        self.active_fullscreen().is_some()
    }

    /// Check if a specific output is in fullscreen mode.
    pub fn is_output_fullscreen(&self, output: u64) -> (b: bool)
        requires
            self.wf(),
        ensures
            b == (self.fullscreen_on(output) is Some),
    {
        self.fullscreen_state(output).is_some()
    }

    /// Logical viewport size of the active (pointer-focused) output; one pixel
    /// without an output.
    pub fn get_viewport_size(&self) -> (size: Size)
        requires
            self.wf(),
        ensures
            size == (match self.active() {
                Some(output) => output.logical_size(),
                None => Size { w: 1, h: 1 },
            }),
            forall|i: int|
                0 <= i < self.outputs.len() && self.focused_output == Some(
                    (#[trigger] self.outputs@[i]).id,
                ) && self.outputs@[i].mode is Some ==> size == self.outputs@[i].scaled_size,
    {
        proof {
            self.lemma_focused_is_active();
        }
        match self.active_index() {
            Some(i) => output_logical_size(&self.outputs[i]),
            None => Size { w: 1, h: 1 },
        }
    }

    /// What `get_usable_area` returns.
    pub open spec fn usable_area(self) -> Rect {
        match self.active() {
            Some(output) => output.usable,
            None => Rect { loc: Point { x: 0, y: 0 }, size: Size { w: 1, h: 1 } },
        }
    }

    /// Viewport area minus exclusive zones (panels, bars).
    pub fn get_usable_area(&self) -> (area: Rect)
        requires
            self.wf(),
        ensures
            area == self.usable_area(),
            forall|i: int|
                0 <= i < self.outputs.len() && self.focused_output == Some(
                    (#[trigger] self.outputs@[i]).id,
                ) ==> area == self.outputs@[i].usable,
    {
        proof {
            self.lemma_focused_is_active();
        }
        match self.active_index() {
            Some(i) => self.outputs[i].usable,
            None => Rect { loc: Point { x: 0, y: 0 }, size: Size { w: 1, h: 1 } },
        }
    }

    /// Screen-space center of the usable area (accounts for panel exclusive
    /// zones), in half pixels.
    pub fn usable_center_screen(&self) -> (c: HalfPoint)
        requires
            self.wf(),
        ensures
            c == self.usable_area().middle(),
            forall|i: int|
                0 <= i < self.outputs.len() && self.focused_output == Some(
                    (#[trigger] self.outputs@[i]).id,
                ) ==> {
                    let area = self.outputs@[i].usable;
                    &&& c.x2 - 2 * area.loc.x == 2 * (area.loc.x + area.size.w) - c.x2
                    &&& c.y2 - 2 * area.loc.y == 2 * (area.loc.y + area.size.h) - c.y2
                },
    {
        proof {
            self.lemma_focused_is_active();
        }
        self.get_usable_area().center()
    }

    /// The id of the active output.
    pub open spec fn active_id(self) -> Option<u64> {
        match self.active() {
            Some(output) => Some(output.id),
            None => None,
        }
    }

    /// Find the output whose viewport contains, or is nearest to, a window's
    /// center. `visible` is the part of the canvas that each output shows. Falls
    /// back to active output if the window isn't visible on any output; a window
    /// that is not on the canvas never is.
    pub fn output_for_window(&self, window: u64, visible: &Vec<Rect>) -> (r: Option<u64>)
        requires
            self.wf(),
            visible.len() == self.outputs.len(),
        ensures
            match crate::state::windows::window_by_id(self.windows@, window) {
                Some(w) => {
                    let center = pixel_of(content_center(w.location, w.geometry));
                    let content = Rect { loc: w.location, size: w.geometry.size };
                    if exists|i: int| shown_at(self.outputs@, visible@, center, i) {
                        exists|i: int| #[trigger]
                            shown_at(self.outputs@, visible@, center, i) && r == Some(
                                self.outputs@[i].id,
                            )
                    } else if shown_somewhere(self.outputs@, visible@, content) {
                        exists|i: int| #[trigger]
                            nearest_at(self.outputs@, visible@, center, i) && r == Some(
                                self.outputs@[i].id,
                            )
                    } else {
                        r == self.active_id()
                    }
                },
                None => r == self.active_id(),
            },
    {
        let at: usize = match find_id(&self.windows, window) {
            Some(at) => at,
            None => {
                return self.active_output();
            },
        };
        let w = &self.windows[at];
        let content: Rect = Rect { loc: w.location, size: w.geometry.size };
        let middle: HalfPoint = content.center();
        let center: Point = Point {
            x: saturating_i32(halve_to_zero(middle.x2)),
            y: saturating_i32(halve_to_zero(middle.y2)),
        };
        let mut seen: bool = false;
        let mut best: Option<usize> = None;
        let mut i: usize = 0;
        while i < self.outputs.len()
            invariant
                i <= self.outputs.len(),
                visible.len() == self.outputs.len(),
                crate::state::windows::window_by_id(self.windows@, window) == Some(*w),
                center == pixel_of(content_center(w.location, w.geometry)),
                content == (Rect { loc: w.location, size: w.geometry.size }),
                forall|j: int|
                    0 <= j < i ==> !((#[trigger] self.outputs@[j]).location is Some
                        && visible@[j].covers(center.x as int, center.y as int)),
                seen <==> exists|j: int|
                    0 <= j < i && (#[trigger] self.outputs@[j]).location is Some
                        && visible@[j].meets(content),
                match best {
                    Some(b) => {
                        &&& b < i
                        &&& self.outputs@[b as int].location is Some
                        &&& forall|j: int|
                            0 <= j < i && (#[trigger] self.outputs@[j]).location is Some ==> {
                                &&& distance_squared(visible@[b as int], center)
                                    <= distance_squared(visible@[j], center)
                                &&& j < b ==> distance_squared(visible@[b as int], center)
                                    < distance_squared(visible@[j], center)
                            }
                    },
                    None => forall|j: int|
                        0 <= j < i ==> (#[trigger] self.outputs@[j]).location is None,
                },
            decreases self.outputs.len() - i,
        {
            if self.outputs[i].location.is_some() {
                if visible[i].contains(center) {
                    assert(shown_at(self.outputs@, visible@, center, i as int));
                    return Some(self.outputs[i].id);
                }
                if visible[i].overlaps(&content) {
                    seen = true;
                    assert(self.outputs@[i as int].location is Some && visible@[i as int].meets(
                        content,
                    ));
                }
                match best {
                    Some(b) => {
                        if squared_distance(&visible[i], center) < squared_distance(
                            &visible[b],
                            center,
                        ) {
                            best = Some(i);
                        }
                    },
                    None => {
                        best = Some(i);
                    },
                }
            }
            i += 1;
        }
        match best {
            Some(b) => {
                if seen {
                    assert(nearest_at(self.outputs@, visible@, center, b as int));
                    Some(self.outputs[b].id)
                } else {
                    self.active_output()
                }
            },
            None => self.active_output(),
        }
    }

    /// How far the center of each output lies from that of the output at `from`
    /// in layout space, in half pixels.
    pub fn output_offsets(&self, from: &Output) -> (offsets: Vec<HalfPoint>)
        requires
            self.wf(),
            from.ready(),
        ensures
            offsets.len() == self.outputs.len(),
            forall|i: int|
                0 <= i < self.outputs.len() ==> {
                    &&& (#[trigger] offsets@[i]).x2 == self.outputs@[i].layout_center().x2
                        - from.layout_center().x2
                    &&& offsets@[i].y2 == self.outputs@[i].layout_center().y2
                        - from.layout_center().y2
                },
    {
        let start: HalfPoint = layout_center(from);
        let mut offsets: Vec<HalfPoint> = Vec::new();
        let mut i: usize = 0;
        while i < self.outputs.len()
            invariant
                i <= self.outputs.len(),
                self.wf(),
                start == from.layout_center(),
                offsets.len() == i,
                forall|j: int|
                    0 <= j < i ==> {
                        &&& (#[trigger] offsets@[j]).x2 == self.outputs@[j].layout_center().x2
                            - start.x2
                        &&& offsets@[j].y2 == self.outputs@[j].layout_center().y2 - start.y2
                    },
            decreases self.outputs.len() - i,
        {
            assert(self.outputs@[i as int].ready());
            let center: HalfPoint = layout_center(&self.outputs[i]);
            offsets.push(HalfPoint { x2: center.x2 - start.x2, y2: center.y2 - start.y2 });
            i += 1;
        }
        offsets
    }

    /// Find the nearest output in a direction from `from`, given the bearing of
    /// each output.
    pub fn output_in_direction(&self, from: u64, bearings: &Vec<Bearing>) -> (r: Option<u64>)
        requires
            bearings.len() == self.outputs.len(),
        ensures
            match r {
                Some(id) => exists|i: int|
                    nearest_in_direction(self.outputs@, bearings@, from, i) && id
                        == self.outputs@[i].id,
                None => forall|i: int| !in_direction(self.outputs@, bearings@, from, i),
            },
    {
        let mut best: Option<usize> = None;
        let mut i: usize = 0;
        while i < self.outputs.len()
            invariant
                i <= self.outputs.len(),
                bearings.len() == self.outputs.len(),
                match best {
                    Some(b) => {
                        &&& b < i
                        &&& in_direction(self.outputs@, bearings@, from, b as int)
                        &&& forall|j: int| #[trigger]
                            in_direction(self.outputs@, bearings@, from, j) && j < i ==> {
                                &&& bearings@[b as int].dist.total_rank()
                                    <= bearings@[j].dist.total_rank()
                                &&& j < b ==> bearings@[b as int].dist.total_rank()
                                    < bearings@[j].dist.total_rank()
                            }
                    },
                    None => forall|j: int|
                        j < i ==> !in_direction(self.outputs@, bearings@, from, j),
                },
            decreases self.outputs.len() - i,
        {
            let bearing: Bearing = bearings[i];
            if self.outputs[i].location.is_some() && self.outputs[i].id != from
                && !bearing.dist.less_than(Scalar::one()) && Scalar::half().less_than(bearing.dot) {
                assert(in_direction(self.outputs@, bearings@, from, i as int));
                match best {
                    Some(b) => {
                        if bearing.dist.precedes(bearings[b].dist) {
                            best = Some(i);
                        }
                    },
                    None => {
                        best = Some(i);
                    },
                }
            }
            i += 1;
        }
        match best {
            Some(b) => {
                assert(nearest_in_direction(self.outputs@, bearings@, from, b as int));
                Some(self.outputs[b].id)
            },
            None => None,
        }
    }

    /// Find which output's layout rectangle contains `pos` in layout space.
    /// Uses the layout position and the output's size, not its position on the
    /// canvas.
    pub fn output_at_layout_pos(&self, pos: PointF) -> (r: Option<u64>)
        requires
            self.wf(),
            forall|i: int|
                0 <= i < self.outputs.len() && (#[trigger] self.outputs@[i]).location is Some
                    ==> self.outputs@[i].layout_fits(),
        ensures
            match r {
                Some(id) => exists|i: int|
                    {
                        &&& 0 <= i < self.outputs.len()
                        &&& (#[trigger] self.outputs@[i]).id == id
                        &&& covers_layout_pos(self.outputs@[i], pos)
                        &&& forall|j: int|
                            0 <= j < i ==> !covers_layout_pos(#[trigger] self.outputs@[j], pos)
                    },
                None => forall|i: int|
                    0 <= i < self.outputs.len() ==> !covers_layout_pos(
                        #[trigger] self.outputs@[i],
                        pos,
                    ),
            },
            r matches Some(id) ==> exists|i: int|
                {
                    &&& 0 <= i < self.outputs.len()
                    &&& (#[trigger] self.outputs@[i]).id == id
                    &&& self.outputs@[i].location is Some
                    &&& !pos.x.below(
                        Scalar::of_int(self.outputs@[i].state->0.layout_position.x as int),
                    )
                    &&& !pos.y.below(
                        Scalar::of_int(self.outputs@[i].state->0.layout_position.y as int),
                    )
                    &&& self.outputs@[i].mode is Some ==> {
                        &&& pos.x.below(
                            Scalar::of_int(
                                self.outputs@[i].state->0.layout_position.x
                                    + self.outputs@[i].scaled_size.w,
                            ),
                        )
                        &&& pos.y.below(
                            Scalar::of_int(
                                self.outputs@[i].state->0.layout_position.y
                                    + self.outputs@[i].scaled_size.h,
                            ),
                        )
                    }
                },
    {
        let mut i: usize = 0;
        while i < self.outputs.len()
            invariant
                i <= self.outputs.len(),
                self.wf(),
                forall|j: int|
                    0 <= j < self.outputs.len() && (#[trigger] self.outputs@[j]).location is Some
                        ==> self.outputs@[j].layout_fits(),
                forall|j: int| 0 <= j < i ==> !covers_layout_pos(#[trigger] self.outputs@[j], pos),
            decreases self.outputs.len() - i,
        {
            let output: &Output = &self.outputs[i];
            assert(self.outputs@[i as int].ready());
            let at: Point = output_state(output).layout_position;
            let size: Size = output_logical_size(output);
            if output.location.is_some() && pos.x.at_least(Scalar::from_i32(at.x))
                && pos.x.less_than(Scalar::from_i32(at.x + size.w)) && pos.y.at_least(
                Scalar::from_i32(at.y),
            ) && pos.y.less_than(Scalar::from_i32(at.y + size.h)) {
                return Some(output.id);
            }
            i += 1;
        }
        None
    }

    /// Sync each output's position to its camera, so that rendering
    /// automatically applies the transform from canvas to screen.
    pub fn update_output_from_camera(&mut self)
        requires
            old(self).wf(),
            old(self).render.blur_camera_generation < u64::MAX,
        ensures
            final(self).wf(),
            final(self).outputs@ == old(self).outputs@.map_values(|output: Output| synced(output)),
            final(self).render.blur_camera_generation == old(self).render.blur_camera_generation
                + (if forall|i: int|
                0 <= i < old(self).outputs.len() ==> in_sync(#[trigger] old(self).outputs@[i]) {
                0int
            } else {
                1
            }),
            *final(self) == (DriftWm {
                outputs: final(self).outputs,
                render: crate::state::wm::RenderCache {
                    blur_camera_generation: final(self).render.blur_camera_generation,
                    ..old(self).render
                },
                ..*old(self)
            }),
    {
        let mut changed: bool = false;
        let mut i: usize = 0;
        while i < self.outputs.len()
            invariant
                i <= self.outputs.len(),
                self.outputs.len() == old(self).outputs.len(),
                old(self).wf(),
                *self == (DriftWm { outputs: self.outputs, ..*old(self) }),
                forall|j: int|
                    0 <= j < i ==> #[trigger] self.outputs@[j] == synced(old(self).outputs@[j]),
                forall|j: int|
                    i <= j < self.outputs.len() ==> #[trigger] self.outputs@[j] == old(
                        self,
                    ).outputs@[j],
                changed <==> exists|j: int|
                    0 <= j < i && !in_sync(#[trigger] old(self).outputs@[j]),
            decreases self.outputs.len() - i,
        {
            assert(old(self).outputs@[i as int].ready());
            assert(self.outputs@[i as int] == old(self).outputs@[i as int]);
            if let Some(location) = self.outputs[i].location {
                let camera: PointF = output_state(&self.outputs[i]).camera;
                let cam: Point = Point {
                    x: camera.x.round_to_i32(),
                    y: camera.y.round_to_i32(),
                };
                if self.outputs[i].mode.is_none() || location != cam {
                    assert(!in_sync(old(self).outputs@[i as int]));
                    changed = true;
                }
                let output: &mut Output = &mut self.outputs[i];
                output.location = Some(cam);
            }
            i += 1;
        }
        if changed {
            self.render.blur_camera_generation = self.render.blur_camera_generation + 1;
        }
        proof {
            assert(self.outputs@ =~= old(self).outputs@.map_values(|output: Output| synced(output)));
            self.lemma_wf_with_outputs(*old(self));
        }
    }

    pub fn cursor_is_animated(&self) -> (b: bool)
        ensures
            b == self.cursor.animated,
    {
        self.cursor.animated
    }

    /// True if a specific output has per-output animations in progress.
    pub fn output_has_active_animations(&self, output: &Output) -> (b: bool)
        requires
            output.ready(),
        ensures
            b == output.viewport().animating(),
    {
        output_state(output).is_animating()
    }

    /// True if any animation is still in progress and needs continued rendering.
    pub fn has_active_animations(&self) -> (b: bool)
        requires
            self.wf(),
        ensures
            b == {
                ||| exists|i: int|
                    0 <= i < self.outputs.len() && (#[trigger] self.outputs@[i]).location is Some
                        && self.outputs@[i].viewport().animating()
                ||| self.held_action is Some
                ||| self.cursor.exec_cursor_show_at is Some
                ||| self.cursor.exec_cursor_deadline is Some
                ||| self.cursor.animated
            },
    {
        let mut i: usize = 0;
        while i < self.outputs.len()
            invariant
                i <= self.outputs.len(),
                self.wf(),
                forall|j: int|
                    0 <= j < i ==> !((#[trigger] self.outputs@[j]).location is Some
                        && self.outputs@[j].viewport().animating()),
            decreases self.outputs.len() - i,
        {
            assert(self.outputs@[i as int].ready());
            if self.outputs[i].location.is_some() && self.output_has_active_animations(
                &self.outputs[i],
            ) {
                return true;
            }
            i += 1;
        }
        self.held_action.is_some() || self.cursor.exec_cursor_show_at.is_some()
            || self.cursor.exec_cursor_deadline.is_some() || self.cursor.animated
    }
}

/// Once every mapped output has a mode, syncing a second time moves nothing and
/// reports no change.
pub proof fn lemma_sync_settles(output: Output)
    ensures
        synced(synced(output)) == synced(output),
        output.location is Some ==> output.mode is Some ==> in_sync(synced(output)),
{
}

/// Of two outputs at most one is the nearest in a direction.
pub proof fn lemma_nearest_is_unique(
    outputs: Seq<Output>,
    bearings: Seq<Bearing>,
    from: u64,
    i: int,
    j: int,
)
    requires
        nearest_in_direction(outputs, bearings, from, i),
        nearest_in_direction(outputs, bearings, from, j),
    ensures
        i == j,
{
}

/// An output covers a position in layout space exactly when its layout rectangle
/// holds the pixel that the position lies in, on both axes. The pixel of a
/// position is `(x, y)` when the position lies from `x` up to `x + 1` and from `y`
/// up to `y + 1`; an output without a mode is one pixel large.
pub proof fn lemma_layout_rectangle_holds_the_pixel(output: Output, pos: PointF, x: int, y: int)
    requires
        i32::MIN <= x < i32::MAX,
        i32::MIN <= y < i32::MAX,
        pos.x.at_least_spec(Scalar::of_int(x)),
        pos.x.below(Scalar::of_int(x + 1)),
        pos.y.at_least_spec(Scalar::of_int(y)),
        pos.y.below(Scalar::of_int(y + 1)),
        output.layout_fits(),
    ensures
        ({
            let at = output.state->0.layout_position;
            let w = if output.mode is Some { output.scaled_size.w as int } else { 1 };
            let h = if output.mode is Some { output.scaled_size.h as int } else { 1 };
            covers_layout_pos(output, pos) <==> output.location is Some && at.x <= x < at.x + w
                && at.y <= y < at.y + h
        }),
{
    let at = output.state->0.layout_position;
    let size = output.logical_size();
    crate::numbers::lemma_of_int_orders(at.x as int, x);
    crate::numbers::lemma_of_int_orders(at.x as int, x + 1);
    crate::numbers::lemma_of_int_orders(at.x + size.w, x);
    crate::numbers::lemma_of_int_orders(at.x + size.w, x + 1);
    crate::numbers::lemma_of_int_orders(at.y as int, y);
    crate::numbers::lemma_of_int_orders(at.y as int, y + 1);
    crate::numbers::lemma_of_int_orders(at.y + size.h, y);
    crate::numbers::lemma_of_int_orders(at.y + size.h, y + 1);
    crate::numbers::lemma_of_int_value(at.x as int);
    crate::numbers::lemma_of_int_value(at.y as int);
    crate::numbers::lemma_of_int_value(at.x + size.w);
    crate::numbers::lemma_of_int_value(at.y + size.h);
}

/// At a whole-number position an output covers the position exactly when the
/// position is a pixel of its layout rectangle, and a position without a number is
/// covered by none.
pub proof fn lemma_layout_rectangle_holds_whole_positions(
    output: Output,
    pos: PointF,
    x: int,
    y: int,
)
    requires
        i32::MIN <= x <= i32::MAX,
        i32::MIN <= y <= i32::MAX,
        output.layout_fits(),
    ensures
        pos == (PointF { x: Scalar::of_int(x), y: Scalar::of_int(y) }) ==> (covers_layout_pos(
            output,
            pos,
        ) <==> {
            let at = output.state->0.layout_position;
            let w = if output.mode is Some { output.scaled_size.w as int } else { 1 };
            let h = if output.mode is Some { output.scaled_size.h as int } else { 1 };
            output.location is Some && at.x <= x < at.x + w && at.y <= y < at.y + h
        }),
        pos.x.nan() || pos.y.nan() ==> !covers_layout_pos(output, pos),
{
    let at = output.state->0.layout_position;
    let size = output.logical_size();
    crate::numbers::lemma_of_int_orders(x, at.x as int);
    crate::numbers::lemma_of_int_orders(x, at.x + size.w);
    crate::numbers::lemma_of_int_orders(y, at.y as int);
    crate::numbers::lemma_of_int_orders(y, at.y + size.h);
}

/// The pixel of a position in half pixels lies at most half a pixel from it, on
/// the side of zero, as long as it can be written down.
pub proof fn lemma_pixel_lies_towards_zero(p: HalfPoint)
    requires
        2 * i32::MIN <= p.x2 <= 2 * i32::MAX,
        2 * i32::MIN <= p.y2 <= 2 * i32::MAX,
    ensures
        p.x2 >= 0 ==> 0 <= p.x2 - 2 * pixel_of(p).x <= 1,
        p.x2 <= 0 ==> -1 <= p.x2 - 2 * pixel_of(p).x <= 0,
        p.y2 >= 0 ==> 0 <= p.y2 - 2 * pixel_of(p).y <= 1,
        p.y2 <= 0 ==> -1 <= p.y2 - 2 * pixel_of(p).y <= 0,
{
}

/// The center of a window's content is as far from its left side as from its
/// right one, and as far from its top as from its bottom.
pub proof fn lemma_content_center_is_in_the_middle(location: Point, geometry: Rect)
    ensures
        ({
            let c = content_center(location, geometry);
            &&& c.x2 - 2 * location.x == 2 * (location.x + geometry.size.w) - c.x2
            &&& c.y2 - 2 * location.y == 2 * (location.y + geometry.size.h) - c.y2
        }),
{
}

/// The distance to a rectangle is that to its nearest pixel: no pixel of it is
/// nearer, and one is as near.
pub proof fn lemma_distance_is_to_the_nearest_pixel(r: Rect, p: Point, x: int, y: int)
    requires
        r.loc.x < r.right(),
        r.loc.y < r.bottom(),
    ensures
        r.loc.x <= x < r.right() && r.loc.y <= y < r.bottom() ==> distance_squared(r, p) <= (p.x
            - x) * (p.x - x) + (p.y - y) * (p.y - y),
        exists|u: int, v: int|
            #![trigger r.covers(u, v)]
            r.loc.x <= u < r.right() && r.loc.y <= v < r.bottom() && r.covers(u, v)
                && distance_squared(r, p) == (p.x - u) * (p.x - u) + (p.y - v) * (p.y - v),
        distance_squared(r, p) == 0 <==> r.loc.x <= p.x < r.right() && r.loc.y <= p.y
            < r.bottom(),
{
    let dx = gap(r.loc.x as int, r.right(), p.x as int);
    let dy = gap(r.loc.y as int, r.bottom(), p.y as int);
    let u = if p.x < r.loc.x {
        r.loc.x as int
    } else if p.x >= r.right() {
        r.right() - 1
    } else {
        p.x as int
    };
    let v = if p.y < r.loc.y {
        r.loc.y as int
    } else if p.y >= r.bottom() {
        r.bottom() - 1
    } else {
        p.y as int
    };
    assert(r.covers(u, v));
    assert((p.x - u) * (p.x - u) == dx * dx && (p.y - v) * (p.y - v) == dy * dy)
        by (nonlinear_arith)
        requires
            p.x - u == dx || p.x - u == -dx,
            p.y - v == dy || p.y - v == -dy,
    ;
    if r.loc.x <= x < r.right() && r.loc.y <= y < r.bottom() {
        assert(dx * dx <= (p.x - x) * (p.x - x)) by (nonlinear_arith)
            requires
                dx >= 0,
                p.x - x >= dx || x - p.x >= dx,
        ;
        assert(dy * dy <= (p.y - y) * (p.y - y)) by (nonlinear_arith)
            requires
                dy >= 0,
                p.y - y >= dy || y - p.y >= dy,
        ;
    }
    assert((dx == 0 <==> dx * dx == 0) && (dy == 0 <==> dy * dy == 0) && dx * dx >= 0 && dy * dy
        >= 0) by (nonlinear_arith);
}

/// The output that a window is on shows the window's center whenever a mapped
/// output does: it is the first one whose visible rectangle holds the center's
/// pixel, on both axes.
pub proof fn lemma_shown_output_holds_the_point(
    outputs: Seq<Output>,
    visible: Seq<Rect>,
    p: Point,
    i: int,
)
    requires
        visible.len() == outputs.len(),
        p.x < i32::MAX,
        p.y < i32::MAX,
    ensures
        shown_at(outputs, visible, p, i) <==> {
            &&& 0 <= i < outputs.len()
            &&& outputs[i].location is Some
            &&& visible[i].loc.x <= p.x < visible[i].loc.x + visible[i].size.w
            &&& visible[i].loc.y <= p.y < visible[i].loc.y + visible[i].size.h
            &&& forall|j: int|
                0 <= j < i ==> {
                    ||| (#[trigger] outputs[j]).location is None
                    ||| p.x < visible[j].loc.x
                    ||| p.x >= visible[j].loc.x + visible[j].size.w
                    ||| p.y < visible[j].loc.y
                    ||| p.y >= visible[j].loc.y + visible[j].size.h
                }
        },
{
}

/// The nearest output is mapped, and no pixel that another mapped output shows is
/// nearer to the point than every pixel that it shows. There is one such output
/// at most: of several equally near ones it is the first.
pub proof fn lemma_nearest_output_has_the_nearest_pixel(
    outputs: Seq<Output>,
    visible: Seq<Rect>,
    p: Point,
    i: int,
    j: int,
    x: int,
    y: int,
)
    requires
        visible.len() == outputs.len(),
        nearest_at(outputs, visible, p, i),
        visible[i].loc.x < visible[i].right(),
        visible[i].loc.y < visible[i].bottom(),
        0 <= j < outputs.len(),
        outputs[j].location is Some,
        visible[j].loc.x <= x < visible[j].right(),
        visible[j].loc.y <= y < visible[j].bottom(),
    ensures
        outputs[i].location is Some,
        exists|u: int, v: int|
            #![trigger visible[i].covers(u, v)]
            visible[i].covers(u, v) && (p.x - u) * (p.x - u) + (p.y - v) * (p.y - v) <= (p.x - x)
                * (p.x - x) + (p.y - y) * (p.y - y),
        nearest_at(outputs, visible, p, j) ==> j == i,
        j < i ==> distance_squared(visible[j], p) != distance_squared(visible[i], p),
{
    lemma_distance_is_to_the_nearest_pixel(visible[i], p, x, y);
    lemma_distance_is_to_the_nearest_pixel(visible[j], p, x, y);
}

/// An output found in a direction is mapped, is not the one that was asked from,
/// lies at least a pixel away and within the cone of the direction, and no other
/// such output is nearer; of several equally near ones it is the first.
pub proof fn lemma_output_in_direction_is_nearest(
    outputs: Seq<Output>,
    bearings: Seq<Bearing>,
    from: u64,
    i: int,
    j: int,
)
    requires
        nearest_in_direction(outputs, bearings, from, i),
    ensures
        outputs[i].location is Some,
        outputs[i].id != from,
        bearings[i].dist.nan() || bearings[i].dist.at_least_spec(Scalar::of_int(1)),
        (Scalar { bits: HALF_BITS }).below(bearings[i].dot),
        0 <= i < outputs.len(),
        0 <= j < outputs.len() && outputs[j].location is Some && outputs[j].id != from
            && bearings[j].dist.at_least_spec(Scalar::of_int(1)) && (Scalar {
            bits: HALF_BITS,
        }).below(bearings[j].dot) ==> {
            &&& !bearings[j].dist.below(bearings[i].dist)
            &&& j < i ==> bearings[j].dist.bits != bearings[i].dist.bits
        },
{
    crate::numbers::lemma_one_and_half();
    if 0 <= j < outputs.len() && outputs[j].location is Some && outputs[j].id != from
        && bearings[j].dist.at_least_spec(Scalar::of_int(1)) && (Scalar { bits: HALF_BITS }).below(
        bearings[j].dot,
    ) {
        assert(in_direction(outputs, bearings, from, j));
    }
}

/// Every mapped output that lies in a direction, at least a pixel away, is a
/// candidate, so that `None` means that there is none.
pub proof fn lemma_every_output_in_the_cone_counts(
    outputs: Seq<Output>,
    bearings: Seq<Bearing>,
    from: u64,
    i: int,
)
    requires
        0 <= i < outputs.len(),
        outputs[i].location is Some,
        outputs[i].id != from,
        bearings[i].dist.at_least_spec(Scalar::of_int(1)),
        (Scalar { bits: HALF_BITS }).below(bearings[i].dot),
    ensures
        in_direction(outputs, bearings, from, i),
{
    crate::numbers::lemma_one_and_half();
}

/// Syncing puts a mapped output on the pixel of its camera and touches nothing
/// else; an output that is not mapped stays as it is. A change is reported for an
/// output exactly when it moves or has no mode.
pub proof fn lemma_sync_puts_outputs_on_their_cameras(output: Output, x: int, y: int)
    requires
        i32::MIN <= x <= i32::MAX,
        i32::MIN <= y <= i32::MAX,
    ensures
        synced(output).location is Some <==> output.location is Some,
        synced(output) == (Output { location: synced(output).location, ..output }),
        output.location is Some && output.state->0.camera == (PointF {
            x: Scalar::of_int(x),
            y: Scalar::of_int(y),
        }) ==> synced(output).location == Some(Point { x: x as i32, y: y as i32 }),
        output.location is Some && output.state->0.camera.x.nan() ==> synced(
            output,
        ).location->0.x == 0,
        output.location is Some && output.state->0.camera.y.nan() ==> synced(
            output,
        ).location->0.y == 0,
        in_sync(output) <==> output.location is None || (output.mode is Some && synced(
            output,
        ).location == output.location),
{
    crate::numbers::lemma_of_int_value(x);
    crate::numbers::lemma_of_int_value(y);
}

/// A window is seen somewhere exactly when some mapped output shows a part of it: the
/// two rectangles reach into each other on both axes.
pub proof fn lemma_seen_where_an_output_shows_it(
    outputs: Seq<Output>,
    visible: Seq<Rect>,
    r: Rect,
)
    requires
        visible.len() == outputs.len(),
        r.size.w > 0,
        r.size.h > 0,
        r.loc.x + r.size.w <= i32::MAX,
        r.loc.y + r.size.h <= i32::MAX,
        forall|i: int|
            0 <= i < visible.len() ==> {
                &&& (#[trigger] visible[i]).size.w > 0
                &&& visible[i].size.h > 0
                &&& visible[i].loc.x + visible[i].size.w <= i32::MAX
                &&& visible[i].loc.y + visible[i].size.h <= i32::MAX
            },
    ensures
        shown_somewhere(outputs, visible, r) <==> exists|i: int|
            {
                &&& 0 <= i < outputs.len()
                &&& (#[trigger] outputs[i]).location is Some
                &&& visible[i].loc.x < r.loc.x + r.size.w
                &&& r.loc.x < visible[i].loc.x + visible[i].size.w
                &&& visible[i].loc.y < r.loc.y + r.size.h
                &&& r.loc.y < visible[i].loc.y + visible[i].size.h
            },
{
    if shown_somewhere(outputs, visible, r) {
        let i = choose|i: int|
            0 <= i < outputs.len() && (#[trigger] outputs[i]).location is Some && visible[i].meets(
                r,
            );
        assert(visible[i].size.w > 0);
        assert(outputs[i].location is Some);
    }
    if exists|i: int|
        {
            &&& 0 <= i < outputs.len()
            &&& (#[trigger] outputs[i]).location is Some
            &&& visible[i].loc.x < r.loc.x + r.size.w
            &&& r.loc.x < visible[i].loc.x + visible[i].size.w
            &&& visible[i].loc.y < r.loc.y + r.size.h
            &&& r.loc.y < visible[i].loc.y + visible[i].size.h
        } {
        let i = choose|i: int|
            {
                &&& 0 <= i < outputs.len()
                &&& (#[trigger] outputs[i]).location is Some
                &&& visible[i].loc.x < r.loc.x + r.size.w
                &&& r.loc.x < visible[i].loc.x + visible[i].size.w
                &&& visible[i].loc.y < r.loc.y + r.size.h
                &&& r.loc.y < visible[i].loc.y + visible[i].size.h
            };
        assert(visible[i].size.w > 0);
        assert(visible[i].meets(r));
    }
}

/// The usable area is that of the active output, and one pixel without an output. The
/// active output is the focused one, or else the first that is mapped.
pub proof fn lemma_usable_area_is_of_the_active_output(wm: DriftWm, i: int)
    requires
        wm.wf(),
        0 <= i < wm.outputs.len(),
    ensures
        wm.focused_output == Some(wm.outputs@[i].id) ==> wm.usable_area() == wm.outputs@[i].usable
            && wm.active_id() == Some(wm.outputs@[i].id),
        wm.focused_output is None && wm.outputs@[i].location is Some && (forall|j: int|
            0 <= j < i ==> (#[trigger] wm.outputs@[j]).location is None) ==> wm.usable_area()
            == wm.outputs@[i].usable && wm.active_id() == Some(wm.outputs@[i].id),
        wm.focused_output is None && (forall|j: int|
            0 <= j < wm.outputs.len() ==> (#[trigger] wm.outputs@[j]).location is None) ==> {
            &&& wm.active_id() is None
            &&& wm.usable_area().loc.x == 0 && wm.usable_area().loc.y == 0
            &&& wm.usable_area().size.w == 1 && wm.usable_area().size.h == 1
        },
{
    crate::state::view::lemma_active_output(wm, i);
}

} // verus!
