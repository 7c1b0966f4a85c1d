//! Outputs and the viewport that each of them shows.

use crate::config::settings::Transform;
use crate::geometry::{HalfPoint, Point, PointF, Rect, Size};
use crate::scalar::{Scalar, NAN_BITS, ONE_BITS};
use vstd::prelude::*;

verus! {

/// A point on the monotonic clock, in nanoseconds.
#[derive(Clone, Copy, Debug, PartialEq, Eq, Structural)]
pub struct Timestamp {
    pub nanos: u64,
}

/// The motion that a pan leaves behind when the fingers lift.
#[derive(Clone, Copy, Debug)]
pub struct MomentumState {
    pub velocity: PointF,
    pub friction: Scalar,
}

impl MomentumState {
    /// Whether the viewport still coasts: a component of the velocity differs
    /// from zero.
    pub open spec fn coasting(self) -> bool {
        ||| !self.velocity.x.same_number(Scalar { bits: 0 })
        ||| !self.velocity.y.same_number(Scalar { bits: 0 })
    }

    /// A momentum at rest.
    pub open spec fn at_rest(friction: Scalar) -> MomentumState {
        MomentumState {
            velocity: PointF { x: Scalar { bits: 0 }, y: Scalar { bits: 0 } },
            friction,
        }
    }

    pub fn new(friction: Scalar) -> (m: MomentumState)
        ensures
            m == Self::at_rest(friction),
    {
        MomentumState {
            velocity: PointF { x: Scalar { bits: 0 }, y: Scalar { bits: 0 } },
            friction,
        }
    }

    /// Ends the motion.
    pub fn stop(&mut self)
        ensures
            *final(self) == Self::at_rest(old(self).friction),
    {
        self.velocity = PointF { x: Scalar { bits: 0 }, y: Scalar { bits: 0 } };
    }

    pub fn is_coasting(&self) -> (b: bool)
        ensures
            b == self.coasting(),
    {
        self.velocity.x != Scalar { bits: 0 } || self.velocity.y != Scalar { bits: 0 }
    }
}

/// Saved viewport state for HomeToggle return, with the fullscreen window if
/// there was one.
#[derive(Clone, Copy, Debug)]
pub struct HomeReturn {
    pub camera: PointF,
    pub zoom: Scalar,
    pub fullscreen_window: Option<u64>,
}

/// Per-output viewport state.
#[derive(Clone, Copy, Debug)]
pub struct OutputState {
    pub camera: PointF,
    pub zoom: Scalar,
    pub zoom_target: Option<Scalar>,
    pub zoom_animation_center: Option<PointF>,
    pub last_rendered_zoom: Scalar,
    pub overview_return: Option<(PointF, Scalar)>,
    pub camera_target: Option<PointF>,
    pub last_scroll_pan: Option<Timestamp>,
    pub momentum: MomentumState,
    pub panning: bool,
    pub edge_pan_velocity: Option<PointF>,
    pub last_rendered_camera: PointF,
    pub last_frame_instant: Timestamp,
    /// Physical arrangement position in layout space.
    /// (0,0) for single output; from config for multi-monitor.
    pub layout_position: Point,
    /// Saved home position for HomeToggle (per-output).
    pub home_return: Option<HomeReturn>,
    /// Bumped on every VBlank (or render tick on winit). Used to gate
    /// frame_callback emission to one-per-cycle per surface.
    pub frame_callback_sequence: u32,
}

impl OutputState {
    /// The state of an output that shows `camera` at zoom 1 and was never
    /// rendered.
    pub open spec fn fresh(
        camera: PointF,
        friction: Scalar,
        layout_position: Point,
        now: Timestamp,
    ) -> OutputState {
        OutputState {
            camera,
            zoom: Scalar { bits: ONE_BITS },
            zoom_target: None,
            zoom_animation_center: None,
            last_rendered_zoom: Scalar { bits: NAN_BITS },
            overview_return: None,
            camera_target: None,
            last_scroll_pan: None,
            momentum: MomentumState::at_rest(friction),
            panning: false,
            edge_pan_velocity: None,
            last_rendered_camera: PointF {
                x: Scalar { bits: NAN_BITS },
                y: Scalar { bits: NAN_BITS },
            },
            last_frame_instant: now,
            layout_position,
            home_return: None,
            frame_callback_sequence: 0,
        }
    }

    /// Whether the viewport is moving on its own.
    pub open spec fn animating(self) -> bool {
        ||| self.camera_target is Some
        ||| self.zoom_target is Some
        ||| self.edge_pan_velocity is Some
        ||| self.momentum.coasting()
    }

    /// The state after everything that moves the viewport was stopped where it
    /// stands.
    pub open spec fn halted(self) -> OutputState {
        OutputState {
            momentum: MomentumState::at_rest(self.momentum.friction),
            edge_pan_velocity: None,
            panning: false,
            camera_target: None,
            zoom_target: None,
            zoom_animation_center: None,
            ..self
        }
    }

    pub fn is_animating(&self) -> (b: bool)
        ensures
            b == self.animating(),
    {
        self.camera_target.is_some() || self.zoom_target.is_some()
            || self.edge_pan_velocity.is_some() || self.momentum.is_coasting()
    }

    /// Stops everything that moves the viewport.
    pub fn halt(&mut self)
        ensures
            *final(self) == old(self).halted(),
    {
        self.momentum.stop();
        self.edge_pan_velocity = None;
        self.panning = false;
        self.camera_target = None;
        self.zoom_target = None;
        self.zoom_animation_center = None;
    }
}

/// An output as the window manager sees it.
#[derive(Debug)]
pub struct Output {
    pub id: u64,
    pub name: String,
    /// Where the output stands on the canvas; `None` while it is not mapped.
    pub location: Option<Point>,
    /// The size of the current mode in physical pixels.
    pub mode: Option<Size>,
    pub transform: Transform,
    /// The fractional scale.
    pub scale: Scalar,
    /// The size of the current mode after the transform, divided by the scale
    /// and rounded up. Meaningless while there is no mode.
    pub scaled_size: Size,
    /// What panels and bars leave of the output.
    pub usable: Rect,
    pub state: Option<OutputState>,
}

impl Output {
    /// The output has its viewport state.
    pub open spec fn ready(self) -> bool {
        self.state is Some
    }

    /// The viewport state of an output that has one.
    pub open spec fn viewport(self) -> OutputState {
        self.state->0
    }

    /// The size in logical pixels.
    pub open spec fn logical_size(self) -> Size {
        if self.mode is Some {
            self.scaled_size
        } else {
            Size { w: 1, h: 1 }
        }
    }

    /// The center of the output in layout space, in half pixels.
    pub open spec fn layout_center(self) -> HalfPoint {
        (Rect { loc: self.viewport().layout_position, size: self.logical_size() }).middle()
    }

    /// The output's rectangle in layout space can be written down.
    pub open spec fn layout_fits(self) -> bool {
        &&& self.viewport().layout_position.x + self.logical_size().w <= i32::MAX
        &&& self.viewport().layout_position.x + self.logical_size().w >= i32::MIN
        &&& self.viewport().layout_position.y + self.logical_size().h <= i32::MAX
        &&& self.viewport().layout_position.y + self.logical_size().h >= i32::MIN
    }
}

/// Initialize per-output state on a newly created output. An output that has its
/// state keeps it.
pub fn init_output_state(
    output: &mut Output,
    camera: PointF,
    friction: Scalar,
    layout_position: Point,
    now: Timestamp,
)
    ensures
        *final(output) == (Output { state: final(output).state, ..*old(output) }),
        final(output).state == (match old(output).state {
            Some(state) => Some(state),
            None => Some(OutputState::fresh(camera, friction, layout_position, now)),
        }),
{
    if output.state.is_some() {
        return;
    }
    output.state =
    Some(
        OutputState {
            camera,
            zoom: Scalar::one(),
            zoom_target: None,
            zoom_animation_center: None,
            last_rendered_zoom: Scalar::not_a_number(),
            overview_return: None,
            camera_target: None,
            last_scroll_pan: None,
            momentum: MomentumState::new(friction),
            panning: false,
            edge_pan_velocity: None,
            last_rendered_camera: PointF {
                x: Scalar::not_a_number(),
                y: Scalar::not_a_number(),
            },
            last_frame_instant: now,
            layout_position,
            home_return: None,
            frame_callback_sequence: 0,
        },
    );
}

/// Screen-space center of an output's usable area (for per-output animation
/// paths), in half pixels.
pub fn usable_center_for_output(output: &Output) -> (c: HalfPoint)
    ensures
        c == output.usable.middle(),
{
    output.usable.center()
}

/// The size of the current mode as the output shows it (90 and 270 degrees swap
/// width and height), in physical pixels.
pub fn oriented_mode_size(output: &Output) -> (size: Option<Size>)
    ensures
        size == (match output.mode {
            Some(mode) => Some(
                if output.transform.turns_sideways() {
                    Size { w: mode.h, h: mode.w }
                } else {
                    mode
                },
            ),
            None => None,
        }),
{
    match output.mode {
        Some(mode) => Some(output.transform.transform_size(mode)),
        None => None,
    }
}

/// Logical output size accounting for scale and transform; one pixel while the
/// output has no mode.
pub fn output_logical_size(output: &Output) -> (size: Size)
    ensures
        size == output.logical_size(),
{
    if output.mode.is_some() {
        output.scaled_size
    } else {
        Size { w: 1, h: 1 }
    }
}

/// An output's per-output state.
pub fn output_state(output: &Output) -> (state: OutputState)
    requires
        output.ready(),
    ensures
        state == output.viewport(),
{
    output.state.unwrap()
}

/// The center of an output in layout space, in half pixels.
pub fn layout_center(output: &Output) -> (c: HalfPoint)
    requires
        output.ready(),
    ensures
        c == output.layout_center(),
{
    Rect { loc: output_state(output).layout_position, size: output_logical_size(output) }.center()
}

/// A viewport that was stopped rests where it stands: nothing moves it, its camera,
/// zoom and place in the layout are what they were, and so is everything that does
/// not move it. Stopping it a second time changes nothing.
pub proof fn lemma_halted_viewport_rests(state: OutputState)
    ensures
        !state.halted().animating(),
        !state.halted().panning,
        state.halted().camera == state.camera,
        state.halted().zoom == state.zoom,
        state.halted().layout_position == state.layout_position,
        state.halted().momentum.friction == state.momentum.friction,
        state.halted().zoom_animation_center is None,
        state.halted().overview_return == state.overview_return,
        state.halted().home_return == state.home_return,
        state.halted().last_scroll_pan == state.last_scroll_pan,
        state.halted().last_rendered_zoom == state.last_rendered_zoom,
        state.halted().last_rendered_camera == state.last_rendered_camera,
        state.halted().last_frame_instant == state.last_frame_instant,
        state.halted().frame_callback_sequence == state.frame_callback_sequence,
        state.halted().halted() == state.halted(),
{
}

/// A viewport moves on its own exactly while it has a target for its camera or its
/// zoom, is panned from an edge, or coasts. It coasts unless both components of its
/// velocity are zero, of either sign.
pub proof fn lemma_what_moves_a_viewport(state: OutputState)
    ensures
        state.camera_target is Some ==> state.animating(),
        state.zoom_target is Some ==> state.animating(),
        state.edge_pan_velocity is Some ==> state.animating(),
        ({
            let v = state.momentum.velocity;
            let still = (v.x.bits == 0 || v.x.bits == 0x8000_0000_0000_0000) && (v.y.bits == 0
                || v.y.bits == 0x8000_0000_0000_0000);
            &&& state.momentum.coasting() <==> !still
            &&& !still ==> state.animating()
            &&& still && state.camera_target is None && state.zoom_target is None
                && state.edge_pan_velocity is None ==> !state.animating()
        }),
        forall|friction: Scalar| !(#[trigger] MomentumState::at_rest(friction)).coasting(),
        forall|friction: Scalar| (#[trigger] MomentumState::at_rest(friction)).friction == friction,
{
}

/// A fresh viewport shows the given part of the canvas at zoom one and rests, and
/// what it rendered last differs from every camera and every zoom, so that its first
/// frame is drawn.
pub proof fn lemma_fresh_viewport(
    camera: PointF,
    friction: Scalar,
    layout_position: Point,
    now: Timestamp,
    other: Scalar,
)
    ensures
        ({
            let state = OutputState::fresh(camera, friction, layout_position, now);
            &&& state.camera == camera
            &&& state.zoom == Scalar::of_int(1)
            &&& state.layout_position == layout_position
            &&& state.momentum.friction == friction
            &&& state.last_frame_instant == now
            &&& !state.animating()
            &&& !state.panning
            &&& state.home_return is None
            &&& state.overview_return is None
            &&& state.last_scroll_pan is None
            &&& state.zoom_animation_center is None
            &&& state.frame_callback_sequence == 0
            &&& !state.last_rendered_zoom.same_number(other)
            &&& !state.last_rendered_camera.x.same_number(other)
            &&& !state.last_rendered_camera.y.same_number(other)
        }),
{
    crate::numbers::lemma_one_and_half();
}

/// The size of an output is that of its mode, turned and scaled, and one pixel
/// while it has none. Its center in layout space is as far from its left side as
/// from its right one, and as far from its top as from its bottom.
pub proof fn lemma_output_size_and_center(output: Output)
    ensures
        output.mode is Some ==> output.logical_size() == output.scaled_size,
        output.mode is None ==> output.logical_size().w == 1 && output.logical_size().h == 1,
        ({
            let at = output.state->0.layout_position;
            let size = output.logical_size();
            let center = output.layout_center();
            &&& center.x2 - 2 * at.x == 2 * (at.x + size.w) - center.x2
            &&& center.y2 - 2 * at.y == 2 * (at.y + size.h) - center.y2
        }),
{
}

} // verus!
