//! Directions and the actions that bindings trigger.

use crate::scalar::{Scalar, ONE_BITS, SIGN_BIT};
use vstd::prelude::*;

verus! {

pub const BTN_LEFT: u32 = 0x110;

pub const BTN_RIGHT: u32 = 0x111;

pub const BTN_MIDDLE: u32 = 0x112;

/// The bit pattern of one over the square root of two.
pub const FRAC_1_SQRT_2_BITS: u64 = 0x3fe6_a09e_667f_3bcd;

#[derive(Clone, Copy, Debug, PartialEq, Eq, Structural)]
pub enum Direction {
    Up,
    Down,
    Left,
    Right,
    UpLeft,
    UpRight,
    DownLeft,
    DownRight,
}

impl Direction {
    /// -1, 0 or 1: where the direction leads on the horizontal axis, which
    /// grows to the right.
    pub open spec fn horizontal(self) -> int {
        match self {
            Direction::Up | Direction::Down => 0,
            Direction::Left | Direction::UpLeft | Direction::DownLeft => -1,
            Direction::Right | Direction::UpRight | Direction::DownRight => 1,
        }
    }

    /// -1, 0 or 1: where the direction leads on the vertical axis, which grows
    /// downwards.
    pub open spec fn vertical(self) -> int {
        match self {
            Direction::Left | Direction::Right => 0,
            Direction::Up | Direction::UpLeft | Direction::UpRight => -1,
            Direction::Down | Direction::DownLeft | Direction::DownRight => 1,
        }
    }

    /// The direction that leads the other way.
    pub open spec fn opposite(self) -> Direction {
        match self {
            Direction::Up => Direction::Down,
            Direction::Down => Direction::Up,
            Direction::Left => Direction::Right,
            Direction::Right => Direction::Left,
            Direction::UpLeft => Direction::DownRight,
            Direction::UpRight => Direction::DownLeft,
            Direction::DownLeft => Direction::UpRight,
            Direction::DownRight => Direction::UpLeft,
        }
    }

    /// The bit pattern of the component of a unit vector that leads `lead` (-1,
    /// 0 or 1) on one axis and `other` on the other axis.
    pub open spec fn component_bits(lead: int, other: int) -> int {
        let size: int = if other == 0 {
            ONE_BITS as int
        } else {
            FRAC_1_SQRT_2_BITS as int
        };
        if lead == 0 {
            0
        } else if lead < 0 {
            SIGN_BIT + size
        } else {
            size
        }
    }

    /// Normalized direction vector for this direction.
    pub fn to_unit_vec(&self) -> (v: (Scalar, Scalar))
        ensures
            v.0.bits == Self::component_bits(self.horizontal(), self.vertical()),
            v.1.bits == Self::component_bits(self.vertical(), self.horizontal()),
    {
        let zero: Scalar = Scalar::zero();
        let one: Scalar = Scalar { bits: ONE_BITS };
        let minus_one: Scalar = Scalar { bits: SIGN_BIT + ONE_BITS };
        let diag: Scalar = Scalar { bits: FRAC_1_SQRT_2_BITS };
        let minus_diag: Scalar = Scalar { bits: SIGN_BIT + FRAC_1_SQRT_2_BITS };
        match self {
            Direction::Up => (zero, minus_one),
            Direction::Down => (zero, one),
            Direction::Left => (minus_one, zero),
            Direction::Right => (one, zero),
            Direction::UpLeft => (minus_diag, minus_diag),
            Direction::UpRight => (diag, minus_diag),
            Direction::DownLeft => (minus_diag, diag),
            Direction::DownRight => (diag, diag),
        }
    }
}

#[derive(Clone, Debug)]
pub enum Action {
    Exec(String),
    Spawn(String),
    CloseWindow,
    NudgeWindow(Direction),
    PanViewport(Direction),
    CenterWindow,
    CenterNearest(Direction),
    CycleWindows { backward: bool },
    HomeToggle,
    GoToPosition(Scalar, Scalar),
    ZoomIn,
    ZoomOut,
    ZoomReset,
    ZoomToFit,
    ZoomToFitSnapped,
    ToggleFullscreen,
    FitWindow,
    FitWindowSnapped,
    SendToOutput(Direction),
    FocusCenter,
    ReloadConfig,
    Quit,
}

impl Action {
    /// The actions that fire again and again while their key is held.
    pub open spec fn repeats(self) -> bool {
        ||| self is ZoomIn
        ||| self is ZoomOut
        ||| self is NudgeWindow
        ||| self is PanViewport
        ||| self is CycleWindows
        ||| self is Spawn
    }

    /// Actions that should auto-repeat when their key is held.
    pub fn is_repeatable(&self) -> (b: bool)
        ensures
            b == self.repeats(),
    {
        match self {
            Action::ZoomIn | Action::ZoomOut => true,
            Action::NudgeWindow(_) => true,
            Action::PanViewport(_) => true,
            Action::CycleWindows { .. } => true,
            Action::Spawn(_) => true,
            _ => false,
        }
    }
}

#[derive(Clone, Debug)]
pub enum MouseAction {
    MoveWindow,
    /// Drag every window connected to the focused one via snap adjacency
    /// (edge-flush with the snap gap). The cluster is computed on demand at
    /// drag start; a binding separate from `MoveWindow` so that grabbing a
    /// window never implicitly drags neighbors.
    MoveSnappedWindows,
    ResizeWindow,
    /// Resize the focused window and propagate the delta to every snapped
    /// neighbor in its cluster. Opt-in, like `MoveSnappedWindows`.
    ResizeWindowSnapped,
    PanViewport,
    Zoom,
    CenterNearest,
    Action(Action),
}

/// Actions for continuous gesture/mouse triggers (per-frame updates).
#[derive(Clone, Copy, Debug, PartialEq, Eq, Structural)]
pub enum ContinuousAction {
    PanViewport,
    Zoom,
    MoveWindow,
    ResizeWindow,
    /// Same as `ResizeWindow` plus cluster propagation.
    ResizeWindowSnapped,
}

/// Actions for threshold gesture triggers (fire once after accumulation).
#[derive(Clone, Debug)]
pub enum ThresholdAction {
    CenterNearest,
    Fixed(Action),
}

/// Resolved at parse time from trigger + action combination.
#[derive(Clone, Debug)]
pub enum GestureConfigEntry {
    Continuous(ContinuousAction),
    Threshold(ThresholdAction),
}

/// Opposite directions have opposite unit vectors: each component of one is the
/// other's with its sign changed.
pub proof fn lemma_opposite_directions_negate(d: Direction, u: (Scalar, Scalar), v: (Scalar, Scalar))
    requires
        u.0.bits == Direction::component_bits(d.horizontal(), d.vertical()),
        u.1.bits == Direction::component_bits(d.vertical(), d.horizontal()),
        v.0.bits == Direction::component_bits(d.opposite().horizontal(), d.opposite().vertical()),
        v.1.bits == Direction::component_bits(d.opposite().vertical(), d.opposite().horizontal()),
    ensures
        v.0.rank() == -u.0.rank(),
        v.1.rank() == -u.1.rank(),
{
}

/// Unit vectors point where their directions say: a direction to the left has a
/// negative first component and one to the right a positive one, one upwards has a
/// negative second component and one downwards a positive one, and a component that
/// a direction does not name is zero. The vectors of the four plain directions have
/// a component of one, those of the diagonals two equally large ones.
pub proof fn lemma_unit_vectors_point_their_way(d: Direction, v: (Scalar, Scalar))
    requires
        v.0.bits == Direction::component_bits(d.horizontal(), d.vertical()),
        v.1.bits == Direction::component_bits(d.vertical(), d.horizontal()),
    ensures
        d is Left || d is UpLeft || d is DownLeft <==> v.0.rank() < 0,
        d is Right || d is UpRight || d is DownRight <==> v.0.rank() > 0,
        d is Up || d is UpLeft || d is UpRight <==> v.1.rank() < 0,
        d is Down || d is DownLeft || d is DownRight <==> v.1.rank() > 0,
        d is Left || d is Right ==> v.0.magnitude() == ONE_BITS && v.1.bits == 0,
        d is Up || d is Down ==> v.1.magnitude() == ONE_BITS && v.0.bits == 0,
        d is UpLeft || d is UpRight || d is DownLeft || d is DownRight ==> v.0.magnitude()
            == FRAC_1_SQRT_2_BITS && v.1.magnitude() == FRAC_1_SQRT_2_BITS,
        !v.0.nan() && !v.1.nan(),
{
}

/// The direction that leads the other way swaps left and right, and up and down;
/// the other way of that is the direction itself.
pub proof fn lemma_opposite_swaps_both_axes(d: Direction)
    ensures
        d.opposite().opposite() == d,
        d.opposite() is Left <==> d is Right,
        d.opposite() is Up <==> d is Down,
        d.opposite() is UpLeft <==> d is DownRight,
        d.opposite() is UpRight <==> d is DownLeft,
{
}

/// Zooming, nudging, panning, cycling and spawning go on while their key is held;
/// every other action happens once.
pub proof fn lemma_actions_that_go_on(action: Action)
    ensures
        action.repeats() <==> match action {
            Action::ZoomIn => true,
            Action::ZoomOut => true,
            Action::NudgeWindow(_) => true,
            Action::PanViewport(_) => true,
            Action::CycleWindows { .. } => true,
            Action::Spawn(_) => true,
            _ => false,
        },
{
}

} // verus!
