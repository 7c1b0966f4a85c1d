//! The state of the window manager and what changes it.

pub mod client;
pub mod focus;
pub mod hierarchy;
pub mod layout;
pub mod output;
pub mod placement;
pub mod setup;
pub mod stacking;
pub mod view;
pub mod windows;
pub mod wm;

pub use client::{client_is_unrestricted, ClientState};
pub use output::{
    init_output_state, output_logical_size, output_state, usable_center_for_output, HomeReturn,
    MomentumState, Output, OutputState, Timestamp,
};
pub use windows::{FullscreenEntry, FullscreenState, Window};
pub use wm::{
    CanvasLayer, CaptureOutputState, CursorState, DriftWm, PendingMiddleClick, PendingRecenter,
    RenderCache, SessionLock,
};
