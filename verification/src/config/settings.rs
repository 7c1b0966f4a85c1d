//! Settings of devices, outputs, decorations, effects and the background.

use crate::config::rules::DecorationMode;
use crate::geometry::Size;
use crate::scalar::{Scalar, HALF_BITS};
use vstd::prelude::*;

verus! {

/// The bit pattern of 12.0.
pub const SWIPE_DISTANCE_BITS: u64 = 0x4028_0000_0000_0000;

/// The bit pattern of 0.85.
pub const PINCH_IN_BITS: u64 = 0x3feb_3333_3333_3333;

/// The bit pattern of 1.15.
pub const PINCH_OUT_BITS: u64 = 0x3ff2_6666_6666_6666;

/// The bit pattern of 1.1.
pub const BLUR_STRENGTH_BITS: u64 = 0x3ff1_9999_9999_999a;

/// Cursor size when the configuration names none.
pub const DEFAULT_CURSOR_SIZE: u32 = 24;

/// How a new window is placed on the canvas when no window rule positions it.
#[derive(Clone, Copy, Debug, PartialEq, Eq, Default, Structural)]
pub enum WindowPlacement {
    /// Center on the active output's viewport (and trigger navigate-to).
    #[default]
    Center,
    /// Center on the cursor, clamped to the active output's usable canvas rect.
    /// Skips the auto-navigate so the camera stays where the user pointed.
    Cursor,
    /// Snap-place adjacent to the focused window's cluster: try focused's
    /// edges (CW from viewport-nearest), then BFS to neighbors. Falls back
    /// to `Center` when no focused window or no valid placement was found.
    Auto,
    /// Always place next to an existing visible window, never on top.
    /// Scans all windows for a free adjacent spot, tries focus history first,
    /// then every window on the canvas. Falls back to center only when the
    /// canvas has no windows at all.
    Tiling,
}

#[derive(Clone, Copy, Debug, PartialEq, Eq, Structural)]
pub enum AccelProfile {
    Flat,
    Adaptive,
}

#[derive(Clone, Debug, PartialEq)]
pub struct TrackpadSettings {
    pub tap_to_click: bool,
    pub natural_scroll: bool,
    pub tap_and_drag: bool,
    pub accel_speed: Scalar,
    pub accel_profile: AccelProfile,
    pub click_method: Option<String>,
    pub disable_while_typing: bool,
}

impl Default for TrackpadSettings {
    fn default() -> (s: TrackpadSettings)
        ensures
            s == (TrackpadSettings {
                tap_to_click: true,
                natural_scroll: true,
                tap_and_drag: true,
                accel_speed: Scalar { bits: 0 },
                accel_profile: AccelProfile::Adaptive,
                click_method: None,
                disable_while_typing: true,
            }),
    {
        TrackpadSettings {
            tap_to_click: true,
            natural_scroll: true,
            tap_and_drag: true,
            accel_speed: Scalar::zero(),
            accel_profile: AccelProfile::Adaptive,
            click_method: None,
            disable_while_typing: true,
        }
    }
}

#[derive(Clone, Copy, Debug, PartialEq)]
pub struct MouseDeviceSettings {
    pub accel_speed: Scalar,
    pub accel_profile: AccelProfile,
    pub natural_scroll: bool,
}

impl Default for MouseDeviceSettings {
    fn default() -> (s: MouseDeviceSettings)
        ensures
            s == (MouseDeviceSettings {
                accel_speed: Scalar { bits: 0 },
                accel_profile: AccelProfile::Flat,
                natural_scroll: false,
            }),
    {
        MouseDeviceSettings {
            accel_speed: Scalar::zero(),
            accel_profile: AccelProfile::Flat,
            natural_scroll: false,
        }
    }
}

#[derive(Clone, Copy, Debug, PartialEq)]
pub struct GestureThresholds {
    pub swipe_distance: Scalar,
    pub pinch_in_scale: Scalar,
    pub pinch_out_scale: Scalar,
}

impl Default for GestureThresholds {
    fn default() -> (s: GestureThresholds)
        ensures
            s.swipe_distance.bits == SWIPE_DISTANCE_BITS,
            s.pinch_in_scale.bits == PINCH_IN_BITS,
            s.pinch_out_scale.bits == PINCH_OUT_BITS,
    {
        GestureThresholds {
            swipe_distance: Scalar { bits: SWIPE_DISTANCE_BITS },
            pinch_in_scale: Scalar { bits: PINCH_IN_BITS },
            pinch_out_scale: Scalar { bits: PINCH_OUT_BITS },
        }
    }
}

#[derive(Clone, Debug, PartialEq)]
pub struct KeyboardLayout {
    pub layout: String,
    pub variant: String,
    pub options: String,
    pub model: String,
}

impl KeyboardLayout {
    /// The options to hand to XKB: none at all when the configuration leaves
    /// them empty, so that XKB applies its own.
    pub fn xkb_options(&self) -> (options: Option<String>)
        ensures
            match options {
                Some(text) => self.options@.len() > 0 && text@ == self.options@,
                None => self.options@.len() == 0,
            },
    {
        if self.options.as_str().is_empty() {
            None
        } else {
            Some(self.options.clone())
        }
    }
}

#[derive(Clone, Copy, Debug, PartialEq, Eq, Default, Structural)]
pub struct BackendConfig {
    pub wait_for_frame_completion: bool,
    pub disable_direct_scanout: bool,
}

#[derive(Clone, Copy, Debug, PartialEq)]
pub struct EffectsConfig {
    pub blur_radius: u32,
    pub blur_strength: Scalar,
}

impl Default for EffectsConfig {
    fn default() -> (s: EffectsConfig)
        ensures
            s.blur_radius == 2,
            s.blur_strength.bits == BLUR_STRENGTH_BITS,
    {
        EffectsConfig { blur_radius: 2, blur_strength: Scalar { bits: BLUR_STRENGTH_BITS } }
    }
}

/// Server-side decoration configuration.
/// Only colors are user-configurable; everything else is hardcoded.
#[derive(Clone, Copy, Debug, PartialEq)]
pub struct DecorationConfig {
    pub bg_color: [u8; 4],
    pub fg_color: [u8; 4],
    pub corner_radius: i32,
    /// Default decoration mode for windows without a matching rule.
    pub default_mode: DecorationMode,
}

impl DecorationConfig {
    pub const TITLE_BAR_HEIGHT: i32 = 25;

    /// How far a shadow reaches beyond the frame, in whole pixels.
    pub const SHADOW_RADIUS: i32 = 14;

    pub const RESIZE_BORDER_WIDTH: i32 = 8;

    /// Black at 40 % opacity.
    pub fn shadow_color() -> (color: [u8; 4])
        ensures
            color@ == seq![0u8, 0, 0, 0x66],
    {
        [0, 0, 0, 0x66]
    }
}

impl Default for DecorationConfig {
    fn default() -> (s: DecorationConfig)
        ensures
            s.bg_color@ == seq![0x30u8, 0x30, 0x30, 0xff],
            s.fg_color@ == seq![0xffu8, 0xff, 0xff, 0xff],
            s.corner_radius == 10,
            s.default_mode == DecorationMode::Client,
    {
        DecorationConfig {
            bg_color: [0x30, 0x30, 0x30, 0xff],
            fg_color: [0xff, 0xff, 0xff, 0xff],
            corner_radius: 10,
            default_mode: DecorationMode::Client,
        }
    }
}

/// Settings for drawing outlines of other monitors' viewports.
#[derive(Clone, Copy, Debug)]
pub struct OutputOutlineSettings {
    pub color: [u8; 4],
    pub thickness: i32,
    pub opacity: Scalar,
}

impl Default for OutputOutlineSettings {
    fn default() -> (s: OutputOutlineSettings)
        ensures
            s.color@ == seq![0xffu8, 0xff, 0xff, 0xff],
            s.thickness == 1,
            s.opacity.bits == HALF_BITS,
    {
        OutputOutlineSettings {
            color: [0xff, 0xff, 0xff, 0xff],
            thickness: 1,
            opacity: Scalar::half(),
        }
    }
}

/// How the content of an output is turned and flipped.
#[derive(Clone, Copy, Debug, PartialEq, Eq, Default, Structural)]
pub enum Transform {
    #[default]
    Normal,
    Rotated90,
    Rotated180,
    Rotated270,
    Flipped,
    Flipped90,
    Flipped180,
    Flipped270,
}

impl Transform {
    /// Whether width and height change places.
    pub open spec fn turns_sideways(self) -> bool {
        ||| self is Rotated90
        ||| self is Rotated270
        ||| self is Flipped90
        ||| self is Flipped270
    }

    /// The size of an area after it was transformed (90 and 270 degrees swap
    /// width and height).
    pub fn transform_size(&self, size: Size) -> (s: Size)
        ensures
            s == (if self.turns_sideways() {
                Size { w: size.h, h: size.w }
            } else {
                size
            }),
    {
        match self {
            Transform::Rotated90 | Transform::Rotated270 | Transform::Flipped90
            | Transform::Flipped270 => Size { w: size.h, h: size.w },
            _ => size,
        }
    }
}

/// Per-output configuration from `[[outputs]]` config sections.
#[derive(Clone, Debug)]
pub struct OutputConfig {
    pub name: String,
    pub scale: Option<Scalar>,
    pub transform: Option<Transform>,
    pub position: OutputPosition,
    pub mode: OutputMode,
}

#[derive(Clone, Copy, Debug, Default, PartialEq, Eq, Structural)]
pub enum OutputPosition {
    #[default]
    Auto,
    Fixed(i32, i32),
}

#[derive(Clone, Copy, Debug, Default, PartialEq, Eq, Structural)]
pub enum OutputMode {
    #[default]
    Preferred,
    /// WxH: pick highest refresh rate.
    Size(i32, i32),
    /// WxH@Hz: approximate match (DRM reports millihertz).
    SizeRefresh(i32, i32, u32),
}

/// Background source. The three image-bearing variants are intentionally
/// orthogonal to "animated vs not": animation is detected from the shader
/// source or from file extensions.
#[derive(Clone, Debug, Default, PartialEq)]
pub enum BackgroundKind {
    /// Procedural GLSL fullscreen shader.
    Shader(String),
    /// Texture tiled across the canvas (scrolls with the camera).
    Tile(String),
    /// Single image filling the viewport (fixed; does not scroll/zoom).
    Wallpaper(String),
    /// Built-in dot grid shader.
    #[default]
    Default,
}

#[derive(Clone, Debug, Default, PartialEq)]
pub struct BackgroundConfig {
    pub kind: BackgroundKind,
}

/// The part of the configuration that the compositor state reads.
#[derive(Clone, Debug)]
pub struct Config {
    pub decorations: DecorationConfig,
    pub output_outline: OutputOutlineSettings,
    pub keyboard_layout: KeyboardLayout,
    pub num_lock: bool,
    pub caps_lock: bool,
    pub repeat_delay: i32,
    pub repeat_rate: i32,
    /// Whether activating a window also resets the zoom.
    pub zoom_reset_on_activation: bool,
    pub cursor_theme: Option<String>,
    pub cursor_size: Option<u32>,
    /// The gap that snapping leaves between windows.
    pub snap_gap: Scalar,
    pub autostart: Vec<String>,
}

impl Config {
    /// The cursor theme to load from, `"default"` when none is configured.
    pub fn cursor_theme_name(&self) -> (name: &str)
        ensures
            name@ == (match self.cursor_theme {
                Some(theme) => theme@,
                None => "default"@,
            }),
    {
        match &self.cursor_theme {
            Some(theme) => theme.as_str(),
            None => "default",
        }
    }

    /// The cursor size to load, 24 when none is configured.
    pub fn cursor_pixel_size(&self) -> (size: u32)
        ensures
            size == (match self.cursor_size {
                Some(size) => size,
                None => DEFAULT_CURSOR_SIZE,
            }),
    {
        match self.cursor_size {
            Some(size) => size,
            None => DEFAULT_CURSOR_SIZE,
        }
    }
}

/// Quarter turns swap width and height, flipped or not; half turns and flips alone
/// do not.
pub proof fn lemma_quarter_turns_swap_the_sides(transform: Transform)
    ensures
        transform.turns_sideways() <==> match transform {
            Transform::Normal => false,
            Transform::Rotated90 => true,
            Transform::Rotated180 => false,
            Transform::Rotated270 => true,
            Transform::Flipped => false,
            Transform::Flipped90 => true,
            Transform::Flipped180 => false,
            Transform::Flipped270 => true,
        },
{
}

} // verus!
