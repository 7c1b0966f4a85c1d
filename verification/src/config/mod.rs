//! The configuration: actions, key combinations, bindings, window rules and
//! device, output and decoration settings.

pub mod actions;
pub mod bindings;
pub mod keys;
pub mod rules;
pub mod settings;

pub use actions::{
    Action, ContinuousAction, Direction, GestureConfigEntry, MouseAction, ThresholdAction, BTN_LEFT,
    BTN_MIDDLE, BTN_RIGHT,
};
pub use bindings::{
    BindingContext, ContextBindings, GestureBinding, GestureTrigger, MouseBinding, MouseTrigger,
};
pub use keys::{CycleModifier, KeyCombo, Keysym, ModKey, Modifiers, ModifiersState};
pub use rules::{
    effective_decoration_mode, AppliedWindowRule, DecorationMode, PassKeys, Pattern, WindowRule,
};
pub use settings::{
    AccelProfile, BackendConfig, BackgroundConfig, BackgroundKind, Config, DecorationConfig,
    EffectsConfig, GestureThresholds, KeyboardLayout, MouseDeviceSettings, OutputConfig, OutputMode,
    OutputOutlineSettings, OutputPosition, TrackpadSettings, Transform, WindowPlacement,
};
