use driftwm::config::bindings::BindingKey;
use driftwm::config::rules::criteria_hold;
use driftwm::config::{
    effective_decoration_mode, AccelProfile, Action, AppliedWindowRule, BackendConfig,
    BackgroundConfig, BackgroundKind, BindingContext, ContextBindings, CycleModifier,
    DecorationConfig, DecorationMode, Direction, EffectsConfig, GestureBinding, GestureThresholds,
    GestureTrigger, KeyCombo, KeyboardLayout, Keysym, ModKey, Modifiers, ModifiersState,
    MouseBinding, MouseDeviceSettings, MouseTrigger, OutputMode, OutputOutlineSettings,
    OutputPosition, PassKeys, Pattern, TrackpadSettings, Transform, WindowPlacement, WindowRule,
    BTN_LEFT, BTN_MIDDLE, BTN_RIGHT,
};
use driftwm::geometry::Size;
use driftwm::glob::glob_matches;
use driftwm::scalar::Scalar;

fn mods(ctrl: bool, alt: bool, shift: bool, logo: bool) -> Modifiers {
    Modifiers { ctrl, alt, shift, logo }
}

fn combo(modifiers: Modifiers, raw: u32) -> KeyCombo {
    KeyCombo { modifiers, sym: Keysym { raw } }
}

fn glob(pat: &str) -> Option<Pattern> {
    Some(Pattern::Glob(pat.to_string()))
}

fn rule() -> WindowRule {
    WindowRule {
        app_id: None,
        title: None,
        position: None,
        size: None,
        widget: false,
        decoration: None,
        blur: false,
        opacity: None,
        pass_keys: PassKeys::NoKeys,
    }
}

fn combos_of(keys: &PassKeys) -> Vec<KeyCombo> {
    match keys {
        PassKeys::Only(combos) => combos.clone(),
        _ => panic!("not a list"),
    }
}

#[test]
fn globs_without_a_star_are_exact() {
    assert!(glob_matches("firefox", "firefox"));
    assert!(!glob_matches("firefox", "Firefox"));
    assert!(!glob_matches("firefox", "firefox "));
    assert!(glob_matches("", ""));
    assert!(!glob_matches("", "x"));
}

#[test]
fn globs_with_stars_match_any_sequence() {
    assert!(glob_matches("*", ""));
    assert!(glob_matches("*", "anything"));
    assert!(glob_matches("**", "x"));
    assert!(glob_matches("org.*", "org.gnome.Nautilus"));
    assert!(!glob_matches("org.*", "com.org."));
    assert!(glob_matches("*.exe", "game.exe"));
    assert!(!glob_matches("*.exe", "game.exe.bak"));
    assert!(glob_matches("a*b*c", "a--b--c"));
    assert!(glob_matches("a*b*c", "abbc"));
    assert!(!glob_matches("a*b*c", "acb"));
    assert!(glob_matches("*mid*", "in the middle"));
    assert!(!glob_matches("*mid*", "nothing"));
}

#[test]
fn globs_do_not_reuse_characters() {
    assert!(!glob_matches("ab*ba", "aba"));
    assert!(glob_matches("ab*ba", "abba"));
    assert!(!glob_matches("a*a", "a"));
    assert!(glob_matches("a*a", "aa"));
    assert!(!glob_matches("x*xx*x", "xxx"));
    assert!(glob_matches("x*xx*x", "xxxx"));
}

#[test]
fn globs_work_on_characters() {
    assert!(glob_matches("\u{fc}*\u{df}", "\u{fc}ber den Flu\u{df}"));
    assert!(glob_matches("*\u{1f600}", "smile \u{1f600}"));
    assert!(!glob_matches("\u{e9}*", "e\u{301}"));
}

#[test]
fn regex_patterns_ask_the_engine() {
    let pattern = Pattern::Regex(regex::Regex::new("^fire(fox|bird)$").unwrap());
    assert!(pattern.matches("firefox"));
    assert!(pattern.matches("firebird"));
    assert!(!pattern.matches("firefly"));
    assert!(!pattern.matches("my firefox"));
    let copy = pattern.clone();
    assert!(copy.matches("firebird"));
    assert!(!copy.matches("bird"));
    let anywhere = Pattern::Regex(regex::Regex::new("b+").unwrap());
    assert!(anywhere.matches("abbc"));
    assert!(!anywhere.matches(""));
}

#[test]
fn rules_match_all_their_criteria() {
    let mut r = rule();
    assert!(r.matches("any", "thing"));
    assert!(!r.has_criteria());
    r.app_id = glob("term*");
    assert!(r.has_criteria());
    assert!(r.matches("terminal", ""));
    assert!(!r.matches("xterm", ""));
    r.title = Some(Pattern::Regex(regex::Regex::new("log").unwrap()));
    assert!(r.matches("terminal", "build log"));
    assert!(!r.matches("terminal", "shell"));
    assert!(!r.matches("editor", "build log"));
    let titled = WindowRule { title: glob("a"), ..rule() };
    assert!(titled.has_criteria());
    assert!(titled.matches("whatever", "a"));
}

#[test]
fn missing_criteria_hold() {
    assert!(criteria_hold(None, None));
    assert!(criteria_hold(Some(true), None));
    assert!(!criteria_hold(Some(false), None));
    assert!(!criteria_hold(Some(true), Some(false)));
    assert!(criteria_hold(Some(true), Some(true)));
}

#[test]
fn later_rules_override_earlier_ones() {
    let first = WindowRule {
        widget: true,
        decoration: Some(DecorationMode::Server),
        opacity: Some(Scalar::from_bits(0.8f64.to_bits())),
        position: Some((1, 2)),
        ..rule()
    };
    let second = WindowRule {
        blur: true,
        decoration: Some(DecorationMode::Bare),
        size: Some((300, 200)),
        ..rule()
    };
    let mut applied = AppliedWindowRule::from(&first);
    assert!(applied.widget && !applied.blur);
    applied.merge_from(&second);
    assert!(applied.widget && applied.blur);
    assert_eq!(applied.decoration, Some(DecorationMode::Bare));
    assert_eq!(applied.opacity.unwrap().bits, 0.8f64.to_bits());
    assert_eq!(applied.position, Some((1, 2)));
    assert_eq!(applied.size, Some((300, 200)));
    let before = applied.duplicate();
    applied.merge_from(&second);
    assert_eq!(applied.decoration, before.decoration);
    assert_eq!(applied.size, before.size);
    assert_eq!(applied.widget, before.widget);
    applied.merge_from(&first);
    assert_eq!(applied.decoration, Some(DecorationMode::Server));
}

#[test]
fn pass_keys_merge() {
    let a = combo(mods(true, false, false, false), 0x61);
    let b = combo(mods(false, true, false, false), 0x62);
    let c = combo(mods(false, false, false, true), 0x63);
    let mut keys = PassKeys::NoKeys;
    keys.merge_from(&PassKeys::NoKeys);
    assert!(matches!(keys, PassKeys::NoKeys));
    keys.merge_from(&PassKeys::Only(vec![a, b]));
    assert_eq!(combos_of(&keys), vec![a, b]);
    keys.merge_from(&PassKeys::Only(vec![b, c, c]));
    assert_eq!(combos_of(&keys), vec![a, b, c]);
    keys.merge_from(&PassKeys::NoKeys);
    assert_eq!(combos_of(&keys), vec![a, b, c]);
    let copy = keys.duplicate();
    keys.merge_from(&PassKeys::All);
    assert!(matches!(keys, PassKeys::All));
    keys.merge_from(&copy);
    assert!(matches!(keys, PassKeys::All));
}

#[test]
fn pass_keys_normalize_events() {
    let state = ModifiersState { ctrl: true, caps_lock: true, ..Default::default() };
    let ctrl_a = combo(mods(true, false, false, false), 0x61);
    let shift_tab = combo(mods(true, false, true, false), 0xff09);
    let keys = PassKeys::Only(vec![ctrl_a, shift_tab]);
    assert!(keys.allows_raw(&state, Keysym { raw: 0x61 }));
    assert!(keys.allows_raw(&state, Keysym { raw: 0x41 }));
    assert!(keys.allows_raw(&state, Keysym { raw: 0xfe20 }));
    assert!(!keys.allows_raw(&state, Keysym { raw: 0xff09 }));
    assert!(!keys.allows_raw(&ModifiersState::default(), Keysym { raw: 0x61 }));
    assert!(!PassKeys::NoKeys.allows_raw(&state, Keysym { raw: 0x61 }));
    assert!(PassKeys::All.allows_raw(&state, Keysym { raw: 0x7a }));
}

#[test]
fn key_combos_normalize() {
    let plain = Modifiers::empty();
    let mut upper = combo(plain, 0x41);
    upper.normalize();
    assert_eq!(upper, combo(plain, 0x61));
    let mut last = combo(plain, 0x5a);
    last.normalize();
    assert_eq!(last, combo(plain, 0x7a));
    for raw in [0x40, 0x5b, 0x61, 0xff09] {
        let mut same = combo(plain, raw);
        same.normalize();
        assert_eq!(same, combo(plain, raw));
    }
    let mut tab = combo(plain, 0xfe20);
    tab.normalize();
    assert_eq!(tab, combo(mods(false, false, true, false), 0xff09));
    let once = tab;
    tab.normalize();
    assert_eq!(tab, once);
}

#[test]
fn modifiers_and_mod_keys() {
    assert_eq!(Modifiers::empty(), Modifiers::default());
    let state = ModifiersState { alt: true, shift: true, num_lock: true, ..Default::default() };
    assert_eq!(Modifiers::from_state(&state), mods(false, true, true, false));
    assert_eq!(ModKey::Alt.base(), mods(false, true, false, false));
    assert_eq!(ModKey::Super.base(), mods(false, false, false, true));
    assert_eq!(CycleModifier::Alt.base(), mods(false, true, false, false));
    assert_eq!(CycleModifier::Ctrl.base(), mods(true, false, false, false));
    assert!(ModKey::Alt.is_pressed(&state));
    assert!(!ModKey::Super.is_pressed(&state));
    assert!(CycleModifier::Alt.is_pressed(&state));
    assert!(!CycleModifier::Ctrl.is_pressed(&state));
}

#[test]
fn directions_have_unit_vectors() {
    let r = std::f64::consts::FRAC_1_SQRT_2;
    let cases = [
        (Direction::Up, 0.0, -1.0),
        (Direction::Down, 0.0, 1.0),
        (Direction::Left, -1.0, 0.0),
        (Direction::Right, 1.0, 0.0),
        (Direction::UpLeft, -r, -r),
        (Direction::UpRight, r, -r),
        (Direction::DownLeft, -r, r),
        (Direction::DownRight, r, r),
    ];
    for (direction, x, y) in cases {
        let (dx, dy) = direction.to_unit_vec();
        let expected: (f64, f64) = (x, y);
        assert_eq!(dx.bits, expected.0.to_bits(), "{:?}", direction);
        assert_eq!(dy.bits, expected.1.to_bits(), "{:?}", direction);
    }
}

#[test]
fn repeatable_actions() {
    assert!(Action::ZoomIn.is_repeatable());
    assert!(Action::ZoomOut.is_repeatable());
    assert!(Action::NudgeWindow(Direction::Up).is_repeatable());
    assert!(Action::PanViewport(Direction::Left).is_repeatable());
    assert!(Action::CycleWindows { backward: true }.is_repeatable());
    assert!(Action::Spawn("volume up".to_string()).is_repeatable());
    assert!(!Action::Exec("terminal".to_string()).is_repeatable());
    assert!(!Action::ZoomReset.is_repeatable());
    assert!(!Action::CloseWindow.is_repeatable());
    assert!(!Action::Quit.is_repeatable());
    assert!(!Action::SendToOutput(Direction::Right).is_repeatable());
}

#[test]
fn bindings_fall_back_to_anywhere() {
    let key = combo(mods(false, false, false, true), 0x71);
    let other = combo(mods(false, false, false, true), 0x77);
    let mut bindings: ContextBindings<KeyCombo, &str> = ContextBindings::empty();
    assert!(bindings.lookup(&key, BindingContext::OnWindow).is_none());
    bindings.insert(BindingContext::Anywhere, key, "everywhere");
    bindings.insert(BindingContext::OnSection, key, "section");
    assert_eq!(bindings.lookup(&key, BindingContext::OnWindow), Some(&"everywhere"));
    assert_eq!(bindings.lookup(&key, BindingContext::OnCanvas), Some(&"everywhere"));
    assert_eq!(bindings.lookup(&key, BindingContext::OnSection), Some(&"section"));
    assert_eq!(bindings.lookup(&key, BindingContext::Anywhere), Some(&"everywhere"));
    assert!(bindings.lookup(&other, BindingContext::OnSection).is_none());
    bindings.insert(BindingContext::OnSection, key, "again");
    assert_eq!(bindings.lookup(&key, BindingContext::OnSection), Some(&"again"));
    bindings.remove(BindingContext::OnSection, &key);
    assert_eq!(bindings.lookup(&key, BindingContext::OnSection), Some(&"everywhere"));
    bindings.remove(BindingContext::Anywhere, &key);
    assert!(bindings.lookup(&key, BindingContext::OnSection).is_none());
}

#[test]
fn binding_keys_are_told_apart() {
    let mut codes = Vec::new();
    for bits in 0..16u32 {
        let modifiers = mods(bits & 1 > 0, bits & 2 > 0, bits & 4 > 0, bits & 8 > 0);
        for trigger in [
            GestureTrigger::Swipe { fingers: 3 },
            GestureTrigger::SwipeUp { fingers: 3 },
            GestureTrigger::SwipeDown { fingers: 3 },
            GestureTrigger::SwipeLeft { fingers: 3 },
            GestureTrigger::SwipeRight { fingers: 3 },
            GestureTrigger::DoubletapSwipe { fingers: 3 },
            GestureTrigger::Pinch { fingers: 3 },
            GestureTrigger::PinchIn { fingers: 3 },
            GestureTrigger::PinchOut { fingers: 3 },
            GestureTrigger::Hold { fingers: 3 },
            GestureTrigger::Hold { fingers: 4 },
        ] {
            codes.push(GestureBinding { modifiers, trigger }.code());
        }
    }
    let total = codes.len();
    codes.sort();
    codes.dedup();
    assert_eq!(codes.len(), total);
    let mut mouse = Vec::new();
    for trigger in [
        MouseTrigger::Button(BTN_LEFT),
        MouseTrigger::Button(BTN_RIGHT),
        MouseTrigger::Button(BTN_MIDDLE),
        MouseTrigger::Button(u32::MAX),
        MouseTrigger::TrackpadScroll,
        MouseTrigger::WheelScroll,
    ] {
        mouse.push(MouseBinding { modifiers: Modifiers::empty(), trigger }.code());
    }
    mouse.sort();
    mouse.dedup();
    assert_eq!(mouse.len(), 6);
}

#[test]
fn defaults_are_as_documented() {
    let trackpad = TrackpadSettings::default();
    assert!(trackpad.tap_to_click && trackpad.natural_scroll && trackpad.tap_and_drag);
    assert!(trackpad.disable_while_typing);
    assert_eq!(trackpad.accel_speed.bits, 0.0f64.to_bits());
    assert_eq!(trackpad.accel_profile, AccelProfile::Adaptive);
    assert_eq!(trackpad.click_method, None);
    let mouse = MouseDeviceSettings::default();
    assert_eq!(mouse.accel_profile, AccelProfile::Flat);
    assert!(!mouse.natural_scroll);
    let gestures = GestureThresholds::default();
    assert_eq!(gestures.swipe_distance.bits, 12.0f64.to_bits());
    assert_eq!(gestures.pinch_in_scale.bits, 0.85f64.to_bits());
    assert_eq!(gestures.pinch_out_scale.bits, 1.15f64.to_bits());
    let effects = EffectsConfig::default();
    assert_eq!(effects.blur_radius, 2);
    assert_eq!(effects.blur_strength.bits, 1.1f64.to_bits());
    let deco = DecorationConfig::default();
    assert_eq!(deco.bg_color, [0x30, 0x30, 0x30, 0xff]);
    assert_eq!(deco.fg_color, [0xff, 0xff, 0xff, 0xff]);
    assert_eq!(deco.corner_radius, 10);
    assert_eq!(deco.default_mode, DecorationMode::Client);
    assert_eq!(DecorationConfig::TITLE_BAR_HEIGHT, 25);
    assert_eq!(DecorationConfig::RESIZE_BORDER_WIDTH, 8);
    assert_eq!(DecorationConfig::shadow_color(), [0, 0, 0, 0x66]);
    let outline = OutputOutlineSettings::default();
    assert_eq!(outline.color, [0xff, 0xff, 0xff, 0xff]);
    assert_eq!(outline.thickness, 1);
    assert_eq!(outline.opacity.bits, 0.5f64.to_bits());
    assert_eq!(BackendConfig::default().wait_for_frame_completion, false);
    assert_eq!(BackendConfig::default().disable_direct_scanout, false);
    assert_eq!(WindowPlacement::default(), WindowPlacement::Center);
    assert_eq!(OutputPosition::default(), OutputPosition::Auto);
    assert_eq!(OutputMode::default(), OutputMode::Preferred);
    assert_eq!(BackgroundConfig::default().kind, BackgroundKind::Default);
}

#[test]
fn decoration_mode_falls_back_to_the_default() {
    let server = DecorationMode::Server;
    let client = DecorationMode::Client;
    assert_eq!(*effective_decoration_mode(Some(&server), &client), DecorationMode::Server);
    assert_eq!(*effective_decoration_mode(None, &client), DecorationMode::Client);
}

#[test]
fn transforms_turn_sizes() {
    let size = Size { w: 1920, h: 1080 };
    let turned = Size { w: 1080, h: 1920 };
    assert_eq!(Transform::Normal.transform_size(size), size);
    assert_eq!(Transform::Rotated90.transform_size(size), turned);
    assert_eq!(Transform::Rotated180.transform_size(size), size);
    assert_eq!(Transform::Rotated270.transform_size(size), turned);
    assert_eq!(Transform::Flipped.transform_size(size), size);
    assert_eq!(Transform::Flipped90.transform_size(size), turned);
    assert_eq!(Transform::Flipped180.transform_size(size), size);
    assert_eq!(Transform::Flipped270.transform_size(size), turned);
}

#[test]
fn empty_xkb_options_are_left_out() {
    let mut layout = KeyboardLayout {
        layout: "de".to_string(),
        variant: String::new(),
        options: String::new(),
        model: String::new(),
    };
    assert_eq!(layout.xkb_options(), None);
    layout.options = "caps:escape".to_string();
    assert_eq!(layout.xkb_options(), Some("caps:escape".to_string()));
}
