use driftwm::config::{
    Config, DecorationConfig, DecorationMode, KeyboardLayout, OutputOutlineSettings, Transform,
};
use driftwm::geometry::{Point, PointF, Rect, Size};
use driftwm::handlers::activation::{Activation, ActivationToken};
use driftwm::handlers::capture::SourceKind;
use driftwm::handlers::decoration::{decoration_mode_to_wire, DecorationReply, WireMode};
use driftwm::handlers::outputs::RequestedHeadConfig;
use driftwm::handlers::session_lock::{LockConfigure, LockEffects};
use driftwm::scalar::Scalar;
use driftwm::state::wm::{CursorIcon, CursorImageStatus, RecentWindow, WindowDecoration};
use driftwm::state::{
    init_output_state, output_state, ClientState, DriftWm, FullscreenEntry, FullscreenState,
    Output, OutputState, PendingMiddleClick, SessionLock, Timestamp, Window,
};
use std::collections::HashSet;

fn s(v: f64) -> Scalar {
    Scalar::from_bits(v.to_bits())
}

fn pf(x: f64, y: f64) -> PointF {
    PointF { x: s(x), y: s(y) }
}

fn rect(x: i32, y: i32, w: i32, h: i32) -> Rect {
    Rect { loc: Point { x, y }, size: Size { w, h } }
}

fn at(nanos: u64) -> Timestamp {
    Timestamp { nanos }
}

fn config() -> Config {
    Config {
        decorations: DecorationConfig::default(),
        output_outline: OutputOutlineSettings::default(),
        keyboard_layout: KeyboardLayout {
            layout: "us".to_string(),
            variant: "intl".to_string(),
            options: String::new(),
            model: "pc105".to_string(),
        },
        num_lock: true,
        caps_lock: false,
        repeat_delay: 200,
        repeat_rate: 25,
        zoom_reset_on_activation: true,
        cursor_theme: None,
        cursor_size: None,
        snap_gap: s(8.0),
        autostart: vec!["bar".to_string(), "panel --top".to_string()],
    }
}

fn wm() -> DriftWm {
    DriftWm::new(config(), at(1_000))
}

fn output(id: u64, name: &str, w: i32, h: i32) -> Output {
    let mut output = Output {
        id,
        name: name.to_string(),
        location: Some(Point { x: 0, y: 0 }),
        mode: Some(Size { w, h }),
        transform: Transform::Normal,
        scale: s(1.0),
        scaled_size: Size { w, h },
        usable: rect(0, 0, w, h),
        state: None,
    };
    init_output_state(&mut output, pf(0.0, 0.0), s(0.96), Point { x: 0, y: 0 }, at(5));
    output
}

fn window(id: u64, x: i32, y: i32, w: i32, h: i32) -> Window {
    Window {
        id,
        surface: Some(id + 100),
        parent: None,
        modal: false,
        location: Point { x, y },
        geometry: rect(0, 0, w, h),
        bbox: rect(0, 0, w, h),
        rule: None,
    }
}

fn fullscreen(output: u64, window: u64) -> FullscreenEntry {
    FullscreenEntry {
        output,
        state: FullscreenState {
            window,
            saved_location: Point { x: 1, y: 2 },
            saved_camera: pf(3.0, 4.0),
            saved_zoom: s(0.5),
            saved_size: Size { w: 5, h: 6 },
        },
    }
}

fn ids(wm: &DriftWm) -> Vec<u64> {
    wm.windows.iter().map(|w| w.id).collect()
}

fn named(icon: CursorIcon) -> CursorImageStatus {
    CursorImageStatus::Named(icon)
}

fn shows(wm: &DriftWm, name: &str) -> bool {
    match &wm.cursor.cursor_status {
        CursorImageStatus::Named(icon) => icon.name() == name,
        _ => false,
    }
}

fn token(has_serial: bool, surface: Option<u64>) -> ActivationToken {
    ActivationToken { has_serial, surface }
}

fn head(name: &str) -> RequestedHeadConfig {
    RequestedHeadConfig {
        output_name: name.to_string(),
        transform: None,
        scale: None,
        position: None,
        scaled_size: Size { w: 1, h: 1 },
    }
}

#[test]
fn the_compositor_keeps_control_of_the_cursor() {
    let mut wm = wm();
    wm.cursor.grab_cursor = true;
    wm.cursor_image(CursorImageStatus::Hidden, at(1));
    assert!(shows(&wm, "default"));
    wm.cursor.grab_cursor = false;
    wm.cursor.decoration_cursor = true;
    wm.cursor_image(CursorImageStatus::Hidden, at(1));
    assert!(shows(&wm, "default"));
    wm.cursor.decoration_cursor = false;
    wm.cursor_image(CursorImageStatus::Hidden, at(1));
    assert!(matches!(wm.cursor.cursor_status, CursorImageStatus::Hidden));
}

#[test]
fn the_loading_cursor_replaces_the_default_one() {
    let mut wm = wm();
    assert!(wm.token_created(true, at(1_000)));
    assert_eq!(wm.cursor.exec_cursor_show_at, Some(at(150_001_000)));
    assert_eq!(wm.cursor.exec_cursor_deadline, Some(at(5_000_001_000)));
    wm.cursor_image(named(CursorIcon::Default), at(2_000));
    assert!(shows(&wm, "default"));
    wm.cursor_image(named(CursorIcon::Default), at(150_001_000));
    assert!(shows(&wm, "wait"));
    wm.cursor_image(named(CursorIcon::Other("text".to_string())), at(150_001_000));
    assert!(shows(&wm, "text"));
    wm.cursor_image(CursorImageStatus::Surface(5), at(150_001_000));
    assert!(matches!(wm.cursor.cursor_status, CursorImageStatus::Surface(5)));
    wm.cursor.exec_cursor_show_at = None;
    wm.cursor_image(named(CursorIcon::Default), at(0));
    assert!(shows(&wm, "wait"));
}

#[test]
fn tokens_without_input_start_nothing() {
    let mut wm = wm();
    assert!(wm.token_created(false, at(1_000)));
    assert_eq!(wm.cursor.exec_cursor_show_at, None);
    assert_eq!(wm.cursor.exec_cursor_deadline, None);
}

#[test]
fn lights_are_for_keyboards() {
    let wm = wm();
    assert_eq!(wm.led_state_changed(&vec![false, true, true, false, true]), vec![1, 2, 4]);
    assert!(wm.led_state_changed(&vec![]).is_empty());
}

#[test]
fn focus_history_is_frozen_while_cycling() {
    let mut wm = wm();
    let change = wm.focus_changed(Some(5), Some(77));
    assert_eq!((change.selection_client, change.history), (Some(77), Some(5)));
    let change = wm.focus_changed(None, Some(77));
    assert_eq!((change.selection_client, change.history), (None, None));
    wm.cycle_state = Some(0);
    let change = wm.focus_changed(Some(5), Some(77));
    assert_eq!((change.selection_client, change.history), (Some(77), None));
}

#[test]
fn drag_icons_come_and_go() {
    let mut wm = wm();
    wm.dnd_requested(Some(4));
    assert_eq!(wm.dnd_icon, Some(4));
    wm.dropped();
    assert_eq!(wm.dnd_icon, None);
}

#[test]
fn buffers_need_a_renderer_that_takes_them() {
    let wm = wm();
    assert!(!wm.dmabuf_imported(None));
    assert!(!wm.dmabuf_imported(Some(false)));
    assert!(wm.dmabuf_imported(Some(true)));
}

#[test]
fn new_surfaces_are_told_the_active_scale() {
    let mut wm = wm();
    assert_eq!(wm.new_fractional_scale().bits, 1.0f64.to_bits());
    wm.outputs.push(output(1, "DP-1", 100, 100));
    wm.outputs[0].scale = s(1.25);
    assert_eq!(wm.new_fractional_scale().bits, 1.25f64.to_bits());
}

#[test]
fn position_hints_need_an_active_constraint() {
    let mut wm = wm();
    wm.windows.push(window(1, 40, 50, 10, 10));
    assert_eq!(wm.cursor_position_hint(101, true), Some(Point { x: 40, y: 50 }));
    assert_eq!(wm.cursor_position_hint(101, false), None);
    assert_eq!(wm.cursor_position_hint(7, true), None);
}

#[test]
fn restricted_clients_inhibit_nothing() {
    let wm = wm();
    assert!(wm.new_inhibitor(None));
    assert!(wm.new_inhibitor(Some(None)));
    assert!(wm.new_inhibitor(Some(Some(ClientState { is_restricted: false }))));
    assert!(!wm.new_inhibitor(Some(Some(ClientState { is_restricted: true }))));
}

#[test]
fn popups_ask_for_their_parent() {
    let mut wm = wm();
    wm.windows.push(window(1, 40, 50, 10, 20));
    assert_eq!(wm.parent_geometry(101), rect(0, 0, 10, 20));
    assert_eq!(wm.parent_geometry(7), rect(0, 0, 0, 0));
}

#[test]
fn idle_inhibitors_are_listed() {
    let mut wm = wm();
    wm.inhibit(5);
    wm.inhibit(5);
    wm.inhibit(6);
    wm.uninhibit(5);
    wm.uninhibit(9);
    let expected: HashSet<u64> = [6u64].iter().cloned().collect();
    assert_eq!(wm.idle_inhibiting_surfaces, expected);
}

#[test]
fn activation_needs_user_input() {
    let mut wm = wm();
    wm.windows.push(window(1, 0, 0, 10, 10));
    wm.windows.push(window(2, 0, 0, 10, 10));
    let r = wm.request_activation(token(false, None), None, None, 101, s(1.0));
    assert_eq!(r, Activation::Ignored);
    assert_eq!(ids(&wm), vec![1, 2]);
    assert_eq!(wm.keyboard_focus, None);
    let r = wm.request_activation(token(true, None), None, None, 101, s(0.5));
    assert_eq!(r, Activation::Raised(1));
    assert_eq!(ids(&wm), vec![2, 1]);
    assert_eq!(wm.keyboard_focus, Some(101));
    let r = wm.request_activation(token(true, None), None, None, 102, s(0.49));
    assert_eq!(r, Activation::Navigate { window: 2, reset_zoom: true });
    assert_eq!(ids(&wm), vec![2, 1]);
    let r = wm.request_activation(token(true, None), None, None, 102, s(f64::NAN));
    assert_eq!(r, Activation::Navigate { window: 2, reset_zoom: true });
    let r = wm.request_activation(token(true, None), None, None, 555, s(1.0));
    assert_eq!(r, Activation::Ignored);
    wm.windows[0].geometry = rect(0, 0, 0, 10);
    let r = wm.request_activation(token(true, None), None, None, 102, s(1.0));
    assert_eq!(r, Activation::Ignored);
}

#[test]
fn self_activation_cancels_the_loading_cursor() {
    let mut wm = wm();
    wm.token_created(true, at(0));
    wm.request_activation(token(false, Some(1)), Some(3), Some(4), 101, s(1.0));
    assert!(wm.cursor.exec_cursor_deadline.is_some());
    wm.request_activation(token(false, Some(1)), None, None, 101, s(1.0));
    assert!(wm.cursor.exec_cursor_deadline.is_some());
    wm.request_activation(token(false, None), Some(3), Some(3), 101, s(1.0));
    assert!(wm.cursor.exec_cursor_deadline.is_some());
    wm.request_activation(token(false, Some(1)), Some(3), Some(3), 101, s(1.0));
    assert!(wm.cursor.exec_cursor_deadline.is_none());
    assert!(wm.cursor.exec_cursor_show_at.is_none());
}

#[test]
fn modal_dialogs_take_the_focus() {
    let mut wm = wm();
    wm.windows.push(window(1, 0, 0, 10, 10));
    wm.windows.push(window(2, 0, 0, 10, 10));
    assert_eq!(wm.dialog_hint_changed(false, 101), Activation::Ignored);
    assert_eq!(wm.keyboard_focus, None);
    assert_eq!(wm.dialog_hint_changed(true, 999), Activation::Ignored);
    assert_eq!(wm.keyboard_focus, None);
    assert_eq!(wm.dialog_hint_changed(true, 101), Activation::Raised(1));
    assert_eq!(wm.keyboard_focus, Some(101));
    assert_eq!(ids(&wm), vec![2, 1]);
}

#[test]
fn task_bars_command_windows() {
    let mut wm = wm();
    wm.windows.push(window(1, 0, 0, 10, 10));
    wm.config.zoom_reset_on_activation = false;
    assert_eq!(wm.activate(101), Activation::Navigate { window: 1, reset_zoom: false });
    assert_eq!(wm.activate(7), Activation::Ignored);
    assert_eq!(wm.close(101), Some(1));
    assert_eq!(wm.close(7), None);
    assert_eq!(wm.set_fullscreen(101), Some(1));
    assert_eq!(wm.set_maximized(101), Some(1));
    assert_eq!(wm.unset_maximized(7), None);
    assert_eq!(wm.unset_fullscreen(101), None);
    wm.fullscreen.push(fullscreen(4, 8));
    wm.fullscreen.push(fullscreen(5, 1));
    assert_eq!(wm.unset_fullscreen(101), Some(5));
    wm.outputs.push(output(5, "DP-5", 10, 10));
    wm.outputs.push(output(6, "DP-6", 10, 10));
    wm.outputs[0].location = None;
    assert_eq!(wm.foreign_toplevel_outputs(), vec![6]);
}

#[test]
fn the_default_decoration_is_advertised() {
    let mut wm = wm();
    assert_eq!(
        wm.new_decoration(false),
        DecorationReply { mode: WireMode::ClientSide, send_configure: false }
    );
    wm.config.decorations.default_mode = DecorationMode::Borderless;
    assert_eq!(
        wm.unset_mode(true),
        DecorationReply { mode: WireMode::ServerSide, send_configure: true }
    );
    assert_eq!(decoration_mode_to_wire(&DecorationMode::Client), WireMode::ClientSide);
    assert_eq!(decoration_mode_to_wire(&DecorationMode::Server), WireMode::ServerSide);
    assert_eq!(decoration_mode_to_wire(&DecorationMode::Bare), WireMode::ServerSide);
}

#[test]
fn title_bars_follow_rules_then_requests() {
    let cases = [
        // rule, default, requested, gets a bar
        (Some(DecorationMode::Server), DecorationMode::Client, WireMode::ClientSide, true),
        (Some(DecorationMode::Client), DecorationMode::Server, WireMode::ServerSide, false),
        (Some(DecorationMode::Borderless), DecorationMode::Server, WireMode::ServerSide, false),
        (None, DecorationMode::Client, WireMode::ServerSide, true),
        (None, DecorationMode::Client, WireMode::ClientSide, false),
        (None, DecorationMode::Server, WireMode::ClientSide, true),
        (None, DecorationMode::Server, WireMode::ServerSide, true),
        (None, DecorationMode::Borderless, WireMode::ServerSide, false),
        (None, DecorationMode::Bare, WireMode::ServerSide, false),
    ];
    for (rule, default_mode, requested, bar) in cases {
        let mut wm = wm();
        wm.config.decorations.default_mode = default_mode;
        wm.windows.push(window(1, 0, 0, 30, 10));
        let reply = wm.request_mode(101, requested, rule, true);
        assert_eq!(reply, DecorationReply { mode: requested, send_configure: true });
        assert_eq!(wm.pending_ssd.contains(&101), bar);
        assert_eq!(wm.decorations.contains_key(&101), bar);
        if bar {
            assert_eq!(wm.decorations[&101], WindowDecoration { width: 30, focused: true });
        }
    }
}

#[test]
fn title_bars_wait_for_a_width() {
    let mut wm = wm();
    wm.windows.push(window(1, 0, 0, 0, 0));
    wm.request_mode(101, WireMode::ServerSide, None, false);
    assert!(wm.pending_ssd.contains(&101));
    assert!(wm.decorations.is_empty());
    wm.request_mode(555, WireMode::ServerSide, None, false);
    assert!(wm.pending_ssd.contains(&555));
    wm.windows[0].geometry = rect(0, 0, 40, 10);
    wm.decorations.insert(101, WindowDecoration { width: 9, focused: false });
    wm.request_mode(101, WireMode::ServerSide, None, false);
    assert_eq!(wm.decorations[&101].width, 9);
}

#[test]
fn switching_to_client_side_drops_the_chrome() {
    let mut wm = wm();
    wm.windows.push(window(1, 0, 0, 30, 10));
    wm.request_mode(101, WireMode::ServerSide, None, true);
    wm.render.shadow_cache.insert(101);
    wm.render.shadow_cache.insert(102);
    wm.request_mode(101, WireMode::ServerSide, Some(DecorationMode::Bare), true);
    assert!(wm.decorations.contains_key(&101) && wm.render.shadow_cache.contains(&101));
    wm.request_mode(101, WireMode::ClientSide, None, true);
    assert!(!wm.decorations.contains_key(&101));
    assert!(!wm.pending_ssd.contains(&101));
    assert!(!wm.render.shadow_cache.contains(&101));
    assert!(wm.render.shadow_cache.contains(&102));
}

#[test]
fn capture_sources() {
    let mut wm = wm();
    wm.windows.push(window(1, 0, 0, 30, 0));
    assert_eq!(wm.output_source_created(4), SourceKind::Output(4));
    assert_eq!(
        wm.toplevel_source_created(Some(101)),
        SourceKind::Toplevel { surface: 101, initial_size: Size { w: 30, h: 1 } }
    );
    assert_eq!(
        wm.toplevel_source_created(Some(7)),
        SourceKind::Toplevel { surface: 7, initial_size: Size { w: 1, h: 1 } }
    );
    assert_eq!(wm.toplevel_source_created(None), SourceKind::Destroyed);
    wm.frame(3);
    wm.frame(4);
    wm.capture_frame(5);
    assert_eq!(wm.pending_screencopies, vec![3, 4]);
    assert_eq!(wm.pending_captures, vec![5]);
}

#[test]
fn capture_constraints_need_device_and_formats() {
    let mut wm = wm();
    assert_eq!(wm.dmabuf_constraints(), None);
    wm.render_device = Some(7);
    assert_eq!(wm.dmabuf_constraints(), None);
    wm.render_dmabuf_formats = Some(vec![(1, 2), (3, 4)]);
    assert_eq!(wm.dmabuf_constraints(), Some((7, vec![(1, 2), (3, 4)])));
    wm.render_device = None;
    assert_eq!(wm.dmabuf_constraints(), None);
}

#[test]
fn output_configurations_are_applied() {
    let mut wm = wm();
    wm.outputs.push(output(1, "DP-1", 100, 100));
    wm.outputs.push(output(2, "DP-2", 100, 50));
    wm.active_crtcs.insert(3);
    wm.render.cached_bg_elements.insert(&"DP-2".to_string());
    wm.render.cached_tile_bg.insert(&"DP-1".to_string());
    let mut request = head("DP-2");
    request.transform = Some(Transform::Rotated90);
    request.scale = Some(s(2.0));
    request.position = Some((100, -5));
    request.scaled_size = Size { w: 25, h: 50 };
    assert!(wm.apply_output_config(&vec![request]));
    let changed = &wm.outputs[1];
    assert_eq!(changed.transform, Transform::Rotated90);
    assert_eq!(changed.scale.bits, 2.0f64.to_bits());
    assert_eq!(changed.scaled_size, Size { w: 25, h: 50 });
    assert_eq!(output_state(changed).layout_position, Point { x: 100, y: -5 });
    assert_eq!(wm.outputs[0].scale.bits, 1.0f64.to_bits());
    assert!(wm.output_config_dirty);
    assert!(wm.redraws_needed.contains(&3));
    assert!(!wm.render.cached_bg_elements.contains(&"DP-2".to_string()));
    assert!(wm.render.cached_tile_bg.contains(&"DP-1".to_string()));
}

#[test]
fn an_unknown_output_stops_the_configuration() {
    let mut wm = wm();
    wm.outputs.push(output(1, "DP-1", 100, 100));
    wm.outputs.push(output(2, "DP-2", 100, 50));
    wm.outputs[1].location = None;
    wm.active_crtcs.insert(3);
    let mut first = head("DP-1");
    first.position = Some((5, 6));
    let mut last = head("DP-1");
    last.position = Some((9, 9));
    assert!(!wm.apply_output_config(&vec![first, head("DP-2"), last]));
    assert_eq!(output_state(&wm.outputs[0]).layout_position, Point { x: 5, y: 6 });
    assert!(!wm.output_config_dirty);
    assert!(wm.redraws_needed.is_empty());
    assert!(wm.apply_output_config(&vec![]));
    assert!(wm.output_config_dirty);
}

#[test]
fn locking_stops_everything() {
    let mut wm = wm();
    wm.outputs.push(output(1, "DP-1", 100, 100));
    wm.set_camera(pf(3.0, 4.0));
    wm.set_camera_target(Some(pf(1.0, 1.0)));
    wm.set_zoom_target(Some(s(2.0)));
    wm.set_zoom_animation_center(Some(pf(0.0, 0.0)));
    wm.set_panning(true);
    wm.with_output_state(|state: &mut OutputState| {
        state.momentum.velocity = PointF { x: Scalar::one(), y: Scalar::zero() };
        state.edge_pan_velocity = Some(PointF { x: Scalar::one(), y: Scalar::zero() });
    });
    wm.token_created(true, at(0));
    wm.gesture_state = Some(4);
    wm.cycle_state = Some(1);
    wm.suppressed_keys.insert(30);
    wm.cursor.grab_cursor = true;
    wm.keyboard_focus = Some(8);
    wm.active_crtcs.insert(2);
    wm.pending_middle_click =
        Some(PendingMiddleClick { press_time: 1, release_time: None, timer_token: 66 });
    assert!(wm.has_active_animations());
    let effects = wm.lock(42, Some((9, true)));
    assert_eq!(effects, LockEffects { cancel_timer: Some(66), release_constraint: Some(9) });
    assert_eq!(wm.session_lock, SessionLock::Pending(42));
    assert!(!wm.has_active_animations());
    assert!(!wm.panning());
    assert_eq!(wm.camera().x.bits, 3.0f64.to_bits());
    assert!(wm.gesture_state.is_none() && wm.cycle_state.is_none());
    assert!(wm.suppressed_keys.is_empty() && wm.pending_middle_click.is_none());
    assert!(!wm.cursor.grab_cursor && wm.keyboard_focus.is_none());
    assert!(shows(&wm, "default"));
    assert!(wm.redraws_needed.contains(&2));
    let effects = wm.lock(43, Some((9, false)));
    assert_eq!(effects, LockEffects { cancel_timer: None, release_constraint: None });
}

#[test]
fn unlocking_returns_the_focus() {
    let mut wm = wm();
    wm.windows.push(window(1, 0, 0, 10, 10));
    wm.lock(1, None);
    wm.unlock();
    assert_eq!(wm.keyboard_focus, None);
    wm.lock(1, None);
    wm.focus_history = vec![
        RecentWindow { window: 1, surface: Some(101) },
        RecentWindow { window: 5, surface: Some(105) },
    ];
    wm.lock_surfaces.insert(1, 9);
    wm.active_crtcs.insert(2);
    wm.unlock();
    assert_eq!(wm.session_lock, SessionLock::Unlocked);
    assert!(wm.lock_surfaces.is_empty());
    assert_eq!(wm.keyboard_focus, Some(101));
    assert!(wm.redraws_needed.contains(&2));
    // A window that is off the canvas gets the focus back as well.
    wm.focus_history = vec![RecentWindow { window: 8, surface: Some(108) }];
    wm.lock(2, None);
    wm.unlock();
    assert_eq!(wm.keyboard_focus, Some(108));
}

#[test]
fn lock_surfaces_fill_their_output() {
    let mut wm = wm();
    assert_eq!(wm.new_surface(50, None), None);
    assert!(wm.lock_surfaces.is_empty());
    wm.outputs.push(output(1, "DP-1", 100, 80));
    wm.outputs.push(output(2, "DP-2", 60, 40));
    assert_eq!(
        wm.new_surface(50, Some(2)),
        Some(LockConfigure { output: 2, width: 60, height: 40 })
    );
    assert_eq!(
        wm.new_surface(51, None),
        Some(LockConfigure { output: 1, width: 100, height: 80 })
    );
    assert_eq!(wm.lock_surfaces[&1], 51);
    assert_eq!(wm.lock_surfaces[&2], 50);
}
