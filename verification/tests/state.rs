use driftwm::config::{
    AppliedWindowRule, Config, DecorationConfig, KeyboardLayout, OutputOutlineSettings, PassKeys,
    Transform,
};
use driftwm::geometry::{HalfPoint, Point, PointF, Rect, Size};
use driftwm::scalar::Scalar;
use driftwm::state::focus::PointerStep;
use driftwm::state::layout::Bearing;
use driftwm::state::output::{layout_center, oriented_mode_size};
use driftwm::state::placement::{CursorPlacement, FrameRect};
use driftwm::state::setup::{keyboard_setup, Protocol};
use driftwm::state::client::restricted_client;
use driftwm::state::{
    client_is_unrestricted, init_output_state, output_logical_size, output_state,
    usable_center_for_output, ClientState, DriftWm, FullscreenEntry, FullscreenState,
    MomentumState, Output, OutputState, PendingMiddleClick, Timestamp, Window,
};
use std::collections::HashSet;

fn s(v: f64) -> Scalar {
    Scalar::from_bits(v.to_bits())
}

fn pf(x: f64, y: f64) -> PointF {
    PointF { x: s(x), y: s(y) }
}

fn rect(x: i32, y: i32, w: i32, h: i32) -> Rect {
    Rect { loc: Point { x, y }, size: Size { w, h } }
}

fn at(nanos: u64) -> Timestamp {
    Timestamp { nanos }
}

fn config() -> Config {
    Config {
        decorations: DecorationConfig::default(),
        output_outline: OutputOutlineSettings::default(),
        keyboard_layout: KeyboardLayout {
            layout: "us".to_string(),
            variant: "intl".to_string(),
            options: String::new(),
            model: "pc105".to_string(),
        },
        num_lock: true,
        caps_lock: false,
        repeat_delay: 200,
        repeat_rate: 25,
        zoom_reset_on_activation: true,
        cursor_theme: None,
        cursor_size: None,
        snap_gap: s(8.0),
        autostart: vec!["bar".to_string(), "panel --top".to_string()],
    }
}

fn wm() -> DriftWm {
    DriftWm::new(config(), at(1_000))
}

fn output(id: u64, name: &str, w: i32, h: i32) -> Output {
    let mut output = Output {
        id,
        name: name.to_string(),
        location: Some(Point { x: 0, y: 0 }),
        mode: Some(Size { w, h }),
        transform: Transform::Normal,
        scale: s(1.0),
        scaled_size: Size { w, h },
        usable: rect(0, 0, w, h),
        state: None,
    };
    init_output_state(&mut output, pf(0.0, 0.0), s(0.96), Point { x: 0, y: 0 }, at(5));
    output
}

fn window(id: u64, x: i32, y: i32, w: i32, h: i32) -> Window {
    Window {
        id,
        surface: Some(id + 100),
        parent: None,
        modal: false,
        location: Point { x, y },
        geometry: rect(0, 0, w, h),
        bbox: rect(0, 0, w, h),
        rule: None,
    }
}

fn widget_rule() -> AppliedWindowRule {
    AppliedWindowRule {
        widget: true,
        decoration: None,
        blur: false,
        opacity: None,
        pass_keys: PassKeys::NoKeys,
        position: None,
        size: None,
    }
}

fn fullscreen(output: u64, window: u64) -> FullscreenEntry {
    FullscreenEntry {
        output,
        state: FullscreenState {
            window,
            saved_location: Point { x: 1, y: 2 },
            saved_camera: pf(3.0, 4.0),
            saved_zoom: s(0.5),
            saved_size: Size { w: 5, h: 6 },
        },
    }
}

fn ids(wm: &DriftWm) -> Vec<u64> {
    wm.windows.iter().map(|w| w.id).collect()
}

fn set(items: &[u64]) -> HashSet<u64> {
    items.iter().cloned().collect()
}

#[test]
fn a_new_compositor_is_empty() {
    let wm = wm();
    assert!(wm.windows.is_empty() && wm.outputs.is_empty() && wm.fullscreen.is_empty());
    assert_eq!(wm.active_output(), None);
    assert_eq!(wm.keyboard_focus, None);
    assert_eq!(wm.start_time, at(1_000));
    assert_eq!(wm.autostart, vec!["bar".to_string(), "panel --top".to_string()]);
    assert!(!wm.has_active_animations());
    assert!(!wm.cursor_is_animated());
}

#[test]
fn the_keyboard_is_set_up_from_the_configuration() {
    let setup = keyboard_setup(&config());
    assert_eq!(setup.layout, "us");
    assert_eq!(setup.variant, "intl");
    assert_eq!(setup.model, "pc105");
    assert_eq!(setup.options, None);
    assert_eq!((setup.repeat_delay, setup.repeat_rate), (200, 25));
    assert!(setup.modifiers.num_lock && !setup.modifiers.caps_lock && !setup.modifiers.ctrl);
}

#[test]
fn restricted_clients_are_denied_privileged_protocols() {
    assert!(client_is_unrestricted(None));
    assert!(client_is_unrestricted(Some(ClientState::default())));
    assert!(!client_is_unrestricted(Some(restricted_client())));
    let jailed = Some(ClientState { is_restricted: true });
    for protocol in [
        Protocol::Screencopy,
        Protocol::VirtualKeyboard,
        Protocol::ForeignToplevelManagement,
        Protocol::SessionLock,
        Protocol::DataControl,
    ] {
        assert!(protocol.is_privileged());
        assert!(!protocol.is_open_to(jailed));
        assert!(protocol.is_open_to(None));
    }
    for protocol in [Protocol::XdgShell, Protocol::TextInput, Protocol::Presentation] {
        assert!(protocol.is_open_to(jailed));
    }
}

#[test]
fn output_state_is_initialised_once() {
    let mut out = output(1, "DP-1", 1920, 1080);
    let state = output_state(&out);
    assert_eq!(state.zoom.bits, 1.0f64.to_bits());
    assert!(state.last_rendered_zoom.is_nan());
    assert!(state.last_rendered_camera.x.is_nan() && state.last_rendered_camera.y.is_nan());
    assert_eq!(state.momentum.friction.bits, 0.96f64.to_bits());
    assert!(!state.panning && state.home_return.is_none());
    assert_eq!(state.frame_callback_sequence, 0);
    assert_eq!(state.last_frame_instant, at(5));
    init_output_state(&mut out, pf(9.0, 9.0), s(0.5), Point { x: 7, y: 7 }, at(6));
    assert_eq!(output_state(&out).camera.x.bits, 0.0f64.to_bits());
    assert_eq!(output_state(&out).layout_position, Point { x: 0, y: 0 });
}

#[test]
fn output_sizes_follow_mode_and_transform() {
    let mut out = output(1, "DP-1", 1920, 1080);
    assert_eq!(output_logical_size(&out), Size { w: 1920, h: 1080 });
    assert_eq!(oriented_mode_size(&out), Some(Size { w: 1920, h: 1080 }));
    out.transform = Transform::Flipped90;
    assert_eq!(oriented_mode_size(&out), Some(Size { w: 1080, h: 1920 }));
    out.mode = None;
    assert_eq!(output_logical_size(&out), Size { w: 1, h: 1 });
    assert_eq!(oriented_mode_size(&out), None);
    out.usable = rect(0, 30, 1920, 1051);
    assert_eq!(usable_center_for_output(&out), HalfPoint { x2: 1920, y2: 1111 });
}

#[test]
fn momentum_stops() {
    let mut momentum = MomentumState::new(s(0.9));
    assert!(!momentum.is_coasting());
    momentum.velocity = pf(-0.0, 0.0);
    assert!(!momentum.is_coasting());
    momentum.velocity = pf(0.0, 2.5);
    assert!(momentum.is_coasting());
    momentum.velocity = pf(f64::NAN, 0.0);
    assert!(momentum.is_coasting());
    momentum.stop();
    assert!(!momentum.is_coasting());
    assert_eq!(momentum.friction.bits, 0.9f64.to_bits());
}

#[test]
fn widgets_lie_below_and_dialogs_above() {
    let mut wm = wm();
    wm.windows.push(window(1, 0, 0, 10, 10));
    let mut child = window(2, 0, 0, 10, 10);
    child.parent = Some(101);
    wm.windows.push(child);
    wm.windows.push(window(3, 0, 0, 10, 10));
    let mut widget = window(4, 0, 0, 10, 10);
    widget.rule = Some(widget_rule());
    wm.windows.push(widget);
    wm.windows.push(window(5, 0, 0, 10, 10));
    wm.enforce_below_windows();
    assert_eq!(ids(&wm), vec![4, 1, 3, 5, 2]);
    assert_eq!(wm.render.blur_geometry_generation, 1);
    wm.enforce_below_windows();
    assert_eq!(ids(&wm), vec![4, 1, 3, 5, 2]);
    assert_eq!(wm.render.blur_geometry_generation, 2);
}

#[test]
fn fullscreen_windows_lie_on_top() {
    let mut wm = wm();
    for id in 1..5 {
        wm.windows.push(window(id, 0, 0, 10, 10));
    }
    wm.windows[3].parent = Some(101);
    wm.windows[0].rule = Some(widget_rule());
    wm.fullscreen.push(fullscreen(1, 2));
    wm.fullscreen.push(fullscreen(2, 1));
    wm.enforce_below_windows();
    // The dialog of a fullscreen window lies above it.
    assert_eq!(ids(&wm), vec![3, 1, 4, 2]);
}

fn child(id: u64, parent: u64) -> Window {
    let mut w = window(id, 0, 0, 10, 10);
    w.parent = Some(parent + 100);
    w
}

#[test]
fn nested_dialogs_lie_above_their_parents() {
    let mut wm = wm();
    wm.windows.push(child(3, 2));
    wm.windows.push(child(2, 1));
    wm.windows.push(window(1, 0, 0, 10, 10));
    wm.enforce_below_windows();
    assert_eq!(ids(&wm), vec![1, 2, 3]);
    // Dialogs keep their order where they lie above their parents.
    wm.windows.push(child(5, 1));
    wm.windows.insert(0, child(4, 9));
    wm.windows.push(window(6, 0, 0, 10, 10));
    wm.enforce_below_windows();
    assert_eq!(ids(&wm), vec![1, 6, 4, 2, 3, 5]);
    wm.raise_and_focus(1, Some(101));
    assert_eq!(ids(&wm), vec![6, 1, 4, 2, 3, 5]);
    wm.fullscreen.push(fullscreen(1, 1));
    wm.enforce_below_windows();
    assert_eq!(ids(&wm), vec![6, 4, 1, 2, 3, 5]);
}

#[test]
fn dialogs_of_different_windows_keep_their_order() {
    let mut wm = wm();
    wm.windows.push(window(1, 0, 0, 10, 10));
    wm.windows.push(window(2, 0, 0, 10, 10));
    wm.windows.push(child(3, 1));
    wm.windows.push(child(4, 3));
    wm.windows.push(child(5, 2));
    wm.enforce_below_windows();
    assert_eq!(ids(&wm), vec![1, 2, 3, 4, 5]);
    // A raised dialog lies above all others, with its own dialogs above it.
    wm.raise_and_focus(3, Some(103));
    assert_eq!(ids(&wm), vec![1, 2, 5, 3, 4]);
    wm.raise_and_focus(5, Some(105));
    assert_eq!(ids(&wm), vec![1, 2, 3, 4, 5]);
}

#[test]
fn dialogs_follow_their_own_fullscreen_window() {
    let mut wm = wm();
    // Windows 6 and 5 are fullscreen, and 5 belongs to 6.
    wm.windows.push(child(1, 5));
    wm.windows.push(child(2, 3));
    wm.windows.push(child(3, 6));
    wm.windows.push(child(4, 9));
    wm.windows.push(child(5, 6));
    wm.windows.push(window(6, 0, 0, 10, 10));
    wm.fullscreen.push(fullscreen(1, 6));
    wm.fullscreen.push(fullscreen(2, 5));
    wm.enforce_below_windows();
    assert_eq!(ids(&wm), vec![4, 6, 3, 2, 5, 1]);
    wm.enforce_below_windows();
    assert_eq!(ids(&wm), vec![4, 6, 3, 2, 5, 1]);
}

#[test]
fn widgets_of_a_window_lie_below_its_dialogs() {
    let mut wm = wm();
    wm.windows.push(window(1, 0, 0, 10, 10));
    wm.windows.push(window(2, 0, 0, 10, 10));
    wm.windows.push(child(3, 1));
    wm.windows.push(child(4, 2));
    // Of a window, of that widget, of a dialog.
    for (id, parent) in [(5, 1), (6, 5), (7, 3)] {
        let mut widget = child(id, parent);
        widget.rule = Some(widget_rule());
        wm.windows.push(widget);
    }
    wm.enforce_below_windows();
    assert_eq!(ids(&wm), vec![1, 2, 5, 6, 3, 7, 4]);
}

#[test]
fn parents_in_a_circle_are_stacked_all_the_same() {
    let mut wm = wm();
    wm.windows.push(child(1, 2));
    wm.windows.push(child(2, 1));
    wm.windows.push(window(3, 0, 0, 10, 10));
    wm.windows.push(child(4, 4));
    wm.enforce_below_windows();
    assert_eq!(ids(&wm), vec![3, 1, 2, 4]);
    // A dialog between them stays there, and one of theirs lies above both.
    wm.windows.insert(2, child(5, 3));
    wm.windows.insert(0, child(6, 1));
    wm.enforce_below_windows();
    assert_eq!(ids(&wm), vec![3, 1, 5, 2, 6, 4]);
    wm.enforce_below_windows();
    assert_eq!(ids(&wm), vec![3, 1, 5, 2, 6, 4]);
}

#[test]
fn widgets_with_a_parent_stay_low_unless_it_is_a_normal_window() {
    let mut wm = wm();
    wm.windows.push(window(1, 0, 0, 10, 10));
    // Of a window that is not on the canvas, of a widget, of a normal window.
    for (id, parent) in [(2, 77), (3, 2), (4, 1)] {
        let mut widget = child(id, parent);
        widget.rule = Some(widget_rule());
        wm.windows.push(widget);
    }
    // A dialog of a widget is a normal window.
    wm.windows.push(child(5, 2));
    wm.enforce_below_windows();
    assert_eq!(ids(&wm), vec![2, 3, 1, 4, 5]);
}

#[test]
fn a_widget_without_a_surface_is_a_normal_window() {
    let mut w = window(1, 0, 0, 10, 10);
    w.rule = Some(widget_rule());
    assert!(w.is_widget());
    w.surface = None;
    assert!(!w.is_widget());
}

#[test]
fn raising_focuses_and_restacks() {
    let mut wm = wm();
    for id in 1..4 {
        wm.windows.push(window(id, 0, 0, 10, 10));
    }
    wm.windows[2].rule = Some(widget_rule());
    wm.raise_and_focus(1, Some(101));
    assert_eq!(ids(&wm), vec![3, 2, 1]);
    assert_eq!(wm.keyboard_focus, Some(101));
    assert_eq!(wm.activated, Some(1));
    wm.raise_and_focus(3, Some(103));
    assert_eq!(ids(&wm), vec![3, 2, 1]);
    assert_eq!(wm.keyboard_focus, Some(103));
}

#[test]
fn a_window_off_the_canvas_only_gets_the_focus() {
    let mut wm = wm();
    wm.windows.push(window(1, 0, 0, 10, 10));
    wm.windows.push(window(2, 0, 0, 10, 10));
    wm.raise_and_focus(1, Some(101));
    wm.raise_and_focus(9, Some(109));
    assert_eq!(ids(&wm), vec![2, 1]);
    assert_eq!(wm.activated, Some(1));
    assert_eq!(wm.keyboard_focus, Some(109));
    assert_eq!(wm.render.blur_geometry_generation, 2);
    wm.raise_and_focus(8, None);
    assert_eq!(wm.keyboard_focus, None);
}

#[test]
fn focus_goes_to_the_innermost_modal_dialog() {
    let mut wm = wm();
    wm.windows.push(window(1, 0, 0, 10, 10));
    let mut picker = window(2, 0, 0, 10, 10);
    picker.parent = Some(101);
    picker.modal = true;
    wm.windows.push(picker);
    let mut confirm = window(3, 0, 0, 10, 10);
    confirm.parent = Some(102);
    confirm.modal = true;
    wm.windows.push(confirm);
    let mut plain = window(4, 0, 0, 10, 10);
    plain.parent = Some(101);
    wm.windows.push(plain);
    wm.raise_and_focus(1, Some(101));
    assert_eq!(wm.keyboard_focus, Some(103));
    assert_eq!(wm.topmost_modal_child(&wm.windows[0]).map(|w| w.id), Some(3));
    let confirm = wm.windows.iter().find(|w| w.id == 3).unwrap();
    assert!(wm.topmost_modal_child(confirm).is_none());
}

#[test]
fn the_topmost_of_several_dialogs_is_chosen() {
    let mut wm = wm();
    wm.windows.push(window(1, 0, 0, 10, 10));
    for id in 2..5 {
        let mut dialog = window(id, 0, 0, 10, 10);
        dialog.parent = Some(101);
        dialog.modal = id != 4;
        wm.windows.push(dialog);
    }
    assert_eq!(wm.topmost_modal_child(&wm.windows[0]).map(|w| w.id), Some(3));
}

#[test]
fn circular_dialogs_are_cut_off() {
    let mut wm = wm();
    for (id, parent) in [(1u64, 102u64), (2, 101)] {
        let mut dialog = window(id, 0, 0, 10, 10);
        dialog.parent = Some(parent);
        dialog.modal = true;
        wm.windows.push(dialog);
    }
    // Ten steps from window 1 lead back to window 1.
    assert_eq!(wm.topmost_modal_child(&wm.windows[0]).map(|w| w.id), Some(1));
    assert_eq!(wm.topmost_modal_child(&wm.windows[1]).map(|w| w.id), Some(2));
}

#[test]
fn windows_are_found_by_surface_and_focus() {
    let mut wm = wm();
    wm.windows.push(window(1, 0, 0, 10, 10));
    wm.windows.push(window(2, 0, 0, 10, 10));
    assert_eq!(wm.window_for_surface(102).map(|w| w.id), Some(2));
    assert!(wm.window_for_surface(7).is_none());
    assert!(wm.focused_window().is_none());
    wm.keyboard_focus = Some(101);
    assert_eq!(wm.focused_window().map(|w| w.id), Some(1));
    wm.keyboard_focus = Some(7);
    assert!(wm.focused_window().is_none());
}

#[test]
fn title_bars_count_for_the_visual_center() {
    let mut wm = wm();
    wm.windows.push(window(1, 10, 20, 31, 40));
    assert_eq!(wm.window_ssd_bar(&wm.windows[0]), 0);
    assert_eq!(wm.window_visual_center(1), Some(HalfPoint { x2: 51, y2: 80 }));
    wm.decorations.insert(
        101,
        driftwm::state::wm::WindowDecoration { width: 31, focused: true },
    );
    assert_eq!(wm.window_ssd_bar(&wm.windows[0]), 25);
    assert_eq!(wm.window_visual_center(1), Some(HalfPoint { x2: 51, y2: 55 }));
    assert_eq!(wm.window_visual_center(9), None);
}

#[test]
fn idle_inhibitors_must_be_alive_and_visible() {
    let mut wm = wm();
    wm.idle_inhibiting_surfaces = set(&[1, 2, 3]);
    wm.refresh_idle_inhibit(&set(&[1, 2, 9]), &set(&[3, 9]));
    assert_eq!(wm.idle_inhibiting_surfaces, set(&[1, 2]));
    assert!(!wm.idle_inhibited);
    wm.refresh_idle_inhibit(&set(&[1, 2]), &set(&[2]));
    assert!(wm.idle_inhibited);
    wm.refresh_idle_inhibit(&set(&[]), &set(&[2]));
    assert!(!wm.idle_inhibited && wm.idle_inhibiting_surfaces.is_empty());
}

#[test]
fn all_active_outputs_are_redrawn() {
    let mut wm = wm();
    wm.active_crtcs = [1u32, 2].iter().cloned().collect();
    wm.redraws_needed = [2u32, 7].iter().cloned().collect();
    wm.mark_all_dirty();
    let expected: HashSet<u32> = [1u32, 2, 7].iter().cloned().collect();
    assert_eq!(wm.redraws_needed, expected);
}

#[test]
fn middle_clicks_are_forwarded_once() {
    let mut wm = wm();
    assert!(wm.flush_pending_middle_click().is_empty());
    wm.pending_middle_click =
        Some(PendingMiddleClick { press_time: 10, release_time: Some(12), timer_token: 4 });
    let steps = wm.flush_pending_middle_click();
    assert_eq!(
        steps,
        vec![
            PointerStep::Press { button: 0x112, time: 10 },
            PointerStep::Frame,
            PointerStep::Release { button: 0x112, time: 12 },
            PointerStep::Frame,
        ]
    );
    assert!(wm.pending_middle_click.is_none());
    assert_eq!(
        wm.flush_middle_click(3, None),
        vec![PointerStep::Press { button: 0x112, time: 3 }, PointerStep::Frame]
    );
}

#[test]
fn the_focused_output_is_the_active_one() {
    let mut wm = wm();
    wm.outputs.push(output(1, "DP-1", 1920, 1080));
    wm.outputs.push(output(2, "DP-2", 800, 600));
    assert_eq!(wm.active_output(), Some(1));
    wm.focused_output = Some(2);
    assert_eq!(wm.active_output(), Some(2));
    assert_eq!(wm.get_viewport_size(), Size { w: 800, h: 600 });
    wm.focused_output = None;
    wm.outputs[0].location = None;
    assert_eq!(wm.active_output(), Some(2));
    wm.outputs[1].location = None;
    assert_eq!(wm.active_output(), None);
}

#[test]
fn accessors_have_defaults_without_outputs() {
    let mut wm = wm();
    wm.set_camera(pf(1.0, 2.0));
    wm.set_zoom(s(3.0));
    assert_eq!(wm.camera().x.bits, 0);
    assert_eq!(wm.zoom().bits, 1.0f64.to_bits());
    assert_eq!(wm.get_viewport_size(), Size { w: 1, h: 1 });
    assert_eq!(wm.get_usable_area(), rect(0, 0, 1, 1));
    assert_eq!(wm.usable_center_screen(), HalfPoint { x2: 1, y2: 1 });
    assert!(wm.zoom_target().is_none() && wm.camera_target().is_none());
    assert!(wm.zoom_animation_center().is_none() && wm.overview_return().is_none());
    assert!(wm.last_scroll_pan().is_none() && wm.edge_pan_velocity().is_none());
    assert!(!wm.panning());
    assert_eq!(wm.last_frame_instant(at(77)), at(77));
    assert_eq!(wm.with_output_state(|state: &mut OutputState| state.panning), None);
}

#[test]
fn accessors_read_what_was_written() {
    let mut wm = wm();
    wm.outputs.push(output(1, "DP-1", 1920, 1080));
    wm.outputs.push(output(2, "DP-2", 800, 600));
    wm.focused_output = Some(2);
    wm.set_camera(pf(1.5, -2.5));
    wm.set_zoom(s(0.5));
    wm.set_zoom_target(Some(s(2.0)));
    wm.set_zoom_animation_center(Some(pf(7.0, 8.0)));
    wm.set_overview_return(Some((pf(1.0, 1.0), s(0.25))));
    wm.set_camera_target(Some(pf(10.0, 20.0)));
    wm.set_last_scroll_pan(Some(at(3)));
    wm.set_panning(true);
    wm.set_last_frame_instant(at(99));
    assert_eq!(wm.camera().y.bits, (-2.5f64).to_bits());
    assert_eq!(wm.zoom().bits, 0.5f64.to_bits());
    assert_eq!(wm.zoom_target().unwrap().bits, 2.0f64.to_bits());
    assert_eq!(wm.zoom_animation_center().unwrap().x.bits, 7.0f64.to_bits());
    assert_eq!(wm.overview_return().unwrap().1.bits, 0.25f64.to_bits());
    assert_eq!(wm.camera_target().unwrap().y.bits, 20.0f64.to_bits());
    assert_eq!(wm.last_scroll_pan(), Some(at(3)));
    assert!(wm.panning());
    assert_eq!(wm.last_frame_instant(at(1)), at(99));
    let other = output_state(&wm.outputs[0]);
    assert_eq!(other.camera.x.bits, 0);
    assert!(!other.panning && other.zoom_target.is_none());
    let before = wm.with_output_state(|state: &mut OutputState| {
        let was = state.frame_callback_sequence;
        state.frame_callback_sequence = was + 1;
        was
    });
    assert_eq!(before, Some(0));
    assert_eq!(output_state(&wm.outputs[1]).frame_callback_sequence, 1);
    assert_eq!(output_state(&wm.outputs[0]).frame_callback_sequence, 0);
}

#[test]
fn animations_keep_frames_coming() {
    let mut wm = wm();
    wm.outputs.push(output(1, "DP-1", 1920, 1080));
    assert!(!wm.has_active_animations());
    wm.set_camera_target(Some(pf(1.0, 1.0)));
    assert!(wm.has_active_animations());
    assert!(wm.output_has_active_animations(&wm.outputs[0]));
    wm.outputs[0].location = None;
    assert!(!wm.has_active_animations());
    wm.cursor.exec_cursor_deadline = Some(at(5));
    assert!(wm.has_active_animations());
    wm.cursor.exec_cursor_deadline = None;
    wm.cursor.animated = true;
    assert!(wm.has_active_animations());
}

#[test]
fn fullscreen_is_per_output() {
    let mut wm = wm();
    wm.outputs.push(output(1, "DP-1", 1920, 1080));
    wm.outputs.push(output(2, "DP-2", 800, 600));
    wm.fullscreen.push(fullscreen(2, 9));
    assert!(!wm.is_fullscreen());
    assert!(wm.is_output_fullscreen(2));
    assert!(!wm.is_output_fullscreen(1));
    assert!(wm.active_fullscreen().is_none());
    wm.focused_output = Some(2);
    assert!(wm.is_fullscreen());
    assert_eq!(wm.active_fullscreen().unwrap().window, 9);
}

#[test]
fn windows_are_on_the_output_that_shows_their_center() {
    let mut wm = wm();
    wm.outputs.push(output(1, "DP-1", 100, 100));
    wm.outputs.push(output(2, "DP-2", 100, 100));
    wm.windows.push(window(1, 190, 40, 21, 20));
    wm.windows.push(window(2, -3, -3, 3, 3));
    wm.windows.push(window(3, 5000, 0, 3, 3));
    let visible = vec![rect(0, 0, 100, 100), rect(200, 0, 100, 100)];
    assert_eq!(wm.output_for_window(1, &visible), Some(2));
    // The center (-1.5, -1.5) is cut off to (-1, -1).
    assert_eq!(wm.output_for_window(2, &vec![rect(-1, -1, 1, 1), visible[1]]), Some(1));
    wm.focused_output = Some(2);
    assert_eq!(wm.output_for_window(2, &visible), Some(2));
    assert_eq!(wm.output_for_window(3, &visible), Some(2));
    // A window that is not on the canvas is visible on no output.
    assert_eq!(wm.output_for_window(8, &visible), Some(2));
    wm.focused_output = None;
    assert_eq!(wm.output_for_window(8, &visible), Some(1));
    // The center (150, 10) lies in no viewport, but the window reaches into one.
    wm.windows.push(window(4, 90, 0, 120, 20));
    wm.focused_output = Some(1);
    assert_eq!(wm.output_for_window(4, &visible), Some(2));
    let aside = vec![rect(0, 0, 100, 100), rect(205, 0, 100, 100)];
    assert_eq!(wm.output_for_window(4, &aside), Some(1));
    wm.outputs[0].location = None;
    assert_eq!(wm.output_for_window(4, &aside), Some(2));
    wm.outputs[1].location = None;
    assert_eq!(wm.output_for_window(4, &visible), Some(1));
}

#[test]
fn the_nearest_output_in_a_direction_is_found() {
    let mut wm = wm();
    for id in 1..5 {
        wm.outputs.push(output(id, "DP", 100, 100));
    }
    let bearing = |dist: f64, dot: f64| Bearing { dist: s(dist), dot: s(dot) };
    let bearings = vec![
        bearing(0.0, f64::NAN),
        bearing(200.0, 1.0),
        bearing(100.0, 0.9),
        bearing(100.0, 0.6),
    ];
    assert_eq!(wm.output_in_direction(1, &bearings), Some(3));
    let aside = vec![bearing(0.0, 1.0), bearing(50.0, 0.5), bearing(0.5, 1.0), bearing(9.0, -1.0)];
    assert_eq!(wm.output_in_direction(1, &aside), None);
    wm.outputs[2].location = None;
    assert_eq!(wm.output_in_direction(1, &bearings), Some(4));
}

#[test]
fn output_centers_are_compared_in_layout_space() {
    let mut wm = wm();
    wm.outputs.push(output(1, "DP-1", 101, 100));
    wm.outputs.push(output(2, "DP-2", 50, 50));
    wm.focused_output = Some(2);
    wm.with_output_state(|state: &mut OutputState| {
        state.layout_position = Point { x: 101, y: -10 };
    });
    assert_eq!(layout_center(&wm.outputs[1]), HalfPoint { x2: 252, y2: 30 });
    let offsets = wm.output_offsets(&wm.outputs[0]);
    assert_eq!(offsets, vec![HalfPoint { x2: 0, y2: 0 }, HalfPoint { x2: 151, y2: -70 }]);
}

#[test]
fn layout_positions_belong_to_outputs() {
    let mut wm = wm();
    wm.outputs.push(output(1, "DP-1", 100, 100));
    wm.outputs.push(output(2, "DP-2", 100, 100));
    wm.focused_output = Some(2);
    wm.with_output_state(|state: &mut OutputState| {
        state.layout_position = Point { x: 100, y: 0 };
    });
    assert_eq!(wm.output_at_layout_pos(pf(0.0, 0.0)), Some(1));
    assert_eq!(wm.output_at_layout_pos(pf(99.999, 99.999)), Some(1));
    assert_eq!(wm.output_at_layout_pos(pf(100.0, 0.0)), Some(2));
    assert_eq!(wm.output_at_layout_pos(pf(200.0, 0.0)), None);
    assert_eq!(wm.output_at_layout_pos(pf(-0.001, 5.0)), None);
    assert_eq!(wm.output_at_layout_pos(pf(f64::NAN, 5.0)), None);
}

#[test]
fn outputs_follow_their_cameras() {
    let mut wm = wm();
    wm.outputs.push(output(1, "DP-1", 100, 100));
    wm.update_output_from_camera();
    assert_eq!(wm.render.blur_camera_generation, 0);
    wm.set_camera(pf(10.5, -10.5));
    wm.update_output_from_camera();
    assert_eq!(wm.outputs[0].location, Some(Point { x: 11, y: -11 }));
    assert_eq!(wm.render.blur_camera_generation, 1);
    wm.update_output_from_camera();
    assert_eq!(wm.render.blur_camera_generation, 1);
    wm.outputs[0].mode = None;
    wm.update_output_from_camera();
    assert_eq!(wm.render.blur_camera_generation, 2);
    wm.outputs[0].location = None;
    wm.update_output_from_camera();
    assert_eq!(wm.outputs[0].location, None);
    assert_eq!(wm.render.blur_camera_generation, 2);
}

#[test]
fn cascading_steps_past_occupied_positions() {
    let mut wm = wm();
    assert_eq!(wm.cascade_position((10, 10), 9), (10, 10));
    wm.windows.push(window(1, 12, 8, 5, 5));
    wm.windows.push(window(2, 35, 35, 5, 5));
    wm.windows.push(window(3, 63, 60, 5, 5));
    assert_eq!(wm.cascade_position((10, 10), 9), (60, 60));
    assert_eq!(wm.cascade_position((10, 10), 1), (10, 10));
    assert_eq!(wm.cascade_position((10, 10), 2), (35, 35));
    assert_eq!(wm.cascade_position((i32::MAX, i32::MIN), 9), (i32::MAX, i32::MIN));
    assert!(wm.can_cascade((i32::MAX, i32::MIN), 9));
    assert!(wm.can_cascade((10, 10), 9));
    wm.windows.push(window(4, i32::MAX - 25, 0, 5, 5));
    assert!(wm.can_cascade((i32::MAX - 25, 0), 9));
    assert!(!wm.can_cascade((i32::MAX - 24, 0), 9));
    assert!(wm.can_cascade((i32::MAX - 24, 0), 4));
}

#[test]
fn cursor_placement_stays_inside() {
    let mut wm = wm();
    let inside = CursorPlacement {
        raw: pf(50.4, 60.6),
        lower: pf(0.0, 25.0),
        upper: pf(100.0, 200.0),
    };
    assert_eq!(wm.cursor_placement_pos(Some(inside)), None);
    wm.outputs.push(output(1, "DP-1", 100, 100));
    assert_eq!(wm.cursor_placement_pos(None), None);
    assert_eq!(wm.cursor_placement_pos(Some(inside)), Some((50, 61)));
    let left = CursorPlacement { raw: pf(-50.0, 500.0), ..inside };
    assert_eq!(wm.cursor_placement_pos(Some(left)), Some((0, 200)));
    let oversized = CursorPlacement { raw: pf(50.0, 60.0), upper: pf(-30.0, -10.0), ..inside };
    assert_eq!(wm.cursor_placement_pos(Some(oversized)), Some((0, 25)));
}

#[test]
fn auto_placement_needs_a_visible_anchor() {
    let mut wm = wm();
    wm.outputs.push(output(1, "DP-1", 1001, 600));
    wm.windows.push(window(1, 0, 0, 100, 80));
    wm.windows.push(window(2, 300, 10, 50, 60));
    wm.windows.push(window(3, 500, 0, 40, 40));
    wm.windows[0].rule = Some(widget_rule());
    wm.decorations.insert(
        102,
        driftwm::state::wm::WindowDecoration { width: 50, focused: true },
    );
    let size = Size { w: 200, h: 100 };
    let found = Some(pf(355.2, -15.5));
    // No snapshot, an empty snapshot, a widget as the anchor.
    assert!(wm.auto_placement_anchor(&wm.windows[2]).is_none());
    wm.auto_anchor_snapshot.insert(103, None);
    assert!(wm.auto_placement_anchor(&wm.windows[2]).is_none());
    wm.auto_anchor_snapshot.insert(103, Some(1));
    assert!(wm.auto_placement_anchor(&wm.windows[2]).is_none());
    wm.auto_anchor_snapshot.insert(103, Some(2));
    assert_eq!(wm.auto_placement_anchor(&wm.windows[2]).map(|w| w.id), Some(2));
    let request = wm.auto_placement_request(&wm.windows[2], size, 25, s(0.5)).unwrap();
    assert_eq!(request.rects, vec![FrameRect { x: 300, y: -15, w: 50, h: 85 }]);
    assert_eq!(request.focused_idx, 0);
    assert_eq!((request.new_w, request.new_h), (200, 125));
    assert_eq!(request.screen_center, HalfPoint { x2: 1001, y2: 600 });
    assert_eq!(
        wm.auto_placement_pos(&wm.windows[2], size, 25, s(0.5), found),
        Some((355, 9))
    );
    assert_eq!(wm.auto_placement_pos(&wm.windows[2], size, 25, s(0.5), None), None);
    assert_eq!(wm.auto_placement_pos(&wm.windows[2], size, 25, s(0.49), found), None);
    wm.fullscreen.push(fullscreen(1, 2));
    assert_eq!(wm.auto_placement_pos(&wm.windows[2], size, 25, s(0.9), found), None);
    wm.fullscreen.clear();
    wm.auto_anchor_snapshot.insert(103, Some(3));
    assert!(wm.auto_placement_request(&wm.windows[2], size, 25, s(1.0)).is_none());
}

#[test]
fn cursors_come_from_the_configured_theme() {
    let mut wm = wm();
    assert_eq!(wm.load_xcursor(), ("default", 24));
    wm.config.cursor_theme = Some("Adwaita".to_string());
    wm.config.cursor_size = Some(32);
    assert_eq!(wm.load_xcursor(), ("Adwaita", 32));
}
