use driftwm::config::{
    AppliedWindowRule, Config, DecorationConfig, DecorationMode, KeyboardLayout,
    OutputOutlineSettings, PassKeys, Transform,
};
use driftwm::geometry::{Point, PointF, Rect, Size};
use driftwm::names::NameSet;
use driftwm::render::cursor::{CursorElement, CursorFrame, CursorFrames};
use driftwm::render::frame::{blur_region_offset, FrameInput, FramePlan};
use driftwm::render::outline::{is_invisible, outline_pixels};
use driftwm::render::windows::{
    clamp_corner, popup_position, BackgroundSource, BlurLayer, BlurRequest, Chrome, FrameElement,
    WindowFacts,
};
use driftwm::scalar::Scalar;
use driftwm::state::placement::FrameRect;
use driftwm::state::wm::{CursorIcon, CursorImageStatus, WindowDecoration};
use driftwm::state::{
    init_output_state, DriftWm, FullscreenEntry, FullscreenState, Output, SessionLock, Timestamp,
    Window,
};

fn s(v: f64) -> Scalar {
    Scalar::from_bits(v.to_bits())
}

fn pf(x: f64, y: f64) -> PointF {
    PointF { x: s(x), y: s(y) }
}

fn rect(x: i32, y: i32, w: i32, h: i32) -> Rect {
    Rect { loc: Point { x, y }, size: Size { w, h } }
}

fn at(nanos: u64) -> Timestamp {
    Timestamp { nanos }
}

fn config() -> Config {
    Config {
        decorations: DecorationConfig::default(),
        output_outline: OutputOutlineSettings::default(),
        keyboard_layout: KeyboardLayout {
            layout: "us".to_string(),
            variant: "intl".to_string(),
            options: String::new(),
            model: "pc105".to_string(),
        },
        num_lock: true,
        caps_lock: false,
        repeat_delay: 200,
        repeat_rate: 25,
        zoom_reset_on_activation: true,
        cursor_theme: None,
        cursor_size: None,
        snap_gap: s(8.0),
        autostart: vec!["bar".to_string(), "panel --top".to_string()],
    }
}

fn wm() -> DriftWm {
    DriftWm::new(config(), at(1_000))
}

fn output(id: u64, name: &str, w: i32, h: i32) -> Output {
    let mut output = Output {
        id,
        name: name.to_string(),
        location: Some(Point { x: 0, y: 0 }),
        mode: Some(Size { w, h }),
        transform: Transform::Normal,
        scale: s(1.0),
        scaled_size: Size { w, h },
        usable: rect(0, 0, w, h),
        state: None,
    };
    init_output_state(&mut output, pf(0.0, 0.0), s(0.96), Point { x: 0, y: 0 }, at(5));
    output
}

fn window(id: u64, x: i32, y: i32, w: i32, h: i32) -> Window {
    Window {
        id,
        surface: Some(id + 100),
        parent: None,
        modal: false,
        location: Point { x, y },
        geometry: rect(0, 0, w, h),
        bbox: rect(0, 0, w, h),
        rule: None,
    }
}

fn widget_rule() -> AppliedWindowRule {
    AppliedWindowRule {
        widget: true,
        decoration: None,
        blur: false,
        opacity: None,
        pass_keys: PassKeys::NoKeys,
        position: None,
        size: None,
    }
}

fn fullscreen(output: u64, window: u64) -> FullscreenEntry {
    FullscreenEntry {
        output,
        state: FullscreenState {
            window,
            saved_location: Point { x: 1, y: 2 },
            saved_camera: pf(3.0, 4.0),
            saved_zoom: s(0.5),
            saved_size: Size { w: 5, h: 6 },
        },
    }
}

fn facts(popups: usize, surfaces: usize) -> WindowFacts {
    WindowFacts {
        popup_parts: popups,
        surface_parts: surfaces,
        bar_drawn: true,
        screen_rect: rect(0, 0, 100, 100),
        blur_corners: None,
    }
}

fn input(windows: Vec<WindowFacts>) -> FrameInput {
    FrameInput {
        cursor_parts: 1,
        dnd_icon_alive: true,
        lock_parts: 2,
        fresh_background: Some(BackgroundSource::Tile),
        visible: rect(0, 0, 1000, 1000),
        windows,
        canvas_parts: 1,
        on_screen: vec![rect(0, 0, 1000, 1000)],
        overlay_parts: 1,
        overlay_blur: vec![],
        top_parts: 2,
        top_blur: vec![],
        bottom_parts: 1,
        background_parts: 1,
    }
}

fn scene() -> DriftWm {
    let mut wm = wm();
    wm.outputs.push(output(1, "DP-1", 1000, 1000));
    wm
}

fn label(element: &FrameElement) -> String {
    match element {
        FrameElement::Cursor(i) => format!("cursor{}", i),
        FrameElement::Overlay(i) => format!("overlay{}", i),
        FrameElement::Top(i) => format!("top{}", i),
        FrameElement::Popup { window, part } => format!("popup{}.{}", window, part),
        FrameElement::TitleBar { window, alpha } => {
            format!("bar{}{}", window, if alpha.is_some() { "~" } else { "" })
        }
        FrameElement::Content { window, part, clip } => {
            format!("win{}.{}{}", window, part, if clip.is_some() { "o" } else { "" })
        }
        FrameElement::Shadow { window, .. } => format!("shadow{}", window),
        FrameElement::CanvasLayer(i) => format!("canvas{}", i),
        FrameElement::Bottom(i) => format!("bottom{}", i),
        FrameElement::Outline(_) => "outline".to_string(),
        FrameElement::Background(source) => format!("bg{:?}", source),
        FrameElement::BackgroundLayer(i) => format!("back{}", i),
        FrameElement::LockSurface(i) => format!("lock{}", i),
    }
}

fn labels(plan: &FramePlan) -> Vec<String> {
    plan.elements.iter().map(label).collect()
}

fn decorate(wm: &mut DriftWm, surface: u64) {
    wm.decorations.insert(surface, WindowDecoration { width: 1, focused: false });
}

fn blur_on(wm: &mut DriftWm) {
    wm.render.blur_down_shader = true;
    wm.render.blur_up_shader = true;
    wm.render.blur_mask_shader = true;
}

#[test]
fn frames_are_ordered_from_front_to_back() {
    let mut wm = scene();
    wm.windows.push(window(1, 0, 0, 50, 50));
    wm.windows.push(window(2, 10, 10, 50, 50));
    wm.windows[0].rule = Some(widget_rule());
    let plan = wm.compose_frame(1, input(vec![facts(0, 1), facts(1, 2)]));
    assert_eq!(
        labels(&plan),
        vec![
            "cursor0", "overlay0", "top0", "top1", "popup2.0", "win2.0", "win2.1", "canvas0",
            "win1.0", "bottom0", "bgTile", "back0",
        ]
    );
    assert_eq!(plan.overlay_prefix, 1);
    assert_eq!(plan.top_prefix, 2);
    assert_eq!(plan.normal_prefix, 4);
    assert_eq!(plan.widget_prefix, 8);
    assert!(plan.blur.is_empty());
    assert!(wm.render.cached_tile_bg.contains(&wm.outputs[0].name));
}

#[test]
fn a_locked_session_shows_its_lock_surface_alone() {
    let mut wm = scene();
    wm.windows.push(window(1, 0, 0, 50, 50));
    wm.session_lock = SessionLock::Pending(3);
    let plan = wm.compose_frame(1, input(vec![facts(0, 1)]));
    assert!(plan.elements.is_empty());
    wm.session_lock = SessionLock::Locked;
    wm.lock_surfaces.insert(1, 9);
    let plan = wm.compose_frame(1, input(vec![facts(0, 1)]));
    assert_eq!(labels(&plan), vec!["lock0", "lock1"]);
    assert!(wm.render.cached_tile_bg.is_empty());
}

#[test]
fn dead_drag_icons_are_dropped() {
    let mut wm = scene();
    wm.dnd_icon = Some(4);
    wm.compose_frame(1, input(vec![]));
    assert_eq!(wm.dnd_icon, Some(4));
    let mut dead = input(vec![]);
    dead.dnd_icon_alive = false;
    wm.compose_frame(1, dead);
    assert_eq!(wm.dnd_icon, None);
}

#[test]
fn fullscreen_hides_the_top_and_bottom_layers() {
    let mut wm = scene();
    wm.windows.push(window(1, 0, 0, 50, 50));
    wm.render.corner_clip_shader = true;
    wm.render.shadow_shader = true;
    decorate(&mut wm, 101);
    wm.fullscreen.push(fullscreen(1, 1));
    let plan = wm.compose_frame(1, input(vec![facts(0, 1)]));
    assert_eq!(
        labels(&plan),
        vec!["cursor0", "overlay0", "win1.0", "canvas0", "bgTile", "back0"]
    );
    assert_eq!(wm.window_chrome(&wm.windows[0]), Chrome::Plain);
}

#[test]
fn existing_backgrounds_win() {
    let mut wm = scene();
    let name = wm.outputs[0].name.clone();
    wm.render.cached_wallpaper_bg.insert(&name);
    let plan = wm.compose_frame(1, input(vec![]));
    assert!(labels(&plan).contains(&"bgWallpaper".to_string()));
    assert!(wm.render.cached_tile_bg.is_empty());
    wm.render.cached_bg_elements.insert(&name);
    let plan = wm.compose_frame(1, input(vec![]));
    assert!(labels(&plan).contains(&"bgShader".to_string()));
    let mut bare = scene();
    let mut none = input(vec![]);
    none.fresh_background = None;
    let plan = bare.compose_frame(1, none);
    assert!(!labels(&plan).iter().any(|l| l.starts_with("bg")));
}

#[test]
fn windows_out_of_view_are_left_out() {
    let mut wm = scene();
    wm.windows.push(window(1, 1000, 0, 50, 50));
    wm.windows.push(window(2, -63, 0, 50, 50));
    wm.windows.push(window(3, 10, 1038, 50, 50));
    wm.windows.push(window(4, 10, 10, 50, 50));
    wm.windows[3].surface = None;
    for w in 0..4 {
        assert!(!wm.is_in_view(&wm.windows[w], rect(0, 0, 1000, 1000)));
    }
    // The shadow and the title bar reach into the frame.
    decorate(&mut wm, 101);
    decorate(&mut wm, 102);
    decorate(&mut wm, 103);
    assert!(wm.is_in_view(&wm.windows[0], rect(0, 0, 1000, 1000)));
    assert!(wm.is_in_view(&wm.windows[1], rect(0, 0, 1000, 1000)));
    assert!(wm.is_in_view(&wm.windows[2], rect(0, 0, 1000, 1000)));
    wm.windows[2].location.y = 1039;
    assert!(!wm.is_in_view(&wm.windows[2], rect(0, 0, 1000, 1000)));
}

#[test]
fn surfaces_extend_beyond_the_geometry() {
    let mut wm = scene();
    wm.windows.push(window(1, 1005, 0, 50, 50));
    wm.windows[0].geometry = rect(10, 10, 50, 50);
    wm.windows[0].bbox = rect(0, 0, 70, 70);
    assert!(wm.is_in_view(&wm.windows[0], rect(0, 0, 1000, 1000)));
}

#[test]
fn title_bars_are_drawn_and_updated() {
    let mut wm = scene();
    wm.windows.push(window(1, 0, 100, 50, 60));
    wm.render.corner_clip_shader = true;
    wm.render.shadow_shader = true;
    decorate(&mut wm, 101);
    decorate(&mut wm, 555);
    wm.keyboard_focus = Some(101);
    let plan = wm.compose_frame(1, input(vec![facts(1, 1)]));
    let windows: Vec<String> =
        labels(&plan).into_iter().filter(|l| l.ends_with("1") || l.contains("1.")).collect();
    assert_eq!(windows, vec!["top1", "popup1.0", "bar1", "win1.0o", "shadow1"]);
    assert_eq!(wm.decorations[&101], WindowDecoration { width: 50, focused: true });
    assert_eq!(wm.decorations[&555], WindowDecoration { width: 1, focused: false });
    assert!(wm.render.shadow_cache.contains(&101));
    for element in plan.elements.iter() {
        if let FrameElement::Shadow { body, radius, .. } = element {
            assert_eq!(*body, FrameRect { x: 0, y: -25, w: 50, h: 85 });
            assert_eq!(*radius, 10);
        }
        if let FrameElement::Content { clip: Some(clip), .. } = element {
            assert_eq!(clip.area, rect(0, 0, 50, 60));
            assert_eq!((clip.radii.top_left, clip.radii.top_right), (0, 0));
            assert_eq!((clip.radii.bottom_left, clip.radii.bottom_right), (20, 20));
        }
    }
    wm.config.decorations.corner_radius = 0;
    let mut undrawn = input(vec![facts(0, 1)]);
    undrawn.windows[0].bar_drawn = false;
    let plan = wm.compose_frame(1, undrawn);
    assert!(labels(&plan).contains(&"win1.0".to_string()));
    assert!(!labels(&plan).contains(&"bar1".to_string()));
}

#[test]
fn client_decorated_windows_are_clipped_and_shadowed() {
    let mut wm = scene();
    wm.windows.push(window(1, 100, 100, 50, 8));
    wm.windows[0].geometry = rect(5, 6, 50, 8);
    wm.render.corner_clip_shader = true;
    wm.render.shadow_shader = true;
    let plan = wm.compose_frame(1, input(vec![facts(0, 1)]));
    assert!(labels(&plan).contains(&"shadow1".to_string()));
    for element in plan.elements.iter() {
        if let FrameElement::Shadow { body, .. } = element {
            assert_eq!(*body, FrameRect { x: 5, y: 6, w: 50, h: 8 });
        }
        if let FrameElement::Content { clip, .. } = element {
            let clip = clip.unwrap();
            assert_eq!(clip.area, rect(5, 6, 50, 8));
            assert_eq!((clip.radii.top_left, clip.radii.bottom_right), (8, 8));
        }
    }
    wm.config.decorations.default_mode = DecorationMode::Bare;
    let plan = wm.compose_frame(1, input(vec![facts(0, 1)]));
    assert!(labels(&plan).contains(&"win1.0".to_string()));
    assert!(!labels(&plan).contains(&"shadow1".to_string()));
    let mut rule = widget_rule();
    rule.widget = false;
    rule.decoration = Some(DecorationMode::Borderless);
    wm.windows[0].rule = Some(rule);
    assert_eq!(wm.window_chrome(&wm.windows[0]), Chrome::Rounded);
    wm.render.corner_clip_shader = false;
    assert_eq!(wm.window_chrome(&wm.windows[0]), Chrome::Plain);
}

#[test]
fn translucent_windows_have_translucent_bars() {
    let mut wm = scene();
    wm.windows.push(window(1, 0, 100, 50, 60));
    decorate(&mut wm, 101);
    let mut rule = widget_rule();
    rule.widget = false;
    rule.opacity = Some(s(0.9));
    wm.windows[0].rule = Some(rule);
    let plan = wm.compose_frame(1, input(vec![facts(0, 1)]));
    assert!(labels(&plan).contains(&"bar1~".to_string()));
}

#[test]
fn blurs_address_the_elements_of_their_window() {
    let mut wm = scene();
    for id in 1..4 {
        wm.windows.push(window(id, 0, 100, 50, 60));
        let mut rule = widget_rule();
        rule.widget = id == 1;
        rule.blur = id != 2;
        wm.windows[id as usize - 1].rule = Some(rule);
    }
    wm.render.corner_clip_shader = true;
    wm.render.shadow_shader = true;
    wm.render.blur_cache.insert(101);
    wm.render.blur_cache.insert(102);
    let all = || input(vec![facts(0, 2), facts(1, 1), facts(0, 3)]);
    let plan = wm.compose_frame(1, all());
    assert!(plan.blur.is_empty());
    assert_eq!(wm.render.blur_cache.len(), 2);
    blur_on(&mut wm);
    let plan = wm.compose_frame(1, all());
    assert_eq!(plan.blur.len(), 2);
    assert_eq!((plan.blur[0].surface, plan.blur[0].layer), (103, BlurLayer::Normal));
    assert_eq!((plan.blur[0].elem_start, plan.blur[0].elem_count), (0, 3));
    assert_eq!((plan.blur[1].surface, plan.blur[1].layer), (101, BlurLayer::Widget));
    assert_eq!((plan.blur[1].elem_start, plan.blur[1].elem_count), (0, 2));
    assert!(wm.render.blur_cache.contains(&101) && !wm.render.blur_cache.contains(&102));
    for (blur, window) in [(&plan.blur[0], 3u64), (&plan.blur[1], 1)] {
        let prefix = match blur.layer {
            BlurLayer::Widget => plan.widget_prefix,
            _ => plan.normal_prefix,
        };
        for k in 0..blur.elem_count {
            let element = &plan.elements[prefix + blur.elem_start + k];
            assert_eq!(label(element), format!("win{}.{}o", window, k));
        }
    }
}

#[test]
fn client_blur_regions_are_clipped_to_the_window() {
    let mut wm = scene();
    blur_on(&mut wm);
    wm.windows.push(window(1, 0, 100, 50, 60));
    let corners = |list: Vec<(i32, i32, i32, i32)>| {
        let mut f = facts(0, 1);
        f.blur_corners = Some(
            list.into_iter()
                .map(|(a, b, c, d)| (Point { x: a, y: b }, Point { x: c, y: d }))
                .collect(),
        );
        input(vec![f])
    };
    let plan = wm.compose_frame(1, corners(vec![(-10, 20, 30, 40), (90, 90, 200, 200)]));
    assert_eq!(plan.blur.len(), 1);
    assert_eq!(
        plan.blur[0].region,
        Some(vec![rect(0, 20, 30, 20), rect(90, 90, 10, 10)])
    );
    // Regions that all lie outside ask for nothing, and so does an empty list.
    assert!(wm.compose_frame(1, corners(vec![(100, 0, 150, 50)])).blur.is_empty());
    assert!(wm.compose_frame(1, corners(vec![])).blur.is_empty());
    // A rule asks for the whole window then.
    let mut rule = widget_rule();
    rule.widget = false;
    rule.blur = true;
    wm.windows[0].rule = Some(rule);
    let plan = wm.compose_frame(1, corners(vec![(100, 0, 150, 50)]));
    assert_eq!(plan.blur[0].region, None);
    let mut hollow = corners(vec![]);
    hollow.windows[0].surface_parts = 0;
    assert!(wm.compose_frame(1, hollow).blur.is_empty());
}

#[test]
fn layer_blurs_come_first() {
    let mut wm = scene();
    blur_on(&mut wm);
    let request = |surface: u64, layer: BlurLayer| BlurRequest {
        surface,
        screen_rect: rect(0, 0, 1, 1),
        elem_start: 0,
        elem_count: 1,
        layer,
        region: None,
    };
    let with_layers = || {
        let mut frame = input(vec![]);
        frame.overlay_blur.push(request(7, BlurLayer::Overlay));
        frame.top_blur.push(request(8, BlurLayer::Top));
        frame
    };
    let plan = wm.compose_frame(1, with_layers());
    let order: Vec<u64> = plan.blur.iter().map(|r| r.surface).collect();
    assert_eq!(order, vec![7, 8]);
    wm.fullscreen.push(fullscreen(1, 99));
    let plan = wm.compose_frame(1, with_layers());
    let order: Vec<u64> = plan.blur.iter().map(|r| r.surface).collect();
    assert_eq!(order, vec![7]);
}

#[test]
fn corners_fit_tiny_windows() {
    assert_eq!(clamp_corner(10, Size { w: 100, h: 80 }), 20);
    assert_eq!(clamp_corner(10, Size { w: 100, h: 15 }), 15);
    assert_eq!(clamp_corner(-3, Size { w: 100, h: 15 }), 0);
    assert_eq!(clamp_corner(10, Size { w: 0, h: 15 }), 0);
    assert_eq!(clamp_corner(10, Size { w: -4, h: 15 }), 0);
}

#[test]
fn offsets_of_popups_and_blur_regions() {
    let p = |x: i32, y: i32| Point { x, y };
    assert_eq!(popup_position(p(5, 6), p(10, 20), p(1, 2)), p(14, 24));
    assert_eq!(popup_position(p(i32::MAX, 0), p(5, 0), p(1, 0)), p(i32::MAX - 1, 0));
    assert_eq!(blur_region_offset(true, rect(3, 4, 1, 1)), (0, 25));
    assert_eq!(blur_region_offset(false, rect(3, -4, 1, 1)), (-3, 4));
}

#[test]
fn outlines_show_other_viewports() {
    let mut wm = scene();
    wm.outputs.push(output(2, "DP-2", 100, 100));
    wm.outputs.push(output(3, "DP-3", 100, 100));
    wm.config.output_outline.thickness = 2;
    let screen = Size { w: 1000, h: 1000 };
    let on_screen = vec![rect(0, 0, 1000, 1000), rect(-10, 20, 60, 40), rect(1000, 0, 50, 50)];
    let edges = wm.build_output_outline_elements(1, &on_screen, screen);
    assert_eq!(
        edges,
        vec![rect(0, 20, 50, 2), rect(0, 58, 50, 2), rect(48, 20, 2, 40)]
    );
    wm.outputs[1].location = None;
    assert!(wm.build_output_outline_elements(1, &on_screen, screen).is_empty());
    wm.outputs[1].location = Some(Point { x: 0, y: 0 });
    wm.config.output_outline.thickness = 0;
    assert!(wm.build_output_outline_elements(1, &on_screen, screen).is_empty());
    wm.config.output_outline.thickness = 1;
    wm.config.output_outline.opacity = s(0.0);
    assert!(wm.build_output_outline_elements(1, &on_screen, screen).is_empty());
}

#[test]
fn opacities_vanish_in_single_precision() {
    let tiny = 2f64.powi(-150);
    for v in [0.0, -0.0, -1.0, 0.5, tiny, tiny * 1.0000001, 5e-324, f64::NAN, f64::INFINITY] {
        assert_eq!(is_invisible(s(v)), (v as f32) <= 0.0, "{:e}", v);
    }
}

#[test]
fn outlines_are_filled_with_their_color() {
    assert_eq!(
        outline_pixels([1, 2, 3, 4], 2, 1),
        vec![1, 2, 3, 4, 1, 2, 3, 4]
    );
    assert_eq!(outline_pixels([9, 8, 7, 6], 3, 5).len(), 60);
    assert!(outline_pixels([1, 2, 3, 4], 0, 5).is_empty());
}

fn drawn(wm: &mut DriftWm, alpha: f64, surface_alive: bool, icon_alive: bool) -> Vec<String> {
    wm.build_cursor_elements(s(alpha), surface_alive, icon_alive)
        .iter()
        .map(|element| match element {
            CursorElement::Surface(surface) => format!("surface{}", surface),
            CursorElement::Named(icon) => icon.name().to_string(),
            CursorElement::DragIcon(surface) => format!("icon{}", surface),
        })
        .collect()
}

#[test]
fn cursors_are_hidden_drawn_or_named() {
    let mut wm = scene();
    wm.dnd_icon = Some(6);
    assert_eq!(drawn(&mut wm, 1.0, true, true), vec!["default", "icon6"]);
    wm.cursor.cursor_status = CursorImageStatus::Hidden;
    assert_eq!(drawn(&mut wm, 1.0, true, true), vec!["icon6"]);
    assert!(drawn(&mut wm, 1.0, true, false).is_empty());
    wm.cursor.cursor_status =
        CursorImageStatus::Named(CursorIcon::Other("grab".to_string()));
    assert_eq!(drawn(&mut wm, 0.5, true, true), vec!["grab", "icon6"]);
    wm.cursor.cursor_status = CursorImageStatus::Surface(3);
    assert_eq!(drawn(&mut wm, 1.0, true, true), vec!["surface3", "icon6"]);
    wm.dnd_icon = None;
    assert_eq!(drawn(&mut wm, 1.0, true, true), vec!["surface3"]);
}

#[test]
fn invisible_cursors_are_not_drawn() {
    let mut wm = scene();
    wm.dnd_icon = Some(6);
    wm.cursor.cursor_status = CursorImageStatus::Surface(3);
    for alpha in [0.0, -0.0, -1.0, f64::NEG_INFINITY] {
        assert!(drawn(&mut wm, alpha, false, true).is_empty());
        assert!(matches!(wm.cursor.cursor_status, CursorImageStatus::Surface(3)));
    }
    assert_eq!(drawn(&mut wm, f64::NAN, true, true), vec!["surface3", "icon6"]);
    assert_eq!(drawn(&mut wm, f64::MIN_POSITIVE, true, true), vec!["surface3", "icon6"]);
}

#[test]
fn a_dead_cursor_surface_is_replaced() {
    let mut wm = scene();
    wm.dnd_icon = Some(6);
    wm.cursor.cursor_status = CursorImageStatus::Surface(3);
    assert_eq!(drawn(&mut wm, 1.0, false, true), vec!["default"]);
    assert!(matches!(
        wm.cursor.cursor_status,
        CursorImageStatus::Named(CursorIcon::Default)
    ));
    assert_eq!(drawn(&mut wm, 1.0, false, true), vec!["default", "icon6"]);
}

#[test]
fn backgrounds_belong_to_names() {
    let mut wm = scene();
    wm.outputs.push(output(2, "DP-1", 1000, 1000));
    wm.outputs[0].name = "DP-1".to_string();
    let both = || vec![rect(0, 0, 1000, 1000), rect(5000, 0, 10, 10)];
    let mut first = input(vec![]);
    first.on_screen = both();
    wm.compose_frame(1, first);
    let mut second = input(vec![]);
    second.on_screen = both();
    second.fresh_background = Some(BackgroundSource::Shader);
    let plan = wm.compose_frame(2, second);
    assert!(labels(&plan).contains(&"bgTile".to_string()));
    assert!(wm.render.cached_bg_elements.is_empty());
}

#[test]
fn name_sets_hold_names_once() {
    let mut names = NameSet::new();
    let (a, b) = ("a".to_string(), "b".to_string());
    assert!(names.is_empty() && !names.contains(&a));
    names.insert(&a);
    names.insert(&b);
    names.insert(&a);
    assert_eq!(names.names, vec!["a", "b"]);
    names.remove(&a);
    assert!(!names.contains(&a) && names.contains(&b));
    names.remove(&a);
    assert_eq!(names.names, vec!["b"]);
}

#[test]
fn animated_cursors_show_the_frame_that_is_due() {
    let frame = |buffer: u64, delay: u32| CursorFrame {
        buffer,
        hotspot: Point { x: 1, y: 1 },
        delay,
    };
    let frames = CursorFrames {
        frames: vec![frame(0, 10), frame(1, 20), frame(2, 30)],
        total_duration_ms: 60,
    };
    let shown = |ms: u64| frames.frame_index(at(1_000_000), at(1_000_000 + ms * 1_000_000));
    assert_eq!(shown(0), 0);
    assert_eq!(shown(9), 0);
    assert_eq!(shown(10), 1);
    assert_eq!(shown(29), 1);
    assert_eq!(shown(30), 2);
    assert_eq!(shown(59), 2);
    assert_eq!(shown(60), 0);
    assert_eq!(shown(75), 1);
    // The clock wraps at 2^32 milliseconds.
    assert_eq!(shown((1 << 32) + 10), 1);
    assert_eq!(frames.frame_index(at(5), at(0)), 0);
    let short = CursorFrames { frames: vec![frame(0, 5), frame(1, 5)], total_duration_ms: 60 };
    assert_eq!(short.frame_index(at(0), at(50_000_000)), 0);
    let still = CursorFrames { frames: vec![frame(7, 5), frame(8, 5)], total_duration_ms: 0 };
    assert_eq!(still.frame_index(at(0), at(7_000_000)), 0);
    let wm = scene();
    let start = 1_000;
    let now = at(start + 12_000_000);
    assert_eq!(
        wm.build_xcursor_elements(Some(&frames), Some(&still), now).map(|f| f.buffer),
        Some(1)
    );
    assert_eq!(wm.build_xcursor_elements(None, Some(&still), now).map(|f| f.buffer), Some(7));
    assert!(wm.build_xcursor_elements(None, None, now).is_none());
}

#[test]
fn far_windows_without_a_bar_are_out_of_view() {
    let mut wm = scene();
    wm.windows.push(window(1, i32::MIN, i32::MIN, 100, 100));
    wm.windows.push(window(2, 10, 10, i32::MAX, i32::MAX));
    assert!(!wm.is_in_view(&wm.windows[0], rect(0, 0, 1000, 1000)));
    assert!(wm.is_in_view(&wm.windows[1], rect(0, 0, 1000, 1000)));
    let plan = wm.compose_frame(1, input(vec![facts(0, 1), facts(0, 1)]));
    assert_eq!(plan.widget_prefix, plan.normal_prefix + 2);
}

#[test]
fn still_cursors_ignore_their_delays() {
    let frame = CursorFrame { buffer: 7, hotspot: Point { x: 1, y: 2 }, delay: u32::MAX };
    let still = CursorFrames { frames: vec![frame, frame], total_duration_ms: 0 };
    assert_eq!(still.frame_index(at(0), at(u64::MAX)), 0);
    // Delays behind the frame that is due do not count.
    let long = CursorFrames { frames: vec![frame, frame], total_duration_ms: 100 };
    assert!(long.is_ready(at(0), at(50_000_000)));
    assert_eq!(long.frame_index(at(0), at(50_000_000)), 0);
    let overlong = CursorFrames {
        frames: vec![CursorFrame { delay: 10, ..frame }, frame],
        total_duration_ms: 100,
    };
    assert!(overlong.is_ready(at(0), at(9_000_000)));
    assert!(!overlong.is_ready(at(0), at(10_000_000)));
    assert!(!CursorFrames { frames: vec![], total_duration_ms: 0 }.is_ready(at(0), at(0)));
}
