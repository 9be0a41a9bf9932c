use mpt_core::mouse::{
    circle_geometry, click_color, crosshair_lines, crosshair_offset, crosshair_span, default_animation_ms,
    default_bg_color, default_crosshair_thickness, default_highlighter_primary, default_highlighter_radius,
    default_jump_width, default_spotlight_radius, highlight_expired, highlight_radius, hotkey_key_to_keysyms,
    keycodes_for_keysyms, lock_variants, modifiers_to_x11, monitor_at, normalize_mod_state, parse_hex_color,
    popup_origin, spotlight_arc, wrap_position, CrosshairOrientation, FindMyMouseActivation, FindMyMouseState,
    HighlightMode, Modifier, MonitorRect, MouseFeatures, MouseMonitor, MouseUtils, SpotlightAction,
};

#[test]
fn mouse_defaults() {
    assert_eq!(default_spotlight_radius(), 100);
    assert_eq!(default_animation_ms(), 500);
    assert_eq!(default_highlighter_radius(), 20);
    assert_eq!(default_crosshair_thickness(), 5);
    assert_eq!(default_jump_width(), 400);
    assert_eq!(default_bg_color(), "#000000");
    assert_eq!(default_highlighter_primary(), "#FFFF00");
    assert_eq!(FindMyMouseActivation::default_activation(), FindMyMouseActivation::LeftCtrlTwice);
    assert_eq!(HighlightMode::default_mode(), HighlightMode::CircleHighlight);
    assert_eq!(CrosshairOrientation::default_orientation(), CrosshairOrientation::Both);
}

#[test]
fn hex_colours() {
    assert_eq!(parse_hex_color("#FFFF00", 0), 0xFFFF00);
    assert_eq!(parse_hex_color("##0000ff", 7), 0x0000FF);
    assert_eq!(parse_hex_color("zz", 7), 7);
    assert_eq!(parse_hex_color("", 7), 7);
    assert_eq!(parse_hex_color("#1FFFFFFFF", 7), 7);
}

#[test]
fn find_my_mouse_double_press() {
    let mut s = FindMyMouseState::new();
    let act = FindMyMouseActivation::LeftCtrlTwice;
    assert_eq!(s.on_key_press(0xffe3, act, 1000), SpotlightAction::Nothing);
    assert_eq!(s.last_ctrl_ms, Some(1000));
    assert_eq!(s.on_key_press(0xffe3, act, 1399), SpotlightAction::Show);
    assert!(s.spotlight_active);
    assert_eq!(s.on_key_press(0x61, act, 1500), SpotlightAction::Dismiss);
    assert!(!s.spotlight_active);
    // Too slow: the second press starts a new count.
    assert_eq!(s.on_key_press(0xffe3, act, 2000), SpotlightAction::Nothing);
    assert_eq!(s.on_key_press(0xffe3, act, 2400), SpotlightAction::Nothing);
    assert_eq!(s.last_ctrl_ms, Some(2400));
    // The other Ctrl does not count.
    assert_eq!(s.on_key_press(0xffe4, act, 2500), SpotlightAction::Nothing);
    assert_eq!(s.last_ctrl_ms, Some(2400));
    assert_eq!(s.on_key_press(0xffe3, act, 2500), SpotlightAction::Show);
    assert_eq!(s.on_button_press(), SpotlightAction::Dismiss);
    assert_eq!(s.on_button_press(), SpotlightAction::Nothing);
}

#[test]
fn highlight_and_crosshair_geometry() {
    assert_eq!(spotlight_arc(500, 300, 100), (400, 200, 200, 200));
    assert_eq!(click_color(1, 10, 20), Some(10));
    assert_eq!(click_color(3, 10, 20), Some(20));
    assert_eq!(click_color(2, 10, 20), None);
    assert_eq!(highlight_radius(2), 5);
    assert_eq!(highlight_radius(30), 30);
    assert_eq!(circle_geometry(100, 100, 20), (80, 80, 40));
    assert!(!highlight_expired(1_000_000_000, 500, 500));
    assert!(highlight_expired(1_000_000_001, 500, 500));
    assert_eq!(crosshair_lines(CrosshairOrientation::Both), (true, true));
    assert_eq!(crosshair_lines(CrosshairOrientation::Horizontal), (true, false));
    assert_eq!(crosshair_lines(CrosshairOrientation::Vertical), (false, true));
    assert_eq!(crosshair_span(500, None, 1920), (0, 1920));
    assert_eq!(crosshair_span(500, Some(400), 1920), (300, 400));
    assert_eq!(crosshair_span(100, Some(400), 1920), (0, 400));
    assert_eq!(crosshair_span(100, Some(4000), 1920), (0, 1920));
    assert_eq!(crosshair_offset(100, 5), 98);
}

#[test]
fn cursor_wrap_edges() {
    assert_eq!(wrap_position(0, 500, 1920, 1080), (1917, 500));
    assert_eq!(wrap_position(1, 500, 1920, 1080), (1917, 500));
    assert_eq!(wrap_position(1918, 500, 1920, 1080), (2, 500));
    assert_eq!(wrap_position(700, 1079, 1920, 1080), (700, 2));
    assert_eq!(wrap_position(700, 500, 1920, 1080), (700, 500));
}

#[test]
fn grab_masks() {
    assert_eq!(modifiers_to_x11(&[Modifier::Super, Modifier::Shift]), 65);
    assert_eq!(modifiers_to_x11(&[Modifier::Ctrl, Modifier::Alt, Modifier::Ctrl]), 12);
    assert_eq!(modifiers_to_x11(&[]), 0);
    assert_eq!(lock_variants(65), [65, 67, 81, 83]);
    for v in lock_variants(65) {
        assert_eq!(normalize_mod_state(v), 65);
    }
    assert_eq!(normalize_mod_state(0x2145), 0x45);
}

#[test]
fn key_names_to_keysyms() {
    assert_eq!(hotkey_key_to_keysyms("h"), vec![0x48, 0x68]);
    assert_eq!(hotkey_key_to_keysyms(" H "), vec![0x48, 0x68]);
    assert_eq!(hotkey_key_to_keysyms("."), vec![0x2e]);
    assert_eq!(hotkey_key_to_keysyms("Space"), vec![0x20, 0xff80]);
    assert_eq!(hotkey_key_to_keysyms("ESC"), vec![0xff1b]);
    assert_eq!(hotkey_key_to_keysyms("F12"), vec![0xffc9]);
    assert_eq!(hotkey_key_to_keysyms("PageUp"), Vec::<u32>::new());
    assert_eq!(hotkey_key_to_keysyms(""), Vec::<u32>::new());
}

#[test]
fn keycodes_from_mapping() {
    // keycodes 8..=11, two keysyms each.
    let ks = vec![0x61, 0x41, 0x62, 0x42, 0x20, 0, 0x68, 0x48];
    assert_eq!(keycodes_for_keysyms(8, 2, &ks, &vec![0x48, 0x68]), vec![11]);
    assert_eq!(keycodes_for_keysyms(8, 2, &ks, &vec![0x42, 0x61]), vec![8, 9]);
    assert!(keycodes_for_keysyms(8, 2, &ks, &vec![0x7a]).is_empty());
    assert!(keycodes_for_keysyms(8, 0, &ks, &vec![0x61]).is_empty());
}

#[test]
fn monitors_and_popup() {
    let ms = vec![
        MonitorRect { x: 0, y: 0, width: 1920, height: 1080 },
        MonitorRect { x: 1920, y: 0, width: 1280, height: 1024 },
    ];
    assert_eq!(monitor_at(&ms, 100, 100), 0);
    assert_eq!(monitor_at(&ms, 2000, 500), 1);
    assert_eq!(monitor_at(&ms, 2000, 1050), 0);
    assert_eq!(popup_origin(2000, 400, 1920, 1280), 1920);
    assert_eq!(popup_origin(2500, 400, 1920, 1280), 2300);
    assert_eq!(popup_origin(3190, 400, 1920, 1280), 2800);
    assert_eq!(popup_origin(50, 400, 0, 300), -100);
}

#[test]
fn mouse_utils_monitors() {
    let mut m = MouseUtils::new();
    assert!(!m.is_running());
    let f = MouseFeatures {
        find_my_mouse: true,
        click_highlighter: false,
        crosshair: true,
        mouse_jump: true,
        cursor_wrap: true,
        gliding_cursor: false,
    };
    assert_eq!(m.start(f), vec![MouseMonitor::FindMyMouse, MouseMonitor::Crosshairs, MouseMonitor::CursorWrap]);
    assert!(m.is_running());
    assert_eq!(m.stop().len(), 3);
    assert!(!m.is_running());
}
