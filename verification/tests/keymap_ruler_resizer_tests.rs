use mpt_core::keymap::{
    default_true, is_false, KeyAction, KeyCombo, KeyManager, KeyManagerConfig, KeyManagerError, KeyMapping,
    KeyTrigger,
};
use mpt_core::resizer::{
    file_stem, needs_resize, output_file_name, result_summary, ImageResizerApp, ImageResizerConfig, OutputFormat,
    ResizePreset, ResizeStatus,
};
use mpt_core::ruler::{Measurement, Point, ScreenRuler};

#[test]
fn key_combo_is_single_key() {
    assert!(KeyCombo::key("KEY_A").is_single_key());
    assert!(!KeyCombo::shortcut(vec!["KEY_LEFTCTRL".into()], "KEY_A").is_single_key());
    assert!(!KeyCombo::chord(vec!["KEY_LEFTCTRL".into()], "KEY_V", "KEY_U").is_single_key());
}

#[test]
fn mapping_constructors_fill_fields() {
    let m = KeyMapping::remap("KEY_CAPSLOCK", "KEY_ESC");
    assert!(matches!(&m.trigger, KeyTrigger::Key(k) if k == "KEY_CAPSLOCK"));
    assert!(matches!(&m.action, KeyAction::RemapKey { to } if to.key == "KEY_ESC" && to.modifiers.is_empty()));
    assert!(m.enabled);
    assert!(!m.exact_match);
    assert!(m.app_filter.is_none());

    let m = KeyMapping::remap("KEY_CAPSLOCK", "KEY_ESC").for_app("code").exact();
    assert_eq!(m.app_filter.as_deref(), Some("code"));
    assert!(m.exact_match);

    let m = KeyMapping::command("KEY_F12", "xterm");
    assert!(matches!(&m.action, KeyAction::RunCommand { command } if command == "xterm"));
    let m = KeyMapping::send_text("KEY_H", "Hello!");
    assert!(matches!(&m.action, KeyAction::SendText { text } if text == "Hello!"));
    let m = KeyMapping::disable("KEY_INSERT");
    assert!(matches!(&m.action, KeyAction::Disable));

    let m = KeyMapping::remap_to_combo("KEY_LEFTCTRL", vec!["KEY_LEFTMETA".into()], "KEY_LEFT");
    match &m.action {
        KeyAction::RemapKey { to } => {
            assert_eq!(to.modifiers, vec!["KEY_LEFTMETA".to_string()]);
            assert_eq!(to.key, "KEY_LEFT");
        },
        _ => panic!("expected RemapKey action"),
    }
}

#[test]
fn mapping_triggers_and_apps() {
    let from = KeyCombo::shortcut(vec!["KEY_LEFTALT".into()], "KEY_C");
    let to = KeyCombo::shortcut(vec!["KEY_LEFTCTRL".into()], "KEY_C");
    let m = KeyMapping::shortcut_remap(from, to);
    if let KeyTrigger::Combo(c) = &m.trigger {
        assert_eq!(c.modifiers, vec!["KEY_LEFTALT".to_string()]);
        assert_eq!(c.key, "KEY_C");
    } else {
        panic!("expected Combo trigger");
    }

    let t = KeyTrigger::chord(vec!["KEY_LEFTCTRL".into(), "KEY_LEFTSHIFT".into()], "KEY_V", "KEY_U");
    let m = KeyMapping::open_uri(t, "volume-up");
    if let KeyTrigger::Combo(c) = &m.trigger {
        assert_eq!(c.modifiers.len(), 2);
        assert_eq!(c.key, "KEY_V");
        assert_eq!(c.chord.as_deref(), Some("KEY_U"));
    } else {
        panic!("expected Combo trigger with chord");
    }

    let m = KeyMapping::launch_app(KeyTrigger::combo(vec!["KEY_LEFTCTRL".into()], "KEY_T"), "/usr/bin/alacritty");
    match &m.action {
        KeyAction::LaunchApp { path, args, working_dir, elevated } => {
            assert_eq!(path, "/usr/bin/alacritty");
            assert!(args.is_empty());
            assert!(working_dir.is_none());
            assert!(!elevated);
        },
        _ => panic!("expected LaunchApp action"),
    }
    let m = KeyMapping::open_uri(KeyTrigger::key("KEY_G"), "https://github.com");
    assert!(matches!(&m.action, KeyAction::OpenUri { uri } if uri == "https://github.com"));
    assert!(default_true());
    assert!(is_false(&false));
    assert!(!is_false(&true));
}

#[test]
fn key_manager_mappings() {
    let mut km = KeyManager::new(KeyManagerConfig::new());
    assert!(!km.is_running());
    km.add_mapping(KeyMapping::disable("KEY_INSERT"));
    km.add_mapping(KeyMapping::remap("KEY_A", "KEY_B"));
    assert_eq!(km.config().mappings.len(), 2);
    assert!(km.remove_mapping(0).is_ok());
    assert_eq!(km.config().mappings.len(), 1);
    assert!(matches!(&km.config().mappings[0].trigger, KeyTrigger::Key(k) if k == "KEY_A"));
    assert!(matches!(km.remove_mapping(5), Err(KeyManagerError::MappingOutOfRange { index: 5 })));
    km.start();
    assert!(km.is_running());
    km.stop();
    assert!(!km.is_running());
}

#[test]
fn horizontal_measurement() {
    let m = Measurement::new(Point { x: 0, y: 0 }, Point { x: 100, y: 0 });
    assert_eq!(m.width(), 100);
    assert_eq!(m.height(), 0);
    let diagonal = m.diagonal_tenths() as f64 / 10.0;
    assert!((diagonal - 100.0).abs() < 0.01);
}

#[test]
fn diagonal_measurement() {
    let m = Measurement::new(Point { x: 0, y: 0 }, Point { x: 3, y: 4 });
    assert_eq!(m.width(), 3);
    assert_eq!(m.height(), 4);
    let diagonal = m.diagonal_tenths() as f64 / 10.0;
    assert!((diagonal - 5.0).abs() < 0.01);
}

#[test]
fn display_format() {
    let m = Measurement::new(Point { x: 10, y: 20 }, Point { x: 110, y: 80 });
    let s = m.display_string();
    assert!(s.contains("100x60 px"));
}

#[test]
fn display_string_exact() {
    let m = Measurement::new(Point { x: 10, y: 20 }, Point { x: 110, y: 80 });
    assert_eq!(m.display_string(), "100x60 px (diagonal: 116.6 px)");
    let m = Measurement::new(Point { x: 5, y: 5 }, Point { x: 5, y: 5 });
    assert_eq!(m.display_string(), "0x0 px (diagonal: 0.0 px)");
    let m = Measurement::new(Point { x: 1, y: 1 }, Point { x: 0, y: 0 });
    assert_eq!(m.diagonal_tenths(), 14);
    assert_eq!(m.display_string(), "1x1 px (diagonal: 1.4 px)");
}

#[test]
fn diagonal_matches_float_rounding() {
    for (x, y) in [(7, 9), (123, 456), (1920, 1080), (-3000, 2500), (1, 2)] {
        let m = Measurement::new(Point { x: 0, y: 0 }, Point { x, y });
        let d = ((x as f64) * (x as f64) + (y as f64) * (y as f64)).sqrt();
        assert_eq!(m.display_string(), format!("{}x{} px (diagonal: {:.1} px)", m.width(), m.height(), d));
    }
}

#[test]
fn screen_ruler_lifecycle() {
    let mut r = ScreenRuler::new();
    assert_eq!(r.id(), "screen-ruler");
    assert_eq!(r.name(), "Screen Ruler");
    assert!(!r.is_running());
    r.start();
    assert!(r.is_running());
    r.stop();
    assert!(!r.is_running());
}

#[test]
fn preset_widths() {
    assert_eq!(ResizePreset::Small.max_width(), 640);
    assert_eq!(ResizePreset::Medium.max_width(), 1280);
    assert_eq!(ResizePreset::Large.max_width(), 1920);
    assert_eq!(ResizePreset::Phone.max_width(), 1080);
}

#[test]
fn resize_decision_and_names() {
    assert_eq!(ResizePreset::Custom.max_width(), 0);
    assert!(needs_resize(2000, 1920));
    assert!(!needs_resize(1920, 1920));
    assert!(!needs_resize(5000, 0));
    assert_eq!(file_stem("photo.jpg"), "photo");
    assert_eq!(file_stem(".hidden"), ".hidden");
    assert_eq!(file_stem("a.tar.gz"), "a.tar");
    assert_eq!(output_file_name("/pics/photo.jpg", OutputFormat::Png), "photo_resized.png");
    assert_eq!(output_file_name("/pics/photo.jpg", OutputFormat::Original), "photo_resized.jpg");
    assert_eq!(output_file_name("/pics/photo", OutputFormat::Original), "photo_resized.png");
    assert_eq!(output_file_name("/pics/photo.jpg", OutputFormat::Jpeg), "photo_resized.jpg");
    assert_eq!(output_file_name("/pics/photo.bmp", OutputFormat::Webp), "photo_resized.webp");
    assert_eq!(output_file_name("/", OutputFormat::Png), "image_resized.png");
}

#[test]
fn resizer_window_flow() {
    let cfg = ImageResizerConfig::default_config();
    assert_eq!(cfg.preset, ResizePreset::Medium);
    assert_eq!(cfg.output_format, OutputFormat::Original);
    assert_eq!(cfg.quality, 85);
    let mut app = ImageResizerApp::new(cfg);
    assert_eq!(app.custom_width, "800");
    assert_eq!(app.action_label(), "Resize");
    assert!(app.start_resize().is_none());
    app.add_file("/a.png".to_string());
    app.add_file("/b.png".to_string());
    app.add_file("/a.png".to_string());
    assert_eq!(app.files, vec!["/a.png".to_string(), "/b.png".to_string()]);
    assert_eq!(app.files_label(), "2 files");
    assert_eq!(app.action_label(), "Resize 2 images");
    app.remove_file(1);
    assert_eq!(app.files_label(), "1 file");
    app.preset = ResizePreset::Custom;
    app.custom_width = "12a3".to_string();
    app.keep_width_digits();
    assert_eq!(app.custom_width, "123");
    assert_eq!(app.max_width(), 123);
    let job = app.start_resize().unwrap();
    assert_eq!(job.max_width, 123);
    assert_eq!(job.files, vec!["/a.png".to_string()]);
    assert_eq!(app.status, ResizeStatus::Resizing);
    assert_eq!(app.progress_label(0), "Resizing... 0/1");
    app.observe_results(0);
    assert_eq!(app.status, ResizeStatus::Resizing);
    app.observe_results(1);
    assert_eq!(app.status, ResizeStatus::Done);
    app.resize_more();
    assert_eq!(app.status, ResizeStatus::Idle);
    assert!(app.files.is_empty());
    app.custom_width = String::new();
    assert_eq!(app.max_width(), 800);
}

#[test]
fn resize_result_summaries() {
    assert_eq!(result_summary(&vec![true, true]), vec!["\u{2713}  All 2 images resized successfully".to_string()]);
    assert_eq!(
        result_summary(&vec![true, false, false]),
        vec!["\u{2713} 1 resized".to_string(), "\u{2715} 2 failed".to_string()]
    );
    assert_eq!(result_summary(&vec![]), vec!["\u{2713}  All 0 images resized successfully".to_string()]);
}

#[test]
fn width_and_height_need_only_their_own_axis() {
    let m = Measurement::new(Point { x: 0, y: i32::MIN }, Point { x: 3, y: i32::MAX });
    assert_eq!(m.width(), 3);
    let m = Measurement::new(Point { x: i32::MAX, y: 7 }, Point { x: i32::MIN, y: 2 });
    assert_eq!(m.height(), 5);
}

#[test]
fn dropped_files_are_added_once_in_order() {
    let mut app = ImageResizerApp::new(ImageResizerConfig::default_config());
    app.add_file("/a.png".to_string());
    app.add_dropped(vec!["/b.png".to_string(), "/a.png".to_string(), "/c.png".to_string(), "/b.png".to_string()]);
    assert_eq!(app.files, vec!["/a.png".to_string(), "/b.png".to_string(), "/c.png".to_string()]);
    let job = app.start_resize().unwrap();
    assert_eq!(job.files.len(), 3);
    app.begin_frame(2, vec!["/d.png".to_string()]);
    assert_eq!(app.status, ResizeStatus::Resizing);
    assert_eq!(app.files.len(), 4);
    app.begin_frame(3, vec![]);
    assert_eq!(app.status, ResizeStatus::Done);
}
