use mpt_core::accent_monitor::{
    build_keymap, is_activation_keysym, is_alpha_keysym, is_space_keysym, keysym_for, keysym_to_char, on_key,
    on_tick, AccentState,
};
use mpt_core::accents::{
    accents_for_letter, backspace_keys, chars_for_lang, has_accents, overlay_args, parse_arg, position_arg,
    AccentPicker, ActivationKey, PickerKeys, QuickAccentConfig, ToolbarPosition,
};

#[test]
fn french_accents() {
    let langs = vec!["fr".to_string()];
    let accents = accents_for_letter('e', &langs);
    assert_eq!(accents, vec!['é', 'è', 'ê', 'ë']);
}

#[test]
fn uppercase_accents() {
    let langs = vec!["fr".to_string()];
    let accents = accents_for_letter('E', &langs);
    assert_eq!(accents, vec!['É', 'È', 'Ê', 'Ë']);
}

#[test]
fn multi_language_dedup() {
    let langs = vec!["fr".to_string(), "pt".to_string()];
    let accents = accents_for_letter('a', &langs);
    // fr: à, â, æ — pt: á, â, ã, à → merged: à, â, æ, á, ã
    assert_eq!(accents, vec!['à', 'â', 'æ', 'á', 'ã']);
}

#[test]
fn no_accents_for_x() {
    let langs = vec!["fr".to_string()];
    assert!(!has_accents('x', &langs));
}

#[test]
fn accents_edges() {
    assert_eq!(chars_for_lang('s', "de"), Some(vec!['ß']));
    assert_eq!(chars_for_lang('a', "da"), Some(vec!['å', 'æ']));
    assert_eq!(chars_for_lang('a', "xx"), None);
    // The upper case of ß is "SS": its first character is offered.
    assert_eq!(accents_for_letter('S', &["de".to_string()]), vec!['S']);
    // Turkish dotless/dotted i: upper case of ı is I, İ stays.
    assert_eq!(accents_for_letter('i', &["tr".to_string()]), vec!['ı', 'İ']);
    assert_eq!(accents_for_letter('I', &["tr".to_string()]), vec!['I', 'İ']);
    assert!(accents_for_letter('e', &[]).is_empty());
    let all: Vec<String> = ["fr", "es", "pt", "it", "nl", "cs", "hu"].iter().map(|s| s.to_string()).collect();
    let u = accents_for_letter('u', &all);
    let mut sorted = u.clone();
    sorted.sort();
    sorted.dedup();
    assert_eq!(sorted.len(), u.len());
    assert_eq!(u, vec!['ù', 'û', 'ü', 'ú', 'ů', 'ű']);
}

#[test]
fn config_defaults_and_overlay_command_line() {
    let cfg = QuickAccentConfig::default_config();
    assert_eq!(cfg.activation_key, ActivationKey::Space);
    assert_eq!(cfg.input_delay_ms, 200);
    assert_eq!(cfg.languages, vec!["fr", "es", "de", "pt", "it"]);
    assert_eq!(cfg.toolbar_position, ToolbarPosition::AboveCursor);
    assert_eq!(position_arg(ToolbarPosition::BottomCenter), "bottom-center");
    let args = overlay_args('n', 2, &cfg).unwrap();
    assert_eq!(
        args,
        vec!["--letter", "n", "--chars", "ñ", "--backspaces", "2", "--position", "above-cursor"]
    );
    assert!(overlay_args('x', 1, &cfg).is_none());
    let owned: Vec<String> = args.iter().map(|s| s.to_string()).collect();
    assert_eq!(parse_arg(&owned, "--chars"), Some("ñ".to_string()));
    assert_eq!(parse_arg(&owned, "--missing"), None);
    assert_eq!(parse_arg(&["--letter".to_string()], "--letter"), None);
    assert_eq!(backspace_keys(0), "");
    assert_eq!(backspace_keys(3), "BackSpace BackSpace BackSpace");
}

#[test]
fn picker_keys_and_pointer() {
    let mut p = AccentPicker::new(vec!['a', 'b', 'c']);
    let none = PickerKeys { escape: false, enter: false, space: false, right: false, left: false };
    p.handle_keys(PickerKeys { left: true, ..none });
    assert_eq!(p.selected_idx, 2);
    p.handle_keys(PickerKeys { space: true, right: true, ..none });
    assert_eq!(p.selected_idx, 1);
    assert!(!p.should_close);
    p.handle_keys(PickerKeys { enter: true, ..none });
    assert_eq!(p.result, Some('b'));
    assert!(p.should_close);

    let mut p = AccentPicker::new(vec!['x', 'y']);
    p.handle_keys(PickerKeys { escape: true, ..none });
    assert!(p.should_close);
    assert_eq!(p.result, None);

    let mut p = AccentPicker::new(vec!['x', 'y']);
    p.observe_focus(false);
    assert!(!p.should_close);
    p.observe_focus(true);
    p.observe_focus(false);
    assert!(p.should_close);

    let mut p = AccentPicker::new(vec!['x', 'y']);
    p.hover(1);
    assert_eq!(p.selected_idx, 1);
    p.click(0);
    assert_eq!(p.result, Some('x'));
    p.count_frame();
    assert_eq!(p.frame_count, 1);
}

#[test]
fn keysym_classification() {
    assert!(is_alpha_keysym(0x61));
    assert!(is_alpha_keysym(0x5a));
    assert!(!is_alpha_keysym(0x31));
    assert_eq!(keysym_to_char(0x45), 'e');
    assert_eq!(keysym_to_char(0x65), 'e');
    assert!(is_space_keysym(0x20));
    assert!(is_space_keysym(0xff80));
    assert!(is_activation_keysym(0xff51, ActivationKey::LeftRight));
    assert!(!is_activation_keysym(0x20, ActivationKey::LeftRight));
    assert!(is_activation_keysym(0x20, ActivationKey::Any));
}

#[test]
fn keymap_table_from_server_mapping() {
    // keycodes 8, 9, 10 with two keysyms each; 9 has none.
    let m = build_keymap(8, 2, &vec![0x61, 0x41, 0, 0, 0x20, 0]);
    assert_eq!(keysym_for(&m, 8), 0x61);
    assert_eq!(keysym_for(&m, 9), 0);
    assert_eq!(keysym_for(&m, 10), 0x20);
    assert_eq!(keysym_for(&m, 200), 0);
    assert_eq!(m.len(), 2);
    assert!(build_keymap(8, 0, &vec![0x61]).is_empty());
}

#[test]
fn monitor_opens_picker_after_delay() {
    let langs = vec!["fr".to_string()];
    let s = on_key(AccentState::Idle, true, 26, 0x65, &langs, ActivationKey::Space, 0);
    assert_eq!(s, AccentState::LetterHeld { letter: 'e', keycode: 26, chars_typed: 1 });
    let s = on_key(s, true, 26, 0x65, &langs, ActivationKey::Space, 10);
    assert_eq!(s, AccentState::LetterHeld { letter: 'e', keycode: 26, chars_typed: 2 });
    let s = on_key(s, true, 65, 0x20, &langs, ActivationKey::Space, 100);
    assert_eq!(s, AccentState::Pending { letter: 'e', keycode: 26, activated_ms: 100, chars_typed: 3 });
    let (s1, req) = on_tick(s, 250, 200);
    assert_eq!(s1, s);
    assert_eq!(req, None);
    let (s2, req) = on_tick(s, 300, 200);
    assert_eq!(s2, AccentState::Idle);
    assert_eq!(req, Some(('e', 3)));
}

#[test]
fn monitor_cancels_and_ignores() {
    let langs = vec!["fr".to_string()];
    // A letter without accents is ignored.
    assert_eq!(on_key(AccentState::Idle, true, 53, 0x78, &langs, ActivationKey::Space, 0), AccentState::Idle);
    // Releasing the letter before the delay cancels.
    let s = on_key(AccentState::Idle, true, 26, 0x65, &langs, ActivationKey::Space, 0);
    let s = on_key(s, true, 65, 0x20, &langs, ActivationKey::Space, 5);
    let s = on_key(s, false, 26, 0x65, &langs, ActivationKey::Space, 50);
    assert_eq!(s, AccentState::Idle);
    assert_eq!(on_tick(s, 1000, 200).1, None);
    // Another key while the letter is held cancels too.
    let s = on_key(AccentState::Idle, true, 26, 0x65, &langs, ActivationKey::Space, 0);
    assert_eq!(on_key(s, true, 27, 0x72, &langs, ActivationKey::Space, 1), AccentState::Idle);
    // Arrow keys activate without typing a character.
    let s = on_key(AccentState::Idle, true, 26, 0x65, &langs, ActivationKey::LeftRight, 0);
    let s = on_key(s, true, 114, 0xff53, &langs, ActivationKey::LeftRight, 7);
    assert_eq!(s, AccentState::Pending { letter: 'e', keycode: 26, activated_ms: 7, chars_typed: 1 });
}

#[test]
fn picker_wraps_both_ways() {
    let none = PickerKeys { escape: false, enter: false, space: false, right: false, left: false };
    let mut p = AccentPicker::new(vec!['a', 'b', 'c']);
    p.handle_keys(PickerKeys { left: true, ..none });
    assert_eq!(p.selected_idx, 2);
    p.handle_keys(PickerKeys { right: true, ..none });
    assert_eq!(p.selected_idx, 0);
    p.handle_keys(PickerKeys { space: true, ..none });
    assert_eq!(p.selected_idx, 1);
}
