use mpt_core::light_switch::{
    default_dark_time, default_light_time, default_off, offset_time, parse_time_or, schedule_mode, scheduler_step,
    set_theme, theme_from_color_scheme, toggle_theme, DayTime, LightSwitch, LightSwitchConfig, ScheduleMode,
    SystemTheme,
};
use mpt_core::modules::{default_lang, PastePlain, TextExtractor, TextExtractorConfig};
use mpt_core::shortcuts::{
    gnome_shortcuts, group_by_category, key_parts, same_category, ShortcutEntry, ShortcutGuide, ShortcutGuideConfig,
};

#[test]
fn defaults_include_gnome_shortcuts() {
    let cfg = ShortcutGuideConfig::default_config();
    assert!(!cfg.resolve().is_empty());
}

#[test]
fn hidden_category_filters_out() {
    let mut cfg = ShortcutGuideConfig::default_config();
    cfg.hidden_categories.push("Windows".into());
    let list = cfg.resolve();
    assert!(list.iter().all(|s| s.category != "Windows"));
}

#[test]
fn custom_shortcut_appears() {
    let mut cfg = ShortcutGuideConfig::default_config();
    cfg.show_gnome_shortcuts = false;
    cfg.custom_shortcuts.push(ShortcutEntry {
        keys: "Ctrl+Alt+K".into(),
        description: "Custom action".into(),
        category: "Custom".into(),
    });
    let list = cfg.resolve();
    assert_eq!(list.len(), 1);
    assert_eq!(list[0].keys, "Ctrl+Alt+K");
}

#[test]
fn gnome_shortcuts_not_empty() {
    let shortcuts = gnome_shortcuts();
    assert!(!shortcuts.is_empty());
    assert!(shortcuts.len() > 10);
}

#[test]
fn group_categories() {
    let shortcuts = gnome_shortcuts();
    let groups = group_by_category(&shortcuts);
    assert!(groups.len() >= 3); // System, Windows, Apps, Workspaces
    let categories: Vec<&str> = groups.iter().map(|(c, _)| *c).collect();
    assert!(categories.contains(&"System"));
    assert!(categories.contains(&"Windows"));
}

#[test]
fn grouping_keeps_order_and_members() {
    let shortcuts = gnome_shortcuts();
    assert_eq!(shortcuts.len(), 14);
    let groups = group_by_category(&shortcuts);
    let categories: Vec<&str> = groups.iter().map(|(c, _)| *c).collect();
    assert_eq!(categories, vec!["System", "Windows", "Apps", "Workspaces"]);
    let sizes: Vec<usize> = groups.iter().map(|(_, g)| g.len()).collect();
    assert_eq!(sizes, vec![4, 6, 2, 2]);
    assert_eq!(groups[1].1[0].keys, "Super+Tab");
    let mixed = vec![
        ShortcutEntry { keys: "a".into(), description: "".into(), category: "X".into() },
        ShortcutEntry { keys: "b".into(), description: "".into(), category: "Y".into() },
        ShortcutEntry { keys: "c".into(), description: "".into(), category: "X".into() },
    ];
    let g = group_by_category(&mixed);
    assert_eq!(g.len(), 2);
    assert_eq!(g[0].0, "X");
    assert_eq!(g[0].1.iter().map(|e| e.keys.as_str()).collect::<Vec<_>>(), vec!["a", "c"]);
    assert!(group_by_category(&[]).is_empty());
}

#[test]
fn hidden_categories_ignore_case_and_customs_follow() {
    let mut cfg = ShortcutGuideConfig::default_config();
    cfg.hidden_categories.push("windows".into());
    cfg.hidden_categories.push("APPS".into());
    cfg.custom_shortcuts.push(ShortcutEntry { keys: "K".into(), description: "d".into(), category: "Apps".into() });
    cfg.custom_shortcuts.push(ShortcutEntry { keys: "M".into(), description: "e".into(), category: "Mine".into() });
    let list = cfg.resolve();
    let keys: Vec<&str> = list.iter().map(|e| e.keys.as_str()).collect();
    assert_eq!(keys, vec!["Super", "Super+L", "Super+D", "Super+A", "Ctrl+Super+Up/Down", "Ctrl+Super+Shift+Up/Down", "M"]);
    assert!(same_category("Windows", "wINDOWS"));
    assert!(!same_category("Windows", "Window"));
    assert!(same_category("É", "é"));

    let mut cfg = ShortcutGuideConfig::default_config();
    cfg.show_gnome_shortcuts = false;
    cfg.hidden_categories.push("système".into());
    cfg.custom_shortcuts.push(ShortcutEntry { keys: "S".into(), description: "s".into(), category: "SYSTÈME".into() });
    cfg.custom_shortcuts.push(ShortcutEntry { keys: "T".into(), description: "t".into(), category: "Tools".into() });
    let keys: Vec<String> = cfg.resolve().into_iter().map(|e| e.keys).collect();
    assert_eq!(keys, vec!["T".to_string()]);
}

#[test]
fn shortcut_guide_lifecycle() {
    let mut g = ShortcutGuide::new(ShortcutGuideConfig::default_config());
    assert!(!g.is_running());
    g.start();
    assert!(g.is_running());
    g.stop();
    assert!(!g.is_running());
    assert!(g.config().show_gnome_shortcuts);
}

#[test]
fn theme_reading_and_commands() {
    assert_eq!(theme_from_color_scheme("'prefer-dark'\n"), SystemTheme::Dark);
    assert_eq!(theme_from_color_scheme("'default'"), SystemTheme::Light);
    assert_eq!(theme_from_color_scheme("dar"), SystemTheme::Light);
    assert_eq!(
        set_theme(true, true, true),
        vec![
            vec!["set", "org.gnome.desktop.interface", "color-scheme", "prefer-dark"],
            vec!["set", "org.gnome.desktop.interface", "gtk-theme", "Adwaita-dark"],
        ]
    );
    assert_eq!(
        set_theme(false, false, true),
        vec![vec!["set", "org.gnome.desktop.interface", "color-scheme", "prefer-light"]]
    );
    assert!(set_theme(true, false, false).is_empty());
    assert_eq!(toggle_theme(SystemTheme::Dark, true, false), set_theme(false, true, false));
    assert_eq!(toggle_theme(SystemTheme::Light, true, true), set_theme(true, true, true));
}

#[test]
fn times_of_day() {
    let d = DayTime { secs: 1, frac: 0 };
    assert_eq!(parse_time_or("07:30", d), DayTime { secs: 27000, frac: 0 });
    assert_eq!(parse_time_or("23:59", d), DayTime { secs: 86340, frac: 0 });
    assert_eq!(parse_time_or("25:00", d), d);
    assert_eq!(parse_time_or("noon", d), d);
    assert_eq!(offset_time(DayTime { secs: 3600, frac: 0 }, -90), DayTime { secs: 84600, frac: 0 });
    assert_eq!(offset_time(DayTime { secs: 86000, frac: 5 }, 10), DayTime { secs: 180, frac: 0 });
    assert_eq!(schedule_mode("fixed"), ScheduleMode::Fixed);
    assert_eq!(schedule_mode("sunset-sunrise"), ScheduleMode::SunsetSunrise);
    assert_eq!(schedule_mode("Fixed"), ScheduleMode::Off);
}

#[test]
fn fixed_schedule_wraps_midnight() {
    let mut cfg = LightSwitchConfig::default_config();
    assert_eq!(cfg.schedule_mode, "off");
    assert_eq!(default_off(), "off");
    assert_eq!(default_dark_time(), "20:00");
    assert_eq!(default_light_time(), "06:00");
    let off = LightSwitch::new(LightSwitchConfig::default_config());
    assert_eq!(off.should_be_dark(DayTime { secs: 0, frac: 0 }, 0, None), None);
    assert!(off.apply_scheduled_theme(true).is_empty());
    let mut unknown = LightSwitchConfig::default_config();
    unknown.schedule_mode = "bogus".into();
    let unknown = LightSwitch::new(unknown);
    assert_eq!(unknown.should_be_dark(DayTime { secs: 0, frac: 0 }, 0, None), None);
    assert_eq!(unknown.apply_scheduled_theme(false), set_theme(false, true, true));
    cfg.schedule_mode = "fixed".into();
    let ls = LightSwitch::new(cfg);
    let at = |h: u32, m: u32| DayTime { secs: h * 3600 + m * 60, frac: 0 };
    assert_eq!(ls.should_be_dark(at(21, 0), 0, None), Some(true));
    assert_eq!(ls.should_be_dark(at(3, 0), 0, None), Some(true));
    assert_eq!(ls.should_be_dark(at(6, 0), 0, None), Some(false));
    assert_eq!(ls.should_be_dark(at(20, 0), 0, None), Some(true));
    assert_eq!(ls.should_be_dark(at(12, 0), 0, None), Some(false));
    assert_eq!(ls.apply_scheduled_theme(true), set_theme(true, true, true));
    assert_eq!(ls.on_hotkey(SystemTheme::Dark), set_theme(false, true, true));

    let mut cfg = LightSwitchConfig::default_config();
    cfg.schedule_mode = "fixed".into();
    cfg.dark_mode_time = "08:00".into();
    cfg.light_mode_time = "17:00".into();
    let day = LightSwitch::new(cfg);
    assert_eq!(day.should_be_dark(at(9, 0), 0, None), Some(true));
    assert_eq!(day.should_be_dark(at(18, 0), 0, None), Some(false));
}

#[test]
fn solar_schedule_uses_local_times() {
    let mut cfg = LightSwitchConfig::default_config();
    cfg.schedule_mode = "sunset-sunrise".into();
    cfg.sunset_offset_min = 30;
    let ls = LightSwitch::new(cfg);
    let at = |h: u32, m: u32| DayTime { secs: h * 3600 + m * 60, frac: 0 };
    // Sunrise 05:00 UTC, sunset 17:00 UTC, two hours ahead of UTC.
    let solar = Some((at(5, 0), at(17, 0)));
    assert_eq!(ls.should_be_dark(at(6, 59), 120, solar), Some(true));
    assert_eq!(ls.should_be_dark(at(7, 0), 120, solar), Some(false));
    assert_eq!(ls.should_be_dark(at(19, 29), 120, solar), Some(false));
    assert_eq!(ls.should_be_dark(at(19, 30), 120, solar), Some(true));
}

#[test]
fn scheduler_applies_on_change_only() {
    assert_eq!(scheduler_step(None, true), (Some(true), true));
    assert_eq!(scheduler_step(Some(true), true), (Some(true), false));
    assert_eq!(scheduler_step(Some(true), false), (Some(false), true));
    let mut ls = LightSwitch::new(LightSwitchConfig::default_config());
    ls.start();
    assert!(ls.is_running());
    ls.stop();
    assert!(!ls.is_running());
    assert!(ls.config().apply_apps);
}

#[test]
fn paste_plain_and_text_extractor() {
    let mut p = PastePlain::new();
    assert_eq!(p.paste_as_plain(""), None);
    assert_eq!(p.paste_as_plain(" <b>x</b> "), Some(" <b>x</b> ".to_string()));
    p.start();
    assert!(p.is_running());
    p.stop();
    assert!(!p.is_running());

    assert_eq!(default_lang(), "eng");
    let cfg = TextExtractorConfig::default_config();
    let mut t = TextExtractor::new(cfg);
    assert_eq!(t.tesseract_args("/tmp/a.png", "/tmp/out"), vec!["/tmp/a.png", "/tmp/out", "-l", "eng"]);
    assert_eq!(t.on_hotkey("  \n\t "), None);
    assert_eq!(t.on_hotkey("\n Hello world \n"), Some("Hello world".to_string()));
    t.start();
    assert!(t.is_running());
    t.stop();
    assert!(!t.is_running());
}

#[test]
fn shortcut_key_badges() {
    assert_eq!(key_parts("Ctrl + Alt+T"), vec!["Ctrl", "Alt", "T"]);
    assert_eq!(key_parts("Super"), vec!["Super"]);
    assert_eq!(key_parts("Ctrl++"), vec!["Ctrl", "", ""]);
    assert_eq!(key_parts(""), vec![""]);
    for e in gnome_shortcuts() {
        let expected: Vec<String> = e.keys.split('+').map(|p| p.trim().to_string()).collect();
        assert_eq!(key_parts(&e.keys), expected);
    }
}
