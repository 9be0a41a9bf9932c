use mpt_core::module_confs::{
    default_formats, distro_name, package_manager_from_commands, package_manager_from_os_release, unquote,
    AppLauncherConf, ColorPickerConf, CommandPaletteConf, FancyZonesConf, ImageResizerConf, LightSwitchConf,
    MouseUtilsConf, PeekConf, TextExtractorConf,
};
use mpt_core::settings::{
    DaemonStateResult, Delayed, DemoDialogPhase, Effect, Message, ModuleConfigs, Settings, Tick, ToastNotification,
    ToastTexts, UpdateCheckResult, UpdateInstallResult, UpdateState,
};
use mpt_core::settings_types::{
    display_server_label, parse_visual_theme, serialize_visual_theme, DisplayServer, FontSize, Language, Page,
    PackageManager, ThemeMode, ToastKind, VisualTheme,
};

fn texts() -> ToastTexts {
    ToastTexts {
        success_title: "OK".into(),
        error_title: "Oops".into(),
        command_copied: "copied".into(),
        copy_failed: "copy failed".into(),
        update_already: "already".into(),
        update_failed: "update failed".into(),
        demo_success: "demo ok".into(),
        demo_error: "demo bad".into(),
    }
}

fn configs() -> ModuleConfigs {
    ModuleConfigs {
        color_picker: ColorPickerConf::default_conf(),
        text_extractor: TextExtractorConf::default_conf(),
        image_resizer: ImageResizerConf::default_conf(),
        mouse_utils: MouseUtilsConf::default_conf(),
        app_launcher: AppLauncherConf::default_conf(),
        fancy_zones: FancyZonesConf::default_conf(),
        peek: PeekConf::default_conf(),
        command_palette: CommandPaletteConf::default_conf(),
        light_switch: LightSwitchConf::default_conf(),
    }
}

fn window() -> Settings {
    Settings::new(
        vec!["peek".to_string(), "light-switch".to_string()],
        VisualTheme::Default,
        vec![],
        true,
        configs(),
    )
}

#[test]
fn new_window_and_timers() {
    let s = window();
    assert!(matches!(s.page, Page::Dashboard));
    assert_eq!(s.language, Language::Fr);
    assert_eq!(s.font_size, FontSize::Medium);
    assert_eq!(s.theme_mode, ThemeMode::System);
    assert!(s.is_dark());
    assert_eq!(s.modules.len(), 2);
    assert!(!s.modules[0].running);
    assert_eq!(s.subscriptions(), vec![(3000, Tick::DaemonPoll), (2000, Tick::SystemThemeCheck)]);
}

#[test]
fn navigation_to_about_checks_updates_once() {
    let mut s = window();
    let tx = texts();
    let e = s.update(Message::NavigateTo(Page::About), 0, &tx);
    assert!(matches!(e, Effect::CheckForUpdates));
    assert!(matches!(s.update_state, UpdateState::Checking));
    let e = s.update(Message::NavigateTo(Page::About), 0, &tx);
    assert!(matches!(e, Effect::Nothing));
    s.update(Message::UpdateCheckFinished(UpdateCheckResult::Available("1.2.0".into())), 0, &tx);
    assert!(matches!(&s.update_state, UpdateState::Available { latest_version } if latest_version == "1.2.0"));
    s.update(Message::OpenUpdateDialog, 0, &tx);
    assert!(s.update_dialog_open);
    let e = s.update(Message::ConfirmUpdateInstall, 0, &tx);
    assert!(matches!(e, Effect::PerformUpdate));
    assert!(matches!(&s.update_state, UpdateState::Updating { target_version } if target_version == "1.2.0"));
    assert!(s.subscriptions().contains(&(50, Tick::UpdateProgressTick)));
    let e = s.update(Message::UpdateInstallFinished(UpdateInstallResult::Updated("1.2.0".into())), 0, &tx);
    assert!(matches!(e, Effect::After(1500, Delayed::RestartApp)));
    assert!(matches!(&s.update_state, UpdateState::Restarting { new_version } if new_version == "1.2.0"));
    s.update(Message::NavigateTo(Page::Dashboard), 0, &tx);
    assert!(!s.update_dialog_open);
}

#[test]
fn failed_update_raises_error_toast() {
    let mut s = window();
    let tx = texts();
    s.update(Message::UpdateCheckFinished(UpdateCheckResult::Available("2.0".into())), 0, &tx);
    s.update(Message::ConfirmUpdateInstall, 0, &tx);
    s.update(Message::UpdateInstallFinished(UpdateInstallResult::Error("disk full".into())), 100, &tx);
    assert!(matches!(&s.update_state, UpdateState::Error(e) if e == "disk full"));
    let t = s.toast.as_ref().unwrap();
    assert_eq!(t.kind, ToastKind::Error);
    assert_eq!(t.title, "Oops");
    assert_eq!(t.message, "update failed: disk full");
    assert_eq!(t.created_ms, 100);
    assert_eq!(t.expires_ms, 6100);
}

#[test]
fn module_toggles_follow_the_daemon() {
    let mut s = window();
    let tx = texts();
    let e = s.update(Message::ToggleModule("peek".into(), true), 0, &tx);
    assert!(matches!(e, Effect::Nothing));
    assert!(s.modules[0].running);
    s.update(
        Message::DaemonState(DaemonStateResult {
            connected: true,
            modules: vec![("light-switch".into(), "Light Switch".into(), true), ("other".into(), "X".into(), true)],
        }),
        0,
        &tx,
    );
    assert!(s.daemon_connected);
    assert!(s.modules[1].running);
    let e = s.update(Message::ToggleModule("light-switch".into(), false), 0, &tx);
    assert!(matches!(&e, Effect::ToggleModule(id, false) if id == "light-switch"));
    s.update(Message::ToggleModuleResult("light-switch".into(), false, "error: busy".into()), 0, &tx);
    assert!(s.modules[1].running);
    s.update(Message::ToggleModuleResult("peek".into(), true, "ok".into()), 0, &tx);
    assert!(s.modules[0].running);
}

#[test]
fn hotkey_tests_record_results() {
    let mut s = window();
    let tx = texts();
    s.update(Message::TriggerHotkeyTest("peek".into()), 0, &tx);
    assert_eq!(s.shortcut_test_results, vec![("peek".to_string(), "error: daemon disconnected".to_string())]);
    s.daemon_connected = true;
    let e = s.update(Message::TriggerHotkeyTest("peek".into()), 0, &tx);
    assert!(matches!(&e, Effect::TriggerHotkey(id) if id == "peek"));
    assert_eq!(s.shortcut_test_results, vec![("peek".to_string(), "pending".to_string())]);
    s.update(Message::TriggerHotkeyTestResult("peek".into(), "ok".into()), 0, &tx);
    assert_eq!(s.shortcut_test_results, vec![("peek".to_string(), "ok".to_string())]);
}

#[test]
fn key_test_tracks_held_keys() {
    let mut s = window();
    let tx = texts();
    s.update(Message::NavigateTo(Page::Tests), 0, &tx);
    let e = s.update(Message::StartHotkeyTest, 0, &tx);
    assert!(matches!(e, Effect::StartKeyListener));
    assert!(s.hotkey_test_active);
    s.update(Message::KeyboardEvent("Ctrl".into(), true), 0, &tx);
    s.update(Message::KeyboardEvent("A".into(), true), 0, &tx);
    s.update(Message::KeyboardEvent("Ctrl".into(), true), 0, &tx);
    assert_eq!(s.test_active_keys, vec!["Ctrl".to_string(), "A".to_string()]);
    s.update(Message::KeyboardEvent("Ctrl".into(), false), 0, &tx);
    assert_eq!(s.test_active_keys, vec!["A".to_string()]);
    s.update(Message::NavigateTo(Page::Dashboard), 0, &tx);
    assert!(!s.hotkey_test_active);
    assert!(s.test_active_keys.is_empty());
}

#[test]
fn toasts_queue_and_expire() {
    let mut s = window();
    let tx = texts();
    for i in 0..6u64 {
        s.update(Message::DemoToast(ToastKind::Success), i, &tx);
    }
    assert_eq!(s.toast.as_ref().unwrap().created_ms, 0);
    assert_eq!(s.toast_queue.len(), 4);
    assert_eq!(s.toast_queue[0].created_ms, 2);
    assert_eq!(s.toast_queue[3].created_ms, 5);
    assert!(s.subscriptions().contains(&(80, Tick::ToastTick)));
    s.update(Message::ToastTick, 3999, &tx);
    assert_eq!(s.toast.as_ref().unwrap().created_ms, 0);
    s.update(Message::ToastTick, 4000, &tx);
    assert_eq!(s.toast.as_ref().unwrap().created_ms, 2);
    assert_eq!(s.toast_queue.len(), 3);
    s.update(Message::DismissToast, 4001, &tx);
    assert_eq!(s.toast.as_ref().unwrap().created_ms, 3);
    s.update(Message::DemoToast(ToastKind::Error), 10, &tx);
    assert_eq!(s.toast_queue.last().unwrap().message, "demo bad");
}

#[test]
fn copy_command_and_daemon_start_toasts() {
    let mut s = window();
    let tx = texts();
    let e = s.update(Message::CopyInstallCommand("sudo apt install xclip".into()), 0, &tx);
    assert!(matches!(&e, Effect::CopyToClipboard(c) if c == "sudo apt install xclip"));
    s.update(Message::CopyInstallCommandResult(true), 0, &tx);
    assert_eq!(s.toast.as_ref().unwrap().message, "copied");
    s.update(Message::DismissToast, 0, &tx);
    s.update(Message::ToggleReducedMotion(true), 0, &tx);
    s.update(Message::CopyInstallCommandResult(false), 10, &tx);
    let t = s.toast.as_ref().unwrap();
    assert_eq!(t.message, "copy failed");
    assert_eq!(t.expires_ms, 7010);
    s.update(Message::DismissToast, 0, &tx);
    s.update(Message::StartDaemonResult(Ok(())), 0, &tx);
    assert!(s.toast.is_none());
    s.update(Message::StartDaemonResult(Err("not found".into())), 0, &tx);
    assert_eq!(s.toast.as_ref().unwrap().message, "mpt-daemon: not found");
}

#[test]
fn preferences_and_backdrops() {
    let mut s = window();
    let tx = texts();
    s.update(Message::SetThemeMode(ThemeMode::Light), 0, &tx);
    assert!(!s.is_dark());
    s.update(Message::SetLanguage(Language::Jp), 0, &tx);
    s.update(Message::SetFontSize(FontSize::Large), 0, &tx);
    assert_eq!((s.language, s.font_size), (Language::Jp, FontSize::Large));
    let e = s.update(Message::SetVisualTheme(VisualTheme::Color(2)), 0, &tx);
    assert!(matches!(e, Effect::SaveUiPrefs));
    for i in 0..12 {
        s.update(Message::CustomImagePicked(Some(format!("/img/{}.png", i))), 0, &tx);
    }
    s.update(Message::CustomImagePicked(Some("/img/5.png".into())), 0, &tx);
    assert_eq!(s.custom_image_history.len(), 10);
    assert_eq!(s.custom_image_history[0], "/img/5.png");
    assert_eq!(s.custom_image_history[1], "/img/11.png");
    assert!(matches!(&s.visual_theme, VisualTheme::CustomImage(p) if p == "/img/5.png"));
    let e = s.update(Message::CustomImagePicked(None), 0, &tx);
    assert!(matches!(e, Effect::Nothing));
}

#[test]
fn module_settings_are_saved() {
    let mut s = window();
    let tx = texts();
    let e = s.update(Message::SetPeekPreviewLines(12), 0, &tx);
    assert!(matches!(&e, Effect::SaveModule(id) if id == "peek"));
    assert_eq!(s.module_configs.peek.max_preview_lines, 12);
    s.update(Message::ToggleColorFormat("rgb".into(), false), 0, &tx);
    assert!(!s.module_configs.color_picker.formats[1].enabled);
    assert!(s.module_configs.color_picker.formats[0].enabled);
}

#[test]
fn mouse_and_light_switch_settings() {
    let mut s = window();
    let tx = texts();
    assert!(s.module_configs.mouse_utils.find_my_mouse);
    assert_eq!(s.module_configs.mouse_utils.spotlight_color, "#FFFF00");
    assert_eq!(s.module_configs.mouse_utils.spotlight_opacity_percent, 50);
    let e = s.update(Message::ToggleMouseCrosshair(true), 0, &tx);
    assert!(matches!(&e, Effect::SaveModule(id) if id == "mouse-utils"));
    assert!(s.module_configs.mouse_utils.crosshair);
    s.update(Message::ToggleMouseFindMyMouse(false), 0, &tx);
    assert!(!s.module_configs.mouse_utils.find_my_mouse);

    assert_eq!(s.module_configs.light_switch.schedule_mode, "off");
    assert_eq!(s.module_configs.light_switch.dark_mode_time, "20:00");
    let e = s.update(Message::SetLightSwitchSchedule("fixed".into()), 0, &tx);
    assert!(matches!(&e, Effect::SaveModule(id) if id == "light-switch"));
    assert_eq!(s.module_configs.light_switch.schedule_mode, "fixed");
    let e = s.update(Message::SetLightSwitchSunriseOffset("-15".into()), 0, &tx);
    assert!(matches!(&e, Effect::SaveModule(id) if id == "light-switch"));
    assert_eq!(s.module_configs.light_switch.sunrise_offset_min, -15);
    let e = s.update(Message::SetLightSwitchSunsetOffset("soon".into()), 0, &tx);
    assert!(matches!(e, Effect::Nothing));
    assert_eq!(s.module_configs.light_switch.sunset_offset_min, 0);
    s.update(Message::SetLightSwitchSunsetOffset("+30".into()), 0, &tx);
    assert_eq!(s.module_configs.light_switch.sunset_offset_min, 30);
    s.update(Message::SetLightSwitchLatitude(Some(48_856_600)), 0, &tx);
    assert_eq!(s.module_configs.light_switch.latitude_micro, 48_856_600);
    let e = s.update(Message::SetLightSwitchLongitude(None), 0, &tx);
    assert!(matches!(e, Effect::Nothing));
    assert_eq!(s.module_configs.light_switch.longitude_micro, 0);
    s.update(Message::SetLightSwitchLightTime("07:30".into()), 0, &tx);
    assert_eq!(s.module_configs.light_switch.light_mode_time, "07:30");
    s.update(Message::ToggleLightSwitchApps(false), 0, &tx);
    assert!(!s.module_configs.light_switch.apply_apps);
    assert!(s.module_configs.light_switch.apply_system);
}

#[test]
fn demo_dialog_walks_its_phases() {
    let mut s = window();
    let tx = texts();
    s.update(Message::OpenDemoDialog, 0, &tx);
    assert!(s.demo_dialog_open);
    let e = s.update(Message::DemoDialogConfirm, 0, &tx);
    assert!(matches!(e, Effect::After(3000, Delayed::DemoDialogConfirm)));
    assert_eq!(s.demo_dialog_phase, DemoDialogPhase::Updating);
    let e = s.update(Message::DemoDialogConfirm, 0, &tx);
    assert!(matches!(e, Effect::After(2000, Delayed::CloseDemoDialog)));
    assert_eq!(s.demo_dialog_phase, DemoDialogPhase::Restarting);
    s.update(Message::DemoDialogConfirm, 0, &tx);
    assert!(!s.demo_dialog_open);
}

#[test]
fn toast_notification_times() {
    let t = ToastNotification::new(ToastKind::Success, "a", "b", 4000, 10);
    assert_eq!((t.created_ms, t.expires_ms), (10, 4010));
}

#[test]
fn visual_theme_text_round_trip() {
    for t in [
        VisualTheme::Default,
        VisualTheme::Color(5),
        VisualTheme::Gradient(0),
        VisualTheme::BuiltinImage(10),
        VisualTheme::CustomImage("/a b/c.png".into()),
    ] {
        let text = serialize_visual_theme(&t);
        assert_eq!(serialize_visual_theme(&parse_visual_theme(&text)), text);
    }
    assert!(matches!(parse_visual_theme("color:6"), VisualTheme::Default));
    assert!(matches!(parse_visual_theme("gradient:3"), VisualTheme::Gradient(3)));
    assert!(matches!(parse_visual_theme(""), VisualTheme::Default));
    assert!(!VisualTheme::Default.is_glass());
    assert!(VisualTheme::Color(0).is_glass());
}

#[test]
fn module_config_defaults_and_os_release() {
    assert_eq!(default_formats().len(), 5);
    assert_eq!(unquote("\"Ubuntu 24.04\""), "Ubuntu 24.04");
    assert_eq!(unquote("plain"), "plain");
    assert_eq!(distro_name("NAME=\"Fedora Linux\"\nPRETTY_NAME=\"Fedora Linux 40\"\n"), "Fedora Linux");
    assert_eq!(distro_name("ID=x\nPRETTY_NAME=\"Arch Linux\"\n"), "Arch Linux");
    assert_eq!(distro_name("ID=x\n"), "Linux");
    assert_eq!(package_manager_from_os_release("id=arch\n"), Some(PackageManager::Pacman));
    assert_eq!(package_manager_from_os_release("NAME=Ubuntu\nID=Ubuntu\n"), Some(PackageManager::Apt));
    assert_eq!(package_manager_from_os_release("ID=gentoo\n"), None);
    assert_eq!(package_manager_from_commands(false, false, true, false), PackageManager::Dnf);
    assert_eq!(package_manager_from_commands(false, false, false, false), PackageManager::Unknown);
}

#[test]
fn display_server_names() {
    assert_eq!(display_server_label(DisplayServer::Wayland), "Wayland");
    assert_eq!(display_server_label(DisplayServer::X11), "X11");
    assert_eq!(display_server_label(DisplayServer::Unknown), "Unknown");
}
