use mpt_core::dependencies::{dependency_notes, dependency_packages, has_dependency_help, install_command};
use mpt_core::key_tests::{collect_test_keys, normalize_test_key, parse_hotkey_tokens};
use mpt_core::settings_types::PackageManager;

#[test]
fn dependency_help_and_packages() {
    assert!(has_dependency_help("text-extractor"));
    assert!(has_dependency_help("paste-plain"));
    assert!(!has_dependency_help("peek"));
    assert_eq!(
        dependency_packages("text-extractor", PackageManager::Apt).unwrap(),
        vec!["tesseract-ocr", "wl-clipboard", "xclip", "gnome-screenshot", "scrot"]
    );
    assert_eq!(dependency_packages("text-extractor", PackageManager::Pacman).unwrap()[0], "tesseract");
    assert_eq!(dependency_packages("paste-plain", PackageManager::Dnf).unwrap(), vec!["wl-clipboard", "xclip", "xdotool"]);
    assert!(dependency_packages("peek", PackageManager::Apt).is_none());
}

#[test]
fn dependency_notes_by_session() {
    assert_eq!(dependency_notes("paste-plain", false).len(), 2);
    let w = dependency_notes("paste-plain", true);
    assert_eq!(w.len(), 3);
    assert!(w[2].starts_with("Sous Wayland"));
    assert_eq!(dependency_notes("text-extractor", true).len(), 2);
    assert!(dependency_notes("peek", true).is_empty());
}

#[test]
fn install_commands() {
    let p = vec!["a".to_string(), "b".to_string()];
    assert_eq!(install_command(PackageManager::Pacman, &p), "sudo pacman -S --needed a b");
    assert_eq!(install_command(PackageManager::Apt, &p), "sudo apt install a b");
    assert_eq!(install_command(PackageManager::Zypper, &p), "sudo zypper install a b");
    assert_eq!(install_command(PackageManager::Unknown, &p), "install: a b");
    assert_eq!(install_command(PackageManager::Dnf, &vec![]), "sudo dnf install ");
}

#[test]
fn test_key_names() {
    assert_eq!(normalize_test_key(" ctrl "), "Ctrl");
    assert_eq!(normalize_test_key("Control"), "Ctrl");
    assert_eq!(normalize_test_key("META"), "Super");
    assert_eq!(normalize_test_key("win"), "Super");
    assert_eq!(normalize_test_key("a"), "A");
    assert_eq!(normalize_test_key("."), ".");
    assert_eq!(normalize_test_key("é"), "é");
    assert_eq!(normalize_test_key("F12"), "F12");
    assert_eq!(normalize_test_key("  "), "");
}

#[test]
fn shortcut_tokens() {
    assert_eq!(parse_hotkey_tokens("Super+Shift+H"), vec!["Super", "Shift", "H"]);
    assert_eq!(parse_hotkey_tokens("Hold Super"), vec!["Super"]);
    assert_eq!(parse_hotkey_tokens("hold   alt "), vec!["Alt"]);
    assert_eq!(parse_hotkey_tokens("ctrl + control"), vec!["Ctrl"]);
    assert_eq!(parse_hotkey_tokens("Ctrl++"), vec!["Ctrl"]);
    assert!(parse_hotkey_tokens("   ").is_empty());
}

fn rank(k: &str) -> u8 {
    match k {
        "Super" => 0,
        "Ctrl" => 1,
        "Alt" => 2,
        "Shift" => 3,
        _ => 10,
    }
}

#[test]
fn keys_under_test_in_order() {
    let hotkeys = vec![
        Some("Super+Shift+H".to_string()),
        None,
        Some("Ctrl+Alt+T".to_string()),
        Some("Hold Super".to_string()),
        Some("Super+Space".to_string()),
        Some("Ctrl+F1".to_string()),
        Some("Ctrl+f1".to_string()),
    ];
    let keys = collect_test_keys(&hotkeys);
    assert_eq!(keys, vec!["Super", "Ctrl", "Alt", "Shift", "F1", "f1", "H", "Space", "T"]);
    let mut expected = keys.clone();
    expected.sort_by(|a, b| (rank(a), a.to_lowercase()).cmp(&(rank(b), b.to_lowercase())));
    assert_eq!(keys, expected);
    assert!(collect_test_keys(&vec![None, None]).is_empty());
}
