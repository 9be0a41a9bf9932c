use mpt_core::hosts::HostsFile;
use mpt_core::hosts_app::{
    chrono_timestamp, EditorStatus, HostsEditor, HostsEditorApp, HostsEditorConfig, Placement, SaveOutcome,
};

const FILE: &str = "127.0.0.1\tlocalhost\n# 10.0.0.5\tOld.Box # retired\n192.168.1.10\tnas media # Storage\n";

fn app() -> HostsEditorApp {
    HostsEditorApp::new(HostsEditorConfig::default_config(), HostsFile::parse_str(FILE))
}

#[test]
fn filter_matches_any_field_ignoring_case() {
    let mut a = app();
    assert_eq!(a.filtered_indices(), vec![0, 1, 2]);
    a.filter = "OLD".into();
    assert_eq!(a.filtered_indices(), vec![1]);
    a.filter = "storage".into();
    assert_eq!(a.filtered_indices(), vec![2]);
    a.filter = "192.168".into();
    assert_eq!(a.filtered_indices(), vec![2]);
    a.filter = "zzz".into();
    assert!(a.filtered_indices().is_empty());
    a.filter = String::new();
    a.config.show_disabled = false;
    assert_eq!(a.filtered_indices(), vec![0, 2]);
}

#[test]
fn form_adds_and_edits_entries() {
    let mut a = app();
    a.open_add_form();
    assert!(a.form_open);
    a.validate_and_apply_form();
    assert_eq!(a.form_error.as_deref(), Some("IP address is required"));
    a.form_ip = " 10.1.1.1 ".into();
    a.validate_and_apply_form();
    assert_eq!(a.form_error.as_deref(), Some("At least one hostname is required"));
    a.form_hostnames = "a.local  b.local".into();
    a.form_comment = "  ".into();
    a.validate_and_apply_form();
    assert!(!a.form_open);
    assert!(a.unsaved_changes);
    let entries = a.hosts.entries();
    let last = entries.last().unwrap();
    assert_eq!(last.ip, "10.1.1.1");
    assert_eq!(last.hostnames, vec!["a.local".to_string(), "b.local".to_string()]);
    assert!(last.comment.is_none());

    let mut a = app();
    a.open_edit_form(1);
    assert_eq!(a.editing, Some(1));
    assert_eq!(a.form_ip, "10.0.0.5");
    assert_eq!(a.form_hostnames, "Old.Box");
    assert_eq!(a.form_comment, "retired");
    assert!(!a.form_enabled);
    a.form_enabled = true;
    a.form_hostnames = "new.box".into();
    a.validate_and_apply_form();
    let entries = a.hosts.entries();
    assert_eq!(entries[1].hostnames, vec!["new.box".to_string()]);
    assert!(entries[1].enabled);
    assert_eq!(entries[1].comment.as_deref(), Some("retired"));

    let mut a = app();
    a.open_edit_form(7);
    assert!(!a.form_open);
    assert!(a.editing.is_none());
}

#[test]
fn new_entries_go_on_top_when_configured() {
    let mut cfg = HostsEditorConfig::default_config();
    cfg.new_entry_placement = Placement::Top;
    let mut a = HostsEditorApp::new(cfg, HostsFile::parse_str(FILE));
    a.open_add_form();
    a.form_ip = "1.2.3.4".into();
    a.form_hostnames = "top".into();
    a.validate_and_apply_form();
    assert_eq!(a.hosts.entries()[0].ip, "1.2.3.4");
}

#[test]
fn editing_a_removed_entry_reports_it() {
    let mut a = app();
    a.open_edit_form(2);
    a.delete_at(2);
    a.validate_and_apply_form();
    assert_eq!(a.form_error.as_deref(), Some("Failed to update: entry index 2 out of range (have 2 entries)"));
    assert!(a.form_open);
}

#[test]
fn toggle_delete_and_footer() {
    let mut a = app();
    assert_eq!(a.footer_counts(), (3, 2, 1));
    assert_eq!(a.footer_text(), "3 entries (2 active, 1 disabled)");
    assert_eq!(a.save_label(), "Save File");
    a.toggle_at(1);
    assert_eq!(a.footer_counts(), (3, 3, 0));
    assert_eq!(a.save_label(), "Save File *");
    a.request_delete(0);
    assert_eq!(a.confirm_delete, Some(0));
    a.cancel_delete();
    assert_eq!(a.confirm_delete, None);
    a.request_delete(0);
    a.delete_at(0);
    assert_eq!(a.confirm_delete, None);
    assert_eq!(a.footer_text(), "2 entries (2 active, 0 disabled)");
    a.toggle_at(9);
    assert_eq!(a.hosts.entries().len(), 2);
    a.count_frame();
    assert_eq!(a.frame_count, 1);
}

#[test]
fn saving_plan_and_outcomes() {
    let mut a = app();
    let (text, backup) = a.save_plan(0);
    assert_eq!(text, a.hosts.serialize());
    assert_eq!(backup.as_deref(), Some("/tmp/hosts.mpt-backup-19700101000000"));
    a.config.backup_before_save = false;
    assert!(a.save_plan(0).1.is_none());
    a.unsaved_changes = true;
    a.save_finished(SaveOutcome::PkexecExited(-1));
    assert!(a.unsaved_changes);
    assert_eq!(a.status_text().as_deref(), Some("Error: pkexec exited with code -1"));
    a.save_finished(SaveOutcome::WriteFailed("disk".into()));
    assert_eq!(a.status_text().as_deref(), Some("Error: Save failed: disk"));
    a.save_finished(SaveOutcome::TempWriteFailed("tmp".into()));
    assert_eq!(a.status_text().as_deref(), Some("Error: Failed to write temp file: tmp"));
    a.save_finished(SaveOutcome::PkexecFailed("none".into()));
    assert_eq!(a.status_text().as_deref(), Some("Error: pkexec failed: none"));
    a.save_finished(SaveOutcome::Saved);
    assert!(!a.unsaved_changes);
    assert!(matches!(a.status, EditorStatus::Saved));
    assert_eq!(a.status_text().as_deref(), Some("Saved!"));
}

#[test]
fn backup_timestamps() {
    assert_eq!(chrono_timestamp(0), "19700101000000");
    assert_eq!(chrono_timestamp(86400 * 400 + 3661), "19710206010101");
    assert_eq!(chrono_timestamp(86400 * 29 + 59), "19700130000059");
    assert_eq!(chrono_timestamp(86400 * 30), "19700201000000");
}

#[test]
fn hosts_editor_lifecycle() {
    let mut h = HostsEditor::new(HostsEditorConfig::default_config());
    assert!(!h.is_running());
    let mut cfg = HostsEditorConfig::default_config();
    cfg.show_disabled = false;
    h.start(cfg);
    assert!(h.is_running());
    h.stop();
    assert!(!h.is_running());
}

#[test]
fn refused_form_keeps_the_selection_and_fields() {
    let mut a = app();
    a.open_edit_form(2);
    a.form_ip = "   ".into();
    a.validate_and_apply_form();
    assert_eq!(a.form_error.as_deref(), Some("IP address is required"));
    assert_eq!(a.editing, Some(2));
    assert_eq!(a.form_ip, "   ");
    assert_eq!(a.form_hostnames, "nas media");
    assert_eq!(a.form_comment, "Storage");
    assert!(a.form_open);
    a.form_ip = "192.168.1.11".into();
    a.validate_and_apply_form();
    let entries = a.hosts.entries();
    assert_eq!(entries.len(), 3);
    assert_eq!(entries[2].ip, "192.168.1.11");
}
