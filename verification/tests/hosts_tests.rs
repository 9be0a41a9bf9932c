use mpt_core::hosts::{HostsError, HostsFile, HostsLine};

const SAMPLE: &str = "\
# /etc/hosts
127.0.0.1\tlocalhost
127.0.1.1\tmy-machine
# ::1\tlocalhost ip6-localhost
192.168.1.100\tdevserver # dev box

# The following lines are for IPv6
::1\tip6-localhost ip6-loopback
";

#[test]
fn parse_hosts_file() {
    let hosts = HostsFile::parse_str(SAMPLE);
    let entries = hosts.entries();
    assert_eq!(entries.len(), 5);
    assert!(entries[0].enabled); // 127.0.0.1 localhost
    assert!(entries[1].enabled); // 127.0.1.1 my-machine
    assert!(!entries[2].enabled); // # ::1 localhost (disabled)
    assert!(entries[3].enabled); // 192.168.1.100 devserver
    assert!(entries[4].enabled); // ::1 ip6-localhost
}

#[test]
fn toggle_entry() {
    let mut hosts = HostsFile::parse_str(SAMPLE);
    assert!(hosts.entries()[0].enabled);
    hosts.toggle_entry(0).unwrap();
    assert!(!hosts.entries()[0].enabled);
    hosts.toggle_entry(0).unwrap();
    assert!(hosts.entries()[0].enabled);
}

#[test]
fn add_and_remove() {
    let mut hosts = HostsFile::parse_str("");
    hosts.add_entry("10.0.0.1".to_string(), vec!["test.local".to_string()], None);
    assert_eq!(hosts.entries().len(), 1);
    hosts.remove_entry(0).unwrap();
    assert_eq!(hosts.entries().len(), 0);
}

#[test]
fn roundtrip_preserves_comments() {
    let hosts = HostsFile::parse_str(SAMPLE);
    let output = hosts.to_string();
    assert!(output.contains("# /etc/hosts"));
    assert!(output.contains("# The following lines are for IPv6"));
}

#[test]
fn inline_comment_preserved() {
    let hosts = HostsFile::parse_str("192.168.1.100\tdevserver # dev box");
    let entries = hosts.entries();
    let entry = &entries[0];
    assert_eq!(entry.comment.as_deref(), Some("dev box"));
}

#[test]
fn parse_classifies_lines() {
    let hosts = HostsFile::parse_str(SAMPLE);
    assert_eq!(hosts.lines.len(), 8);
    assert!(matches!(hosts.lines[0], HostsLine::Comment(_)));
    assert!(matches!(hosts.lines[5], HostsLine::Blank));
    assert!(matches!(hosts.lines[6], HostsLine::Comment(_)));
    let entries = hosts.entries();
    assert_eq!(entries[2].ip, "::1");
    assert_eq!(entries[2].hostnames, vec!["localhost".to_string(), "ip6-localhost".to_string()]);
    assert_eq!(entries[4].hostnames, vec!["ip6-localhost".to_string(), "ip6-loopback".to_string()]);
}

#[test]
fn single_word_line_is_a_comment() {
    let hosts = HostsFile::parse_str("localhost\n   \n#just a note");
    assert_eq!(hosts.lines.len(), 3);
    assert!(matches!(hosts.lines[0], HostsLine::Comment(_)));
    assert!(matches!(hosts.lines[1], HostsLine::Blank));
    assert!(matches!(hosts.lines[2], HostsLine::Comment(_)));
    assert_eq!(hosts.entries().len(), 0);
}

#[test]
fn serialize_writes_disabled_and_comment() {
    let hosts = HostsFile::parse_str("#10.0.0.2 a b # note\n  1.2.3.4   x  ");
    assert_eq!(hosts.serialize(), "# 10.0.0.2\ta b # note\n1.2.3.4\tx");
}

#[test]
fn serialize_parse_round_trip() {
    let hosts = HostsFile::parse_str(SAMPLE);
    let again = HostsFile::parse_str(&hosts.serialize());
    assert_eq!(again.serialize(), hosts.serialize());
    assert_eq!(again.entries().len(), 5);
}

#[test]
fn toggle_out_of_range_is_refused() {
    let mut hosts = HostsFile::parse_str(SAMPLE);
    let before = hosts.serialize();
    let err = hosts.toggle_entry(5).unwrap_err();
    assert_eq!(err, HostsError::EntryOutOfRange { index: 5, count: 5 });
    assert_eq!(err.message(), "entry index 5 out of range (have 5 entries)");
    assert_eq!(hosts.serialize(), before);
}

#[test]
fn remove_out_of_range_is_refused() {
    let mut hosts = HostsFile::parse_str("");
    let err = hosts.remove_entry(0).unwrap_err();
    assert_eq!(err, HostsError::NoSuchEntry { index: 0 });
    assert_eq!(err.message(), "entry index 0 out of range");
}

#[test]
fn remove_counts_entries_only() {
    let mut hosts = HostsFile::parse_str(SAMPLE);
    hosts.remove_entry(1).unwrap();
    assert_eq!(hosts.lines.len(), 7);
    let entries = hosts.entries();
    assert_eq!(entries.len(), 4);
    assert_eq!(entries[1].ip, "::1");
}

#[test]
fn update_keeps_place_and_flag() {
    let mut hosts = HostsFile::parse_str(SAMPLE);
    hosts
        .update_entry(2, "10.1.1.1".to_string(), vec!["new.host".to_string()], Some("c".to_string()))
        .unwrap();
    let entries = hosts.entries();
    assert_eq!(entries[2].ip, "10.1.1.1");
    assert!(!entries[2].enabled);
    assert_eq!(entries[2].comment.as_deref(), Some("c"));
    assert!(hosts.update_entry(9, "x".to_string(), vec![], None).is_err());
}

#[test]
fn add_at_top_comes_first() {
    let mut hosts = HostsFile::parse_str(SAMPLE);
    hosts.add_entry_at_top("10.9.9.9".to_string(), vec!["top".to_string()], None);
    assert_eq!(hosts.entries()[0].ip, "10.9.9.9");
    assert!(hosts.serialize().starts_with("10.9.9.9\ttop\n# /etc/hosts"));
}

#[test]
fn round_trip_drops_one_final_blank_line() {
    let hosts = HostsFile::parse_str("127.0.0.1\tlocalhost\n\n\n");
    assert_eq!(hosts.lines.len(), 3);
    let again = HostsFile::parse_str(&hosts.serialize());
    assert_eq!(again.lines.len(), 2);
    assert!(matches!(again.lines[1], HostsLine::Blank));
    assert_eq!(again.entries().len(), 1);
    assert_eq!(again.entries()[0].ip, "127.0.0.1");
}
