use mpt_core::peek::{
    clipboard_decodable, detect_kind, dimensions_from_file_output, dimensions_from_identify, metadata_line, navigate_index, position_label, directory_listing, extension, file_name,
    format_size, parse_file_uris, text_preview, url_decode, url_decode_panics, FileKind, Peek, PeekConfig,
};

#[test]
fn parse_uri_list() {
    let input = "file:///home/user/test.txt\nfile:///home/user/image.png\n";
    let paths: Vec<String> = parse_file_uris(input)
        .into_iter()
        .filter(|p| std::path::Path::new(p).exists())
        .collect();
    // Paths won't exist in test env, so we test the parsing logic differently
    assert_eq!(paths.len(), 0); // files don't exist

    // Test parsing without existence check
    let decoded = url_decode("/home/user/test%20file.txt");
    assert_eq!(decoded, "/home/user/test file.txt");
}

#[test]
fn parse_gnome_copied_files() {
    let input = "copy\nfile:///tmp/test.txt\n";
    // The "copy" line should be skipped
    let paths: Vec<String> = parse_file_uris(input)
        .into_iter()
        .filter(|p| std::path::Path::new(p).exists())
        .collect();
    // /tmp/test.txt likely doesn't exist, but the parsing should handle it
    assert!(paths.is_empty() || std::path::Path::new(&paths[0]) == std::path::Path::new("/tmp/test.txt"));
}

#[test]
fn url_decode_special_chars() {
    assert_eq!(url_decode("hello%20world"), "hello world");
    assert_eq!(url_decode("file%2Fname"), "file/name");
    assert_eq!(url_decode("no%encoding"), "no%encoding"); // invalid % sequence
}

#[test]
fn detect_text_files() {
    assert_eq!(detect_kind("file.rs", false), FileKind::Text);
    assert_eq!(detect_kind("README.md", false), FileKind::Text);
    assert_eq!(detect_kind("config.toml", false), FileKind::Text);
    assert_eq!(detect_kind("script.py", false), FileKind::Text);
}

#[test]
fn detect_image_files() {
    assert_eq!(detect_kind("photo.png", false), FileKind::Image);
    assert_eq!(detect_kind("photo.jpg", false), FileKind::Image);
    assert_eq!(detect_kind("icon.svg", false), FileKind::Image);
}

#[test]
fn detect_media_files() {
    assert_eq!(detect_kind("song.mp3", false), FileKind::Audio);
    assert_eq!(detect_kind("video.mp4", false), FileKind::Video);
    assert_eq!(detect_kind("movie.mkv", false), FileKind::Video);
}

#[test]
fn detect_pdf() {
    assert_eq!(detect_kind("doc.pdf", false), FileKind::Pdf);
}

#[test]
fn detect_unknown() {
    assert_eq!(detect_kind("data.xyz", false), FileKind::Unknown);
    assert_eq!(detect_kind("binary.bin", false), FileKind::Unknown);
}

#[test]
fn format_size_bytes() {
    assert_eq!(format_size(500), "500 B");
    assert_eq!(format_size(1024), "1.0 KB");
    assert_eq!(format_size(1_500_000), "1.4 MB");
    assert_eq!(format_size(2_500_000_000), "2.3 GB");
}

#[test]
fn file_kind_display() {
    assert_eq!(FileKind::Text.to_string(), "Text");
    assert_eq!(FileKind::Image.to_string(), "Image");
    assert_eq!(FileKind::Pdf.to_string(), "PDF");
}

#[test]
fn detect_kind_edges() {
    assert_eq!(detect_kind("PHOTO.PNG", false), FileKind::Image);
    assert_eq!(detect_kind("/tmp/some.dir.txt", true), FileKind::Directory);
    assert_eq!(detect_kind(".bashrc", false), FileKind::Unknown);
    assert_eq!(detect_kind("Makefile", false), FileKind::Unknown);
    assert_eq!(detect_kind("build.makefile", false), FileKind::Text);
    assert_eq!(detect_kind("archive.tar.gz", false), FileKind::Unknown);
    assert_eq!(detect_kind("/home/user/track.FLAC", false), FileKind::Audio);
}

#[test]
fn file_names_and_extensions() {
    assert_eq!(file_name("/home/user/a.txt"), Some("a.txt".to_string()));
    assert_eq!(file_name("/"), None);
    assert_eq!(extension("a.b.c"), Some("c".to_string()));
    assert_eq!(extension(".hidden"), None);
    assert_eq!(extension("noext"), None);
}

#[test]
fn format_size_edges() {
    assert_eq!(format_size(0), "0 B");
    assert_eq!(format_size(1023), "1023 B");
    assert_eq!(format_size(1536), "1.5 KB");
    assert_eq!(format_size(1_048_575), "1024.0 KB");
    assert_eq!(format_size(1_048_576), "1.0 MB");
    assert_eq!(format_size(u64::MAX), format!("{:.1} GB", u64::MAX as f64 / 1073741824.0));
}

#[test]
fn format_size_matches_float_formatting() {
    for bytes in [1025u64, 1075, 1126, 5_000_000, 123_456_789, 9_999_999_999, 1u64 << 53, (1u64 << 53) + 1] {
        let expected = if bytes >= 1 << 30 {
            format!("{:.1} GB", bytes as f64 / (1u64 << 30) as f64)
        } else if bytes >= 1 << 20 {
            format!("{:.1} MB", bytes as f64 / (1u64 << 20) as f64)
        } else {
            format!("{:.1} KB", bytes as f64 / 1024.0)
        };
        assert_eq!(format_size(bytes), expected, "bytes = {}", bytes);
    }
}

#[test]
fn text_preview_counts_remaining_lines() {
    assert_eq!(text_preview("a\nb\nc", 2), "a\nb\n... (1 more lines)");
    assert_eq!(text_preview("a\nb\n", 5), "a\nb");
    assert_eq!(text_preview("", 3), "");
}

#[test]
fn directory_listing_marks_kinds() {
    let entries = vec![("src".to_string(), true), ("a.txt".to_string(), false), ("b".to_string(), false)];
    assert_eq!(directory_listing(&entries, 2), "[dir] src\n[file] a.txt\n... (1 more entries)");
    assert_eq!(directory_listing(&entries, 3), "[dir] src\n[file] a.txt\n[file] b");
}

#[test]
fn identify_output_dimensions() {
    assert_eq!(dimensions_from_identify("640 480"), Some((640, 480)));
    assert_eq!(dimensions_from_identify("  1920   1080 extra"), Some((1920, 1080)));
    assert_eq!(dimensions_from_identify("abc 1"), None);
    assert_eq!(dimensions_from_identify("12"), None);
}

#[test]
fn clipboard_paths_are_decoded_candidates() {
    let clip = "# comment\nfile:///a%20b\ncut\nhttp://x\n  file:///tmp/c%C3%A9.txt  \n";
    assert!(clipboard_decodable(clip));
    assert_eq!(parse_file_uris(clip), vec!["/a b".to_string(), "/tmp/cé.txt".to_string()]);
    assert_eq!(parse_file_uris("copy\nfile:///tmp/test.txt\n"), vec!["/tmp/test.txt".to_string()]);
}

#[test]
fn url_decode_edges() {
    assert_eq!(url_decode("%41%42"), "AB");
    assert_eq!(url_decode("%+9"), "\t");
    assert_eq!(url_decode("end%2"), "end%2");
    assert_eq!(url_decode("%ff"), "\u{FFFD}");
    assert!(!url_decode_panics("%C3%A9"));
    assert!(url_decode_panics("%aé"));
    assert!(!clipboard_decodable("file:///x%aé"));
}

#[test]
fn peek_defaults_and_lifecycle() {
    let cfg = PeekConfig::default_config();
    assert_eq!(cfg.max_preview_lines, 50);
    assert_eq!(cfg.max_dir_entries, 20);
    let mut p = Peek::new(cfg);
    assert!(!p.is_running());
    p.start();
    assert!(p.is_running());
    p.stop();
    assert!(!p.is_running());
    assert_eq!(p.config().max_preview_lines, 50);
}

#[test]
fn file_output_dimensions() {
    assert_eq!(
        dimensions_from_file_output("PNG image data, 640 x 480, 8-bit/color RGBA, non-interlaced"),
        Some((640, 480))
    );
    assert_eq!(
        dimensions_from_file_output(
            "JPEG image data, JFIF standard 1.01, density 72x72, segment length 16, baseline, 1920x1080, components 3"
        ),
        Some((1920, 1080))
    );
    assert_eq!(dimensions_from_file_output("GIF image data, version 89a, 0 x 10"), None);
    assert_eq!(dimensions_from_file_output("data, 100000x5"), None);
    assert_eq!(dimensions_from_file_output("x"), None);
    assert_eq!(dimensions_from_file_output(""), None);
    assert_eq!(dimensions_from_file_output("a,, 3 x 4"), Some((3, 4)));
}

#[test]
fn navigation_wraps_around() {
    assert_eq!(navigate_index(0, -1, 5), 4);
    assert_eq!(navigate_index(4, 1, 5), 0);
    assert_eq!(navigate_index(2, 1, 5), 3);
    assert_eq!(navigate_index(0, -11, 5), 4);
    assert_eq!(navigate_index(0, 0, 1), 0);
}

#[test]
fn metadata_and_position_lines() {
    assert_eq!(
        metadata_line(2048, FileKind::Image, &Some("image/png".to_string()), Some((640, 480)), &None),
        "2.0 KB  \u{2022}  Image  \u{2022}  image/png  \u{2022}  640\u{00D7}480"
    );
    assert_eq!(metadata_line(10, FileKind::Audio, &None, None, &Some("3:05".to_string())), "10 B  \u{2022}  Audio  \u{2022}  3:05");
    assert_eq!(position_label(0, 3), "1/3");
    assert_eq!(navigate_index(navigate_index(4, 1, 5), -1, 5), 4);
    assert_eq!(navigate_index(navigate_index(0, -1, 5), 1, 5), 0);
}

#[test]
fn url_decode_multibyte() {
    assert_eq!(url_decode("caf%C3%A9"), "café");
    assert_eq!(url_decode("%FF"), "\u{FFFD}");
}
