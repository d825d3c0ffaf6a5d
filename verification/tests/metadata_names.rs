use streamkeep::metadata::{ensure_mp4_extension, sanitize_file_stem};

#[test]
fn sanitize_file_stem_replaces_invalid_path_characters() {
    assert_eq!(
        sanitize_file_stem("Episode: 1 / Intro?"),
        "Episode- 1 - Intro"
    );
}

#[test]
fn ensure_mp4_extension_adds_missing_extension() {
    assert_eq!(ensure_mp4_extension("Sample"), "Sample.mp4");
}

#[test]
fn stems_fall_back_when_nothing_is_left() {
    assert_eq!(sanitize_file_stem("  ..--  "), "streamkeep-video");
    assert_eq!(sanitize_file_stem(""), "streamkeep-video");
    assert_eq!(sanitize_file_stem("a\tb\u{1}c"), "a-b-c");
    assert_eq!(sanitize_file_stem("  a    b  "), "a b");
}

#[test]
fn sanitized_stems_are_fixed_points() {
    for input in ["Episode: 1 / Intro?", "  -x- ", "a..b", "\u{3000}wide\u{3000}space"] {
        let once = sanitize_file_stem(input);
        assert_eq!(sanitize_file_stem(&once), once);
    }
}

#[test]
fn mp4_extension_is_kept_in_any_ascii_case() {
    assert_eq!(ensure_mp4_extension("Clip.MP4"), "Clip.MP4");
    assert_eq!(ensure_mp4_extension("a/b"), "a-b.mp4");
    assert_eq!(ensure_mp4_extension(""), "streamkeep-video.mp4");
    let once = ensure_mp4_extension("x?");
    assert_eq!(ensure_mp4_extension(&once), once);
}
