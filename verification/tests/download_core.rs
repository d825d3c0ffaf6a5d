use streamkeep::download::{parse_media_playlist, DownloadProgress, DownloadStatus};

#[test]
fn percent_caps_completed_segments_at_total() {
    let progress = DownloadProgress {
        status: DownloadStatus::Downloading,
        completed_segments: 12,
        total_segments: Some(10),
        current_segment_index: None,
        current_segment_downloaded_bytes: None,
        current_segment_total_bytes: None,
        downloaded_bytes: 0,
        total_bytes: None,
        message: None,
    };

    assert_eq!(progress.percent(), Some(100));
}

#[test]
fn percent_prefers_bytes_when_available() {
    let progress = DownloadProgress {
        status: DownloadStatus::Downloading,
        completed_segments: 1,
        total_segments: Some(10),
        current_segment_index: None,
        current_segment_downloaded_bytes: None,
        current_segment_total_bytes: None,
        downloaded_bytes: 75,
        total_bytes: Some(100),
        message: None,
    };

    assert_eq!(progress.percent(), Some(75));
}

#[test]
fn parses_media_playlist_segments() {
    let playlist = r#"#EXTM3U
#EXT-X-TARGETDURATION:8
#EXTINF:8.0,
segment-1.ts
#EXTINF:7.5,
https://cdn.example.test/segment-2.ts
#EXT-X-ENDLIST
"#;

    let plan = parse_media_playlist(
        "https://media.example.test/path/prog_index.m3u8",
        playlist.as_bytes(),
    )
    .expect("media playlist should parse");

    assert_eq!(plan.segments.len(), 2);
    assert_eq!(
        plan.segments[0].url,
        "https://media.example.test/path/segment-1.ts"
    );
    assert_eq!(
        plan.segments[1].url,
        "https://cdn.example.test/segment-2.ts"
    );
    assert!(plan.end_list);
}
