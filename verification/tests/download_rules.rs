use streamkeep::download::{
    headers_for_request, parse_media_playlist, DownloadError, DownloadProgress, DownloadRequest,
    DownloadStatus, RequestHeader,
};
use streamkeep::hls::HlsError;

const MEDIA: &str = "https://media.example.test/path/prog_index.m3u8";

fn progress() -> DownloadProgress {
    DownloadProgress::queued()
}

#[test]
fn queued_reports_nothing() {
    let p = progress();
    assert_eq!(p.status, DownloadStatus::Queued);
    assert_eq!(p.completed_segments, 0);
    assert_eq!(p.total_segments, None);
    assert_eq!(p.downloaded_bytes, 0);
    assert_eq!(p.message, None);
    assert_eq!(p.percent(), None);
}

#[test]
fn with_message_keeps_the_counts() {
    let mut p = progress();
    p.completed_segments = 3;
    p.downloaded_bytes = 9;
    let q = p.with_message("hello");
    assert_eq!(q.message.as_deref(), Some("hello"));
    assert_eq!(q.completed_segments, 3);
    assert_eq!(q.downloaded_bytes, 9);
}

#[test]
fn percent_of_bytes_is_capped_at_total() {
    let mut p = progress();
    p.downloaded_bytes = 250;
    p.total_bytes = Some(200);
    assert_eq!(p.percent(), Some(100));
    p.downloaded_bytes = 1;
    p.total_bytes = Some(3);
    assert_eq!(p.percent(), Some(33));
}

#[test]
fn percent_counts_the_current_segment_share() {
    let mut p = progress();
    p.total_segments = Some(4);
    p.completed_segments = 3;
    p.current_segment_downloaded_bytes = Some(50);
    p.current_segment_total_bytes = Some(100);
    assert_eq!(p.percent(), Some(87));
    p.current_segment_total_bytes = None;
    assert_eq!(p.percent(), Some(75));
}

#[test]
fn percent_with_zero_total_bytes_falls_back_to_segments() {
    let mut p = progress();
    p.total_bytes = Some(0);
    p.total_segments = Some(0);
    assert_eq!(p.percent(), Some(0));
    p.total_segments = Some(2);
    p.completed_segments = 1;
    assert_eq!(p.percent(), Some(50));
}

#[test]
fn media_plan_numbers_segments_and_keeps_durations() {
    let body = "#EXTM3U\n#EXT-X-TARGETDURATION:6\n#EXTINF:6.0,\na.ts\n#EXTINF:4.5,\nsub/b.ts\n";
    let plan = parse_media_playlist(MEDIA, body.as_bytes()).expect("media playlist");
    assert_eq!(plan.media_playlist_url, MEDIA);
    assert_eq!(plan.target_duration_seconds, 6);
    assert!(!plan.end_list);
    assert_eq!(plan.segments.len(), 2);
    assert_eq!(plan.segments[0].index, 0);
    assert_eq!(plan.segments[1].index, 1);
    assert_eq!(plan.segments[0].duration_bits, 6.0f32.to_bits());
    assert_eq!(plan.segments[1].duration_bits, 4.5f32.to_bits());
    assert_eq!(plan.segments[1].url, "https://media.example.test/path/sub/b.ts");
}

#[test]
fn unencrypted_key_is_accepted() {
    let body = "#EXTM3U\n#EXT-X-TARGETDURATION:6\n#EXT-X-KEY:METHOD=NONE,IV=0x1\n#EXTINF:6.0,\na.ts\n";
    let plan = parse_media_playlist(MEDIA, body.as_bytes()).expect("media playlist");
    assert_eq!(plan.segments.len(), 1);
}

#[test]
fn media_plan_rejects_relative_playlist_url() {
    let error = parse_media_playlist("prog_index.m3u8", "#EXTM3U\n".as_bytes()).expect_err("bad url");
    match error {
        DownloadError::InvalidMediaPlaylistUrl { value, .. } => assert_eq!(value, "prog_index.m3u8"),
        other => panic!("unexpected error {other:?}"),
    }
}

#[test]
fn media_plan_rejects_text_that_is_no_playlist() {
    let error = parse_media_playlist(MEDIA, "hello".as_bytes()).expect_err("not m3u8");
    assert!(matches!(error, DownloadError::InvalidMediaPlaylist { .. }));
}

#[test]
fn media_plan_rejects_master_playlist() {
    let body = "#EXTM3U\n#EXT-X-STREAM-INF:BANDWIDTH=1\nv.m3u8\n";
    let error = parse_media_playlist(MEDIA, body.as_bytes()).expect_err("master");
    assert!(matches!(error, DownloadError::ExpectedMediaPlaylist));
}

#[test]
fn media_plan_rejects_playlist_without_segments() {
    let body = "#EXTM3U\n#EXT-X-TARGETDURATION:6\n#EXT-X-ENDLIST\n";
    let error = parse_media_playlist(MEDIA, body.as_bytes()).expect_err("empty");
    assert!(matches!(error, DownloadError::EmptyMediaPlaylist));
}

fn unsupported_reason(body: &str) -> String {
    match parse_media_playlist(MEDIA, body.as_bytes()).expect_err("unsupported") {
        DownloadError::UnsupportedMediaPlaylist { reason } => reason,
        other => panic!("unexpected error {other:?}"),
    }
}

#[test]
fn media_plan_rejects_map_byte_range_and_encryption() {
    assert_eq!(
        unsupported_reason(
            "#EXTM3U\n#EXT-X-TARGETDURATION:6\n#EXT-X-MAP:URI=\"init.mp4\"\n#EXTINF:6.0,\na.m4s\n"
        ),
        "fMP4 EXT-X-MAP segments need the MP4 remux path"
    );
    assert_eq!(
        unsupported_reason(
            "#EXTM3U\n#EXT-X-TARGETDURATION:6\n#EXTINF:6.0,\n#EXT-X-BYTERANGE:1000@0\na.ts\n"
        ),
        "byte-range segments are not supported in the MVP"
    );
    assert_eq!(
        unsupported_reason(
            "#EXTM3U\n#EXT-X-TARGETDURATION:6\n#EXT-X-KEY:METHOD=AES-128,URI=\"k.bin\"\n#EXTINF:6.0,\na.ts\n"
        ),
        "encrypted HLS segments are not supported in the MVP"
    );
}

#[test]
fn media_plan_rejects_unresolvable_segment_url() {
    let body = "#EXTM3U\n#EXT-X-TARGETDURATION:6\n#EXTINF:6.0,\nhttp://[::1\n";
    match parse_media_playlist(MEDIA, body.as_bytes()).expect_err("bad segment url") {
        DownloadError::InvalidSegmentUrl { base_url, value, .. } => {
            assert_eq!(base_url, MEDIA);
            assert_eq!(value, "http://[::1");
        }
        other => panic!("unexpected error {other:?}"),
    }
}

fn request() -> DownloadRequest {
    DownloadRequest {
        master_url: "https://media.example.test/show/master.m3u8".to_string(),
        media_playlist_url: None,
        referer: None,
        user_agent: None,
        cookies: None,
        output_name: "Show.mp4".to_string(),
    }
}

#[test]
fn headers_are_trimmed_ordered_and_blank_ones_skipped() {
    let mut r = request();
    r.cookies = Some("  a=1; b=2 ".to_string());
    r.referer = Some("   ".to_string());
    r.user_agent = Some("\tAgent/1.0\n".to_string());
    let headers = headers_for_request(&r).expect("valid headers");
    assert_eq!(headers.len(), 2);
    assert_eq!(headers[0].header, RequestHeader::UserAgent);
    assert_eq!(headers[0].value, "Agent/1.0");
    assert_eq!(headers[1].header, RequestHeader::Cookie);
    assert_eq!(headers[1].value, "a=1; b=2");
    assert!(headers_for_request(&request()).expect("no headers").is_empty());
}

#[test]
fn invalid_header_value_names_the_header() {
    let mut r = request();
    r.referer = Some("https://a.test/\u{7f}".to_string());
    r.cookies = Some("x\ny".to_string());
    match headers_for_request(&r).expect_err("invalid referer") {
        DownloadError::InvalidHeader { name, .. } => assert_eq!(name, "referer"),
        other => panic!("unexpected error {other:?}"),
    }
    r.referer = None;
    match headers_for_request(&r).expect_err("invalid cookie") {
        DownloadError::InvalidHeader { name, .. } => assert_eq!(name, "cookie"),
        other => panic!("unexpected error {other:?}"),
    }
}

fn float_percent(p: &DownloadProgress) -> Option<u8> {
    if let Some(total_bytes) = p.total_bytes {
        if total_bytes > 0 {
            return Some(((p.downloaded_bytes.min(total_bytes) * 100) / total_bytes) as u8);
        }
    }
    let total_segments = p.total_segments?;
    if total_segments == 0 {
        return Some(0);
    }
    let share = match (p.current_segment_downloaded_bytes, p.current_segment_total_bytes) {
        (Some(downloaded), Some(total)) if total > 0 => downloaded.min(total) as f64 / total as f64,
        _ => 0.0,
    };
    let completed = p.completed_segments.min(total_segments) as f64;
    Some((((completed + share) * 100.0) / total_segments as f64) as u8)
}

#[test]
fn percent_rounds_as_floating_point_does() {
    // 29 / 100 of a single segment is 28.999999999999996 in f64.
    let mut p = progress();
    p.total_segments = Some(1);
    p.current_segment_downloaded_bytes = Some(29);
    p.current_segment_total_bytes = Some(100);
    assert_eq!(p.percent(), Some(28));
    assert_eq!(p.percent(), float_percent(&p));
}

#[test]
fn percent_matches_floating_point_on_a_grid() {
    let totals: [u64; 9] = [1, 3, 7, 100, 1000, 4096, 999_983, 1 << 40, u64::MAX];
    for segments in [1u32, 2, 3, 7, 10, 33, 97, 1000, u32::MAX] {
        for completed in [0u32, 1, 2, 5, 9, 32, 96, 999, u32::MAX - 1] {
            for total in totals {
                for downloaded in [0u64, 1, total / 3, total / 2, total.saturating_sub(1), total] {
                    let mut p = progress();
                    p.total_segments = Some(segments);
                    p.completed_segments = completed;
                    p.current_segment_downloaded_bytes = Some(downloaded);
                    p.current_segment_total_bytes = Some(total);
                    assert_eq!(p.percent(), float_percent(&p), "{completed}/{segments} {downloaded}/{total}");
                }
            }
        }
    }
}

#[test]
fn percent_matches_floating_point_on_every_share_of_a_hundred() {
    for segments in 1u32..=12 {
        for completed in 0u32..=segments {
            for downloaded in 0u64..=100 {
                let mut p = progress();
                p.total_segments = Some(segments);
                p.completed_segments = completed;
                p.current_segment_downloaded_bytes = Some(downloaded);
                p.current_segment_total_bytes = Some(100);
                assert_eq!(p.percent(), float_percent(&p), "{completed}/{segments} {downloaded}/100");
            }
        }
    }
}

#[test]
fn percent_grows_with_counts() {
    let mut p = progress();
    p.total_segments = Some(3);
    p.current_segment_total_bytes = Some(1000);
    let mut last = 0u8;
    for completed in 0u32..=3 {
        for downloaded in [0u64, 1, 333, 999, 1000] {
            p.completed_segments = completed;
            p.current_segment_downloaded_bytes = Some(downloaded);
            let now = p.percent().expect("a percentage");
            assert!(now >= last, "{completed} {downloaded}");
            last = now;
        }
    }
}

#[test]
fn download_errors_read_as_their_messages() {
    let bad_url = url::Url::parse("not a url").unwrap_err();
    assert_eq!(
        DownloadError::InvalidMediaPlaylist { reason: "bad tag".to_string() }.message(),
        "failed to parse media playlist: bad tag"
    );
    assert_eq!(
        DownloadError::ExpectedMediaPlaylist.message(),
        "expected a media playlist, got a master playlist"
    );
    assert_eq!(DownloadError::EmptyMediaPlaylist.message(), "media playlist did not contain segments");
    assert_eq!(
        DownloadError::UnsupportedMediaPlaylist { reason: "SAMPLE-AES".to_string() }.message(),
        "unsupported media playlist: SAMPLE-AES"
    );
    assert_eq!(
        DownloadError::InvalidMediaPlaylistUrl { value: "::".to_string(), source: bad_url }.message(),
        "invalid media playlist URL `::`"
    );
    assert_eq!(
        DownloadError::InvalidSegmentUrl {
            base_url: "https://a.test/x.m3u8".to_string(),
            value: "//".to_string(),
            source: bad_url,
        }
        .message(),
        "failed to resolve segment URL `//` against `https://a.test/x.m3u8`"
    );
    let bad_header = reqwest::header::HeaderValue::from_str("a\nb").unwrap_err();
    assert_eq!(
        DownloadError::InvalidHeader { name: "Cookie".to_string(), source: bad_header }.message(),
        "invalid request header `Cookie`"
    );
    assert_eq!(
        DownloadError::Io { path: "/w/a.ts".to_string(), source: std::io::Error::other("disk") }.message(),
        "file operation failed for `/w/a.ts`"
    );
    assert_eq!(DownloadError::NoVariant.message(), "no variant was available in the master playlist");
    assert_eq!(
        DownloadError::Hls(HlsError::EmptyMasterPlaylist).message(),
        "master playlist did not contain variant streams"
    );
}
