use streamkeep::hls::{
    parse_master_playlist, select_best_quality, select_best_variant, HlsError, HlsVariant,
    QualityOption,
};

const MASTER: &str = "https://media.example.test/show/master.m3u8";

fn variant(id: &str, height: Option<u32>, width: Option<u32>, avg: Option<u64>, bw: u64) -> HlsVariant {
    HlsVariant {
        id: id.to_string(),
        label: id.to_string(),
        bandwidth: bw,
        average_bandwidth: avg,
        width,
        height,
        codecs: None,
        audio_group: None,
        audio_renditions: Vec::new(),
        media_playlist_url: format!("{id}.m3u8"),
    }
}

fn option(id: &str, height: Option<u32>, width: Option<u32>, bw: Option<u64>) -> QualityOption {
    QualityOption {
        id: id.to_string(),
        label: id.to_string(),
        bandwidth: bw,
        width,
        height,
        media_playlist_url: format!("{id}.m3u8"),
    }
}

#[test]
fn labels_fall_back_to_bandwidth_then_position() {
    let body = "#EXTM3U\n\
#EXT-X-STREAM-INF:BANDWIDTH=2400000\n\
a.m3u8\n\
#EXT-X-STREAM-INF:BANDWIDTH=0\n\
b.m3u8\n\
#EXT-X-STREAM-INF:BANDWIDTH=150000\n\
c.m3u8\n\
#EXT-X-STREAM-INF:BANDWIDTH=800000,RESOLUTION=640x360\n\
d.m3u8\n";
    let playlist = parse_master_playlist(MASTER, body.as_bytes()).expect("master should parse");
    assert_eq!(playlist.variants.len(), 4);
    assert_eq!(playlist.variants[0].label, "2.4 Mbps");
    assert_eq!(playlist.variants[1].label, "Variant 2");
    assert_eq!(playlist.variants[2].label, "0.1 Mbps");
    assert_eq!(playlist.variants[3].label, "360p");
    assert_eq!(playlist.variants[0].id, "variant-1");
    assert_eq!(playlist.variants[3].id, "variant-4");
    assert_eq!(playlist.variants[3].width, Some(640));
    assert_eq!(
        playlist.variants[1].media_playlist_url,
        "https://media.example.test/show/b.m3u8"
    );
    assert_eq!(playlist.master_url, MASTER);
}

#[test]
fn quality_options_mirror_variants() {
    let body = "#EXTM3U\n\
#EXT-X-STREAM-INF:BANDWIDTH=1000000,RESOLUTION=1280x720\n\
a.m3u8\n\
#EXT-X-STREAM-INF:BANDWIDTH=3000000,RESOLUTION=1920x1080\n\
b.m3u8\n";
    let playlist = parse_master_playlist(MASTER, body.as_bytes()).expect("master should parse");
    let options = playlist.quality_options();
    assert_eq!(options.len(), 2);
    assert_eq!(options[1].id, "variant-2");
    assert_eq!(options[1].bandwidth, Some(3_000_000));
    assert_eq!(options[1].height, Some(1080));
    let best = playlist.best_quality().expect("a best quality");
    assert_eq!(best.label, "1080p");
    assert_eq!(best.media_playlist_url, "https://media.example.test/show/b.m3u8");
}

#[test]
fn renditions_only_from_the_variant_audio_group() {
    let body = "#EXTM3U\n\
#EXT-X-MEDIA:TYPE=AUDIO,GROUP-ID=\"aac\",NAME=\"Main\",URI=\"audio/main.m3u8\"\n\
#EXT-X-MEDIA:TYPE=AUDIO,GROUP-ID=\"other\",NAME=\"Other\",URI=\"audio/other.m3u8\"\n\
#EXT-X-MEDIA:TYPE=SUBTITLES,GROUP-ID=\"aac\",NAME=\"Subs\",URI=\"subs.m3u8\"\n\
#EXT-X-STREAM-INF:BANDWIDTH=1000000,AUDIO=\"aac\"\n\
v.m3u8\n\
#EXT-X-STREAM-INF:BANDWIDTH=2000000\n\
w.m3u8\n";
    let playlist = parse_master_playlist(MASTER, body.as_bytes()).expect("master should parse");
    let first = &playlist.variants[0];
    assert_eq!(first.audio_renditions.len(), 1);
    assert_eq!(first.audio_renditions[0].name, "Main");
    assert_eq!(first.audio_renditions[0].group_id, "aac");
    assert_eq!(first.audio_renditions[0].language, None);
    assert_eq!(
        first.audio_renditions[0].playlist_url.as_deref(),
        Some("https://media.example.test/show/audio/main.m3u8")
    );
    assert!(playlist.variants[1].audio_renditions.is_empty());
    assert_eq!(playlist.variants[1].audio_group, None);
}

#[test]
fn i_frame_streams_are_skipped() {
    let body = "#EXTM3U\n\
#EXT-X-I-FRAME-STREAM-INF:BANDWIDTH=90000,URI=\"iframe.m3u8\"\n\
#EXT-X-STREAM-INF:BANDWIDTH=1000000\n\
v.m3u8\n";
    let playlist = parse_master_playlist(MASTER, body.as_bytes()).expect("master should parse");
    assert_eq!(playlist.variants.len(), 1);
    assert_eq!(playlist.variants[0].id, "variant-2");
    assert_eq!(playlist.variants[0].label, "1.0 Mbps");
}

#[test]
fn only_i_frame_streams_is_an_empty_master() {
    let body = "#EXTM3U\n#EXT-X-I-FRAME-STREAM-INF:BANDWIDTH=90000,URI=\"iframe.m3u8\"\n";
    let error = parse_master_playlist(MASTER, body.as_bytes()).expect_err("no variants");
    assert!(matches!(error, HlsError::EmptyMasterPlaylist));
}

#[test]
fn rejects_relative_master_url() {
    let body = "#EXTM3U\n#EXT-X-STREAM-INF:BANDWIDTH=1\nv.m3u8\n";
    let error = parse_master_playlist("not a url", body.as_bytes()).expect_err("bad base");
    match error {
        HlsError::InvalidMasterUrl { value, .. } => assert_eq!(value, "not a url"),
        other => panic!("unexpected error {other:?}"),
    }
}

#[test]
fn rejects_text_that_is_no_playlist() {
    let error = parse_master_playlist(MASTER, "hello".as_bytes()).expect_err("not m3u8");
    assert!(matches!(error, HlsError::InvalidPlaylist { .. }));
}

#[test]
fn rejects_unresolvable_variant_url() {
    let body = "#EXTM3U\n#EXT-X-STREAM-INF:BANDWIDTH=1\nhttp://[::1\n";
    let error = parse_master_playlist(MASTER, body.as_bytes()).expect_err("bad variant url");
    match error {
        HlsError::InvalidPlaylistUrl { base_url, value, .. } => {
            assert_eq!(base_url, MASTER);
            assert_eq!(value, "http://[::1");
        }
        other => panic!("unexpected error {other:?}"),
    }
}

#[test]
fn best_variant_prefers_height_then_width_then_average_then_bandwidth() {
    let variants = vec![
        variant("a", Some(720), Some(1280), None, 9_000_000),
        variant("b", Some(1080), Some(1440), None, 1_000_000),
        variant("c", Some(1080), Some(1920), Some(1_000_000), 8_000_000),
        variant("d", Some(1080), Some(1920), Some(2_000_000), 2_000_000),
        variant("e", Some(1080), Some(1920), None, 1_500_000),
    ];
    assert_eq!(select_best_variant(&variants).expect("best").id, "d");
}

#[test]
fn best_variant_takes_the_last_of_equals() {
    let variants = vec![
        variant("first", None, None, None, 5),
        variant("second", None, None, None, 5),
    ];
    assert_eq!(select_best_variant(&variants).expect("best").id, "second");
    assert!(select_best_variant(&[]).is_none());
}

#[test]
fn best_quality_treats_missing_as_zero_and_keeps_last_max() {
    let options = vec![
        option("a", None, None, Some(10)),
        option("b", Some(1), None, None),
        option("c", Some(1), None, None),
    ];
    assert_eq!(select_best_quality(&options).expect("best").id, "c");
    assert!(select_best_quality(&[]).is_none());
}

#[test]
fn hls_errors_read_as_their_messages() {
    let bad_url = url::Url::parse("not a url").unwrap_err();
    assert_eq!(
        HlsError::InvalidMasterUrl { value: "x".to_string(), source: bad_url }.message(),
        "invalid master playlist URL `x`"
    );
    assert_eq!(
        HlsError::InvalidPlaylist { reason: "no header".to_string() }.message(),
        "failed to parse HLS playlist: no header"
    );
    assert_eq!(
        HlsError::ExpectedMasterPlaylist.message(),
        "expected a master playlist, got a media playlist"
    );
    assert_eq!(
        HlsError::InvalidPlaylistUrl {
            base_url: "https://a.test/m.m3u8".to_string(),
            value: "::".to_string(),
            source: bad_url,
        }
        .message(),
        "failed to resolve playlist URL `::` against `https://a.test/m.m3u8`"
    );
    assert_eq!(HlsError::EmptyMasterPlaylist.message(), "master playlist did not contain variant streams");
}
