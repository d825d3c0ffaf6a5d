use streamkeep::download::{DownloadError, DownloadProgress, DownloadRequest, DownloadStatus, RequestHeader};
use streamkeep::session::{DownloadSession, SessionCommand, SessionPhase, SessionStep};

const MASTER_URL: &str = "https://media.example.test/show/master.m3u8";

const MASTER: &str = "#EXTM3U\n\
#EXT-X-STREAM-INF:BANDWIDTH=1000000,RESOLUTION=1280x720\n\
low/index.m3u8\n\
#EXT-X-STREAM-INF:BANDWIDTH=3000000,RESOLUTION=1920x1080\n\
high/index.m3u8\n";

const MEDIA: &str = "#EXTM3U\n\
#EXT-X-TARGETDURATION:6\n\
#EXTINF:6.0,\n\
s1.ts\n\
#EXTINF:6.0,\n\
s2.ts\n\
#EXT-X-ENDLIST\n";

fn request(media: Option<&str>) -> DownloadRequest {
    DownloadRequest {
        master_url: MASTER_URL.to_string(),
        media_playlist_url: media.map(|m| m.to_string()),
        referer: Some("https://page.example.test/".to_string()),
        user_agent: None,
        cookies: None,
        output_name: "Show.mp4".to_string(),
    }
}

fn messages(progress: &[DownloadProgress]) -> Vec<String> {
    progress.iter().map(|p| p.message.clone().unwrap_or_default()).collect()
}

/// Runs a session against canned playlists; each segment arrives as two
/// chunks of 100 bytes, the second one 200 ms after the first.
fn run(request: &DownloadRequest) -> (DownloadSession, Vec<DownloadProgress>, SessionCommand) {
    let (mut session, mut step) = DownloadSession::start(request, "/tmp/out.download.ts");
    let mut reports: Vec<DownloadProgress> = Vec::new();
    let mut chunks_left = 0;
    loop {
        let SessionStep { progress, command, .. } = step;
        reports.extend(progress);
        step = match command {
            SessionCommand::BuildClient { .. } => session.client_built(),
            SessionCommand::FetchText { url } => {
                let body = if url == MASTER_URL { MASTER } else { MEDIA };
                session.text_fetched(body.as_bytes())
            }
            SessionCommand::CreateOutput { .. } => session.output_created(),
            SessionCommand::FetchSegment { .. } => {
                chunks_left = 2;
                session.segment_opened(Some(200))
            }
            SessionCommand::ReadChunk => {
                if chunks_left > 0 {
                    chunks_left -= 1;
                    let elapsed = if chunks_left == 0 { 200 } else { 10 };
                    session.chunk_written(100, elapsed)
                } else {
                    session.segment_ended()
                }
            }
            SessionCommand::Flush => session.flushed(),
            done => return (session, reports, done),
        };
    }
}

#[test]
fn start_asks_for_a_client_with_the_request_headers() {
    let (session, step) = DownloadSession::start(&request(None), "/tmp/out.ts");
    assert_eq!(session.phase(), SessionPhase::BuildingClient);
    assert_eq!(messages(&step.progress), vec!["building http client"]);
    match step.command {
        SessionCommand::BuildClient { headers } => {
            assert_eq!(headers.len(), 1);
            assert_eq!(headers[0].header, RequestHeader::Referer);
            assert_eq!(headers[0].value, "https://page.example.test/");
        }
        other => panic!("unexpected command {other:?}"),
    }
}

#[test]
fn start_fails_on_an_invalid_header() {
    let mut r = request(None);
    r.cookies = Some("a\u{7f}".to_string());
    let (session, step) = DownloadSession::start(&r, "/tmp/out.ts");
    assert_eq!(session.phase(), SessionPhase::Failed);
    assert!(matches!(step.command, SessionCommand::Fail { error: DownloadError::InvalidHeader { .. } }));
}

#[test]
fn full_run_through_the_master_playlist() {
    let (session, reports, done) = run(&request(None));
    assert_eq!(session.phase(), SessionPhase::Finished);
    match done {
        SessionCommand::Finish { result } => {
            assert_eq!(result.completed_segments, 2);
            assert_eq!(result.downloaded_bytes, 400);
            assert_eq!(result.transport_stream_path, "/tmp/out.download.ts");
            assert_eq!(
                result.media_playlist_url,
                "https://media.example.test/show/high/index.m3u8"
            );
        }
        other => panic!("unexpected command {other:?}"),
    }
    assert_eq!(
        messages(&reports),
        vec![
            "building http client",
            "fetching master playlist",
            "selecting best variant",
            "fetching media playlist",
            "parsing media playlist",
            "writing segments",
            "downloading segment 1",
            "downloaded segment 1",
            "downloading segment 2",
            "downloaded segment 2",
            "remuxing transport stream",
        ]
    );
    let first_chunk = &reports[6];
    assert_eq!(first_chunk.status, DownloadStatus::Downloading);
    assert_eq!(first_chunk.current_segment_downloaded_bytes, Some(200));
    assert_eq!(first_chunk.current_segment_total_bytes, Some(200));
    assert_eq!(first_chunk.total_segments, Some(2));
    let second_done = &reports[9];
    assert_eq!(second_done.completed_segments, 2);
    assert_eq!(second_done.downloaded_bytes, 400);
    assert_eq!(second_done.current_segment_index, Some(1));
    let last = reports.last().expect("a last report");
    assert_eq!(last.status, DownloadStatus::Remuxing);
    assert_eq!(last.percent(), Some(100));
}

#[test]
fn full_run_with_a_detected_media_playlist() {
    let media = "https://media.example.test/show/low/index.m3u8";
    let (_, reports, done) = run(&request(Some(media)));
    assert!(matches!(done, SessionCommand::Finish { .. }));
    assert_eq!(
        messages(&reports)[..4],
        [
            "building http client",
            "using detected media playlist",
            "fetching media playlist",
            "parsing media playlist",
        ]
    );
}

#[test]
fn a_bad_media_playlist_fails_the_session() {
    let (mut session, _) = DownloadSession::start(&request(Some("https://a.test/m.m3u8")), "/tmp/o.ts");
    let _ = session.client_built();
    let step = session.text_fetched(MASTER.as_bytes());
    assert_eq!(session.phase(), SessionPhase::Failed);
    assert!(matches!(step.command, SessionCommand::Fail { error: DownloadError::ExpectedMediaPlaylist }));
}

#[test]
fn small_quick_chunks_are_not_reported() {
    let (mut session, _) = DownloadSession::start(&request(Some("https://a.test/m.m3u8")), "/tmp/o.ts");
    let _ = session.client_built();
    let _ = session.text_fetched(MEDIA.as_bytes());
    let _ = session.output_created();
    let opened = session.segment_opened(None);
    assert!(opened.restart_clock);
    let quiet = session.chunk_written(10, 5);
    assert!(quiet.progress.is_empty());
    assert!(!quiet.restart_clock);
    let big = session.chunk_written(131_072, 5);
    assert!(big.restart_clock);
    assert_eq!(big.progress[0].current_segment_downloaded_bytes, Some(131_082));
    assert_eq!(big.progress[0].current_segment_total_bytes, None);
}
