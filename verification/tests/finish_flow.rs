use streamkeep::capture::{PublishToDownloadsResult, RemuxToMp4Result};
use streamkeep::download::{DownloadStatus, SegmentDownloadResult};
use streamkeep::finish::{FinishCommand, FinishEvent, FinishJob, FinishPhase};
use streamkeep::storage::{DownloadJobRecord, DownloadJobStatus, QueuedDownloadJob};

fn record() -> DownloadJobRecord {
    DownloadJobRecord::queued_at(
        QueuedDownloadJob {
            title: "Show".to_string(),
            output_name: "Show.mp4".to_string(),
            page_url: String::new(),
            master_url: "https://m.test/master.m3u8".to_string(),
            media_playlist_url: None,
            referer: None,
            user_agent: None,
            cookies: None,
            quality: "Best available".to_string(),
        },
        42,
        1,
    )
}

fn job() -> FinishJob {
    FinishJob::new(
        "/w/Show.download.ts".to_string(),
        "/out/Show.mp4".to_string(),
        record(),
    )
}

fn segments() -> FinishEvent {
    FinishEvent::Segments(Ok(SegmentDownloadResult {
        media_playlist_url: "https://m.test/high.m3u8".to_string(),
        transport_stream_path: "/w/Show.download.ts".to_string(),
        completed_segments: 3,
        downloaded_bytes: 3000,
    }))
}

fn remuxed() -> FinishEvent {
    FinishEvent::Remuxed(Ok(RemuxToMp4Result {
        output_path: "/out/Show.mp4".to_string(),
        track_count: 2,
        output_bytes: 2900,
    }))
}

#[test]
fn a_job_is_remuxed_saved_and_done() {
    let mut j = job();
    let (command, reports) = j.step(segments(), 5);
    assert_eq!(reports[0].message.as_deref(), Some("remuxing transport stream"));
    assert_eq!(reports[0].total_segments, Some(3));
    match command {
        FinishCommand::Remux { request, record } => {
            assert_eq!(request.input_path, "/w/Show.download.ts");
            assert_eq!(request.output_path, "/out/Show.mp4");
            assert_eq!(record.status, DownloadJobStatus::Remuxing);
            assert_eq!(record.progress_percent, Some(98));
        }
        other => panic!("unexpected {other:?}"),
    }
    let (command, reports) = j.step(remuxed(), 6);
    assert_eq!(reports[0].message.as_deref(), Some("saving mp4"));
    assert_eq!(reports[0].downloaded_bytes, 2900);
    match command {
        FinishCommand::RemoveThenPublish { remove, request } => {
            assert_eq!(remove, "/w/Show.download.ts");
            assert_eq!(request.input_path, "/out/Show.mp4");
            assert_eq!(request.display_name, "Show.mp4");
        }
        other => panic!("unexpected {other:?}"),
    }
    let published = FinishEvent::Published(Ok(PublishToDownloadsResult {
        content_uri: "file:///out/Show.mp4".to_string(),
        display_name: "Show.mp4".to_string(),
        relative_path: "/out".to_string(),
        output_bytes: 2900,
    }));
    let (command, reports) = j.step(published, 7);
    assert!(reports.is_empty());
    assert_eq!(j.phase(), FinishPhase::Finished);
    match command {
        FinishCommand::Done { record, progress, result } => {
            assert_eq!(record.status, DownloadJobStatus::Done);
            assert_eq!(record.output_path.as_deref(), Some("/out/Show.mp4"));
            assert_eq!(record.output_uri.as_deref(), Some("file:///out/Show.mp4"));
            assert_eq!(record.output_bytes, Some(2900));
            assert_eq!(record.title, "Show");
            assert_eq!(progress.status, DownloadStatus::Done);
            assert_eq!(progress.total_bytes, Some(2900));
            assert_eq!(result.job_id, "00000000-0000-0000-0000-00000000002a");
            assert_eq!(result.output_path, "/out/Show.mp4");
            assert_eq!(result.media_playlist_url, "https://m.test/high.m3u8");
            assert_eq!(result.track_count, 2);
        }
        other => panic!("unexpected {other:?}"),
    }
}

#[test]
fn failures_remove_the_right_partial_file_and_keep_the_message() {
    let mut j = job();
    match j.step(FinishEvent::Segments(Err("http failed".to_string())), 2).0 {
        FinishCommand::Fail { remove, record, progress, error } => {
            assert_eq!(remove, "/w/Show.download.ts");
            assert_eq!(record.error.as_deref(), Some("http failed"));
            assert_eq!(record.status, DownloadJobStatus::Failed);
            assert_eq!(progress.status, DownloadStatus::Failed);
            assert_eq!(error, "http failed");
        }
        other => panic!("unexpected {other:?}"),
    }
    let mut j = job();
    let _ = j.step(segments(), 2);
    match j.step(FinishEvent::Remuxed(Err("bad ts".to_string())), 3).0 {
        FinishCommand::Fail { remove, .. } => assert_eq!(remove, "/w/Show.download.ts"),
        other => panic!("unexpected {other:?}"),
    }
    let mut j = job();
    let _ = j.step(segments(), 2);
    let _ = j.step(remuxed(), 3);
    match j.step(FinishEvent::Published(Err("no space".to_string())), 4).0 {
        FinishCommand::Fail { remove, record, .. } => {
            assert_eq!(remove, "/out/Show.mp4");
            assert_eq!(record.progress_percent, Some(98));
        }
        other => panic!("unexpected {other:?}"),
    }
}

#[test]
fn the_job_id_is_the_hyphenated_text_of_the_record_id() {
    let id: u128 = 0x0123_4567_89ab_4def_8123_4567_89ab_cdef;
    let mut r = record();
    r.id = id;
    let j = FinishJob::new("/w/a.ts".to_string(), "/out/a.mp4".to_string(), r);
    assert_eq!(j.job_id(), "01234567-89ab-4def-8123-456789abcdef");
    assert_eq!(j.job_id(), &uuid::Uuid::from_u128(id).to_string());
}
