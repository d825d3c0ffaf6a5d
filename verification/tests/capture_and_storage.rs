use streamkeep::app_core::HealthSnapshot;
use streamkeep::capture::{
    blank, desktop_path_from_uri, desktop_player_state, PlayerWindow, desktop_publish_result, normalize_desktop_url,
    publish_to_desktop_file, PublishToDownloadsRequest,
};
use streamkeep::download::DownloadStatus;
use streamkeep::storage::{
    find_job, find_job_to_delete, job_status_from_download, parse_job_id_text, DownloadHistory, DownloadJobRecord, DownloadJobStatus,
    QueuedDownloadJob,
};

#[test]
fn file_uris_become_trimmed_paths() {
    assert_eq!(desktop_path_from_uri("file:///home/u/a.mp4"), Ok("/home/u/a.mp4".to_string()));
    assert_eq!(desktop_path_from_uri("  /tmp/x.mp4 \n"), Ok("/tmp/x.mp4".to_string()));
    assert_eq!(
        desktop_path_from_uri("file://   "),
        Err("No Streamkeep file path was provided".to_string())
    );
    assert_eq!(
        desktop_path_from_uri(""),
        Err("No Streamkeep file path was provided".to_string())
    );
}

#[test]
fn player_urls_get_a_scheme_and_a_default() {
    assert_eq!(normalize_desktop_url(None), Ok("https://example.com/".to_string()));
    assert_eq!(
        normalize_desktop_url(Some("  video.example.test/watch?v=1 ")),
        Ok("https://video.example.test/watch?v=1".to_string())
    );
    assert_eq!(
        normalize_desktop_url(Some("http://a.test/x")),
        Ok("http://a.test/x".to_string())
    );
    let error = normalize_desktop_url(Some("http://[::1")).expect_err("bad url");
    assert!(error.starts_with("Invalid Streamkeep player URL: "), "{error}");
    assert_eq!(error, "Invalid Streamkeep player URL: invalid IPv6 address");
    assert_eq!(
        normalize_desktop_url(Some("http://")),
        Err("Invalid Streamkeep player URL: empty host".to_string())
    );
    assert_eq!(
        normalize_desktop_url(Some("https://a.test:99999/")),
        Err("Invalid Streamkeep player URL: invalid port number".to_string())
    );
}

#[test]
fn published_names_fall_back_in_order() {
    let r = desktop_publish_result(
        "/out/a.mp4",
        Some("a.mp4".to_string()),
        Some("b.mp4".to_string()),
        Some("/out".to_string()),
        7,
    );
    assert_eq!(r.content_uri, "file:///out/a.mp4");
    assert_eq!(r.display_name, "a.mp4");
    assert_eq!(r.relative_path, "/out");
    assert_eq!(r.output_bytes, 7);
    let r = desktop_publish_result("/", None, Some(" ".to_string()), None, 0);
    assert_eq!(r.display_name, "Streamkeep capture.mp4");
    assert_eq!(r.relative_path, "");
    let r = desktop_publish_result("/", Some("".to_string()), Some("req.mp4".to_string()), None, 0);
    assert_eq!(r.display_name, "req.mp4");
}

#[test]
fn publishing_a_desktop_file_uses_its_own_name() {
    let request = PublishToDownloadsRequest {
        input_path: "/videos/show/clip.mp4".to_string(),
        display_name: "Other.mp4".to_string(),
    };
    let r = publish_to_desktop_file(&request, 42);
    assert_eq!(r.display_name, "clip.mp4");
    assert_eq!(r.relative_path, "/videos/show");
    assert_eq!(r.content_uri, "file:///videos/show/clip.mp4");
    assert_eq!(r.output_bytes, 42);
}

#[test]
fn a_published_name_is_one_component_and_the_folder_leads_the_path() {
    for (input, name, folder) in [
        ("/a/b.mp4", "b.mp4", "/a"),
        ("clip.mp4", "clip.mp4", ""),
        ("/videos/show/", "show", "/videos"),
        ("/", "Other.mp4", ""),
        ("/tmp/..", "Other.mp4", "/tmp"),
    ] {
        let request = PublishToDownloadsRequest {
            input_path: input.to_string(),
            display_name: "/requested/Other.mp4".to_string(),
        };
        let r = publish_to_desktop_file(&request, 1);
        assert_eq!(r.display_name, name, "{input}");
        assert_eq!(r.relative_path, folder, "{input}");
        assert!(!r.display_name.contains('/'));
        assert!(input.starts_with(&r.relative_path));
    }
    let request = PublishToDownloadsRequest { input_path: "/".to_string(), display_name: " ".to_string() };
    assert_eq!(publish_to_desktop_file(&request, 0).display_name, "Streamkeep capture.mp4");
}

#[test]
fn blank_means_only_whitespace() {
    assert!(blank(&" \t\n".to_string()));
    assert!(!blank(&" x ".to_string()));
}

#[test]
fn health_snapshot_holds_its_fields() {
    let h = HealthSnapshot::new("Streamkeep", "0.1.0", "linux");
    assert_eq!(h.app_name, "Streamkeep");
    assert_eq!(h.app_version, "0.1.0");
    assert_eq!(h.target_platform, "linux");
}

fn job(name: &str) -> QueuedDownloadJob {
    QueuedDownloadJob {
        title: "Show".to_string(),
        output_name: name.to_string(),
        page_url: "https://page.test/".to_string(),
        master_url: "https://media.test/master.m3u8".to_string(),
        media_playlist_url: None,
        referer: Some("https://page.test/".to_string()),
        user_agent: None,
        cookies: None,
        quality: "720p".to_string(),
    }
}

#[test]
fn queued_jobs_get_random_ids() {
    let a = DownloadJobRecord::queued(job("a.mp4"));
    let b = DownloadJobRecord::queued(job("a.mp4"));
    assert_ne!(a.id, b.id);
    assert_eq!((a.id >> 76) & 0xf, 4);
    assert_eq!((a.id >> 62) & 0x3, 2);
    assert_eq!(a.status, DownloadJobStatus::Queued);
    assert_eq!(a.output_name, "a.mp4");
    assert_eq!(a.title, "Show");
    assert_eq!(a.quality, "720p");
    assert_eq!(a.page_url, "https://page.test/");
    assert_eq!(a.progress_percent, None);
    assert_eq!(a.created_at_unix_nanos, a.updated_at_unix_nanos);
    assert!(a.created_at_unix_nanos > 0);
}

#[test]
fn records_follow_progress_failure_and_completion() {
    let mut r = DownloadJobRecord::queued_at(job("x.mp4"), 7, 10);
    r.apply_progress(DownloadJobStatus::Downloading, Some(40), 11);
    assert_eq!(r.status, DownloadJobStatus::Downloading);
    assert_eq!(r.progress_percent, Some(40));
    assert_eq!(r.updated_at_unix_nanos, 11);
    assert_eq!(r.created_at_unix_nanos, 10);
    let mut failed = r.copy();
    failed.mark_failed("boom".to_string(), 12);
    assert_eq!(failed.status, DownloadJobStatus::Failed);
    assert_eq!(failed.error.as_deref(), Some("boom"));
    assert_eq!(failed.progress_percent, Some(40));
    r.mark_done("Movies/x.mp4".to_string(), "file:///m/x.mp4".to_string(), 99, 13);
    assert_eq!(r.status, DownloadJobStatus::Done);
    assert_eq!(r.progress_percent, Some(100));
    assert_eq!(r.output_path.as_deref(), Some("Movies/x.mp4"));
    assert_eq!(r.output_uri.as_deref(), Some("file:///m/x.mp4"));
    assert_eq!(r.output_bytes, Some(99));
    assert_eq!(r.title, "Show");
}

#[test]
fn history_upserts_in_place_and_removes_by_id() {
    let mut h = DownloadHistory::new();
    h.upsert(DownloadJobRecord::queued_at(job("a.mp4"), 1, 1));
    h.upsert(DownloadJobRecord::queued_at(job("b.mp4"), 2, 2));
    let mut again = DownloadJobRecord::queued_at(job("a2.mp4"), 1, 3);
    again.apply_progress(DownloadJobStatus::Done, Some(100), 4);
    h.upsert(again);
    assert_eq!(h.jobs.len(), 2);
    assert_eq!(h.jobs[0].output_name, "a2.mp4");
    assert_eq!(h.jobs[1].output_name, "b.mp4");
    h.remove(1);
    assert_eq!(h.jobs.len(), 1);
    assert_eq!(h.jobs[0].id, 2);
    h.remove(5);
    assert_eq!(h.jobs.len(), 1);
}

#[test]
fn job_stages_match_download_stages() {
    assert_eq!(job_status_from_download(DownloadStatus::Remuxing), DownloadJobStatus::Remuxing);
    assert_eq!(job_status_from_download(DownloadStatus::Cancelled), DownloadJobStatus::Cancelled);
    assert_eq!(job_status_from_download(DownloadStatus::Done), DownloadJobStatus::Done);
}

#[test]
fn deletion_finds_the_first_job_with_the_id() {
    let id: u128 = 0x6f9619ff_8b86_4011_b42d_00cf4fc964ff;
    let jobs = vec![
        DownloadJobRecord::queued_at(job("x.mp4"), 1, 10),
        DownloadJobRecord::queued_at(job("y.mp4"), id, 11),
        DownloadJobRecord::queued_at(job("z.mp4"), id, 12),
    ];
    assert_eq!(find_job_to_delete(&jobs, "6f9619ff-8b86-4011-b42d-00cf4fc964ff"), Ok(Some(1)));
    assert_eq!(find_job_to_delete(&jobs, "00000000-0000-4000-8000-000000000000"), Ok(None));
    assert!(find_job_to_delete(&jobs, "not-a-uuid").is_err());
}

#[test]
fn a_job_id_is_parsed_before_any_lookup() {
    let id: u128 = 0x6f9619ff_8b86_4011_b42d_00cf4fc964ff;
    assert_eq!(parse_job_id_text("6f9619ff-8b86-4011-b42d-00cf4fc964ff"), Ok(id));
    assert_eq!(parse_job_id_text("6F9619FF8B864011B42D00CF4FC964FF"), Ok(id));
    assert!(parse_job_id_text("not-a-uuid").is_err());
    assert!(parse_job_id_text("").is_err());
    let jobs = vec![
        DownloadJobRecord::queued_at(job("x.mp4"), 1, 10),
        DownloadJobRecord::queued_at(job("y.mp4"), id, 11),
        DownloadJobRecord::queued_at(job("z.mp4"), id, 12),
    ];
    assert_eq!(find_job(&jobs, id), Some(1));
    assert_eq!(find_job(&jobs, 1), Some(0));
    assert_eq!(find_job(&jobs, 7), None);
    assert_eq!(find_job(&[], id), None);
}

#[test]
fn desktop_player_state_reflects_the_window() {
    let closed = desktop_player_state(None);
    assert!(closed.supported && !closed.visible && !closed.loading);
    assert_eq!(closed.url, None);
    let open = desktop_player_state(Some(PlayerWindow {
        visible: None,
        url: Some("https://a.test/".to_string()),
        title: Some("A".to_string()),
    }));
    assert!(open.visible);
    assert_eq!(open.url.as_deref(), Some("https://a.test/"));
    assert_eq!(open.title.as_deref(), Some("A"));
    assert!(!open.can_go_back && !open.can_go_forward);
    let hidden = desktop_player_state(Some(PlayerWindow { visible: Some(false), url: None, title: None }));
    assert!(!hidden.visible);
}
