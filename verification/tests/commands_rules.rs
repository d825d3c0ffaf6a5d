use std::collections::HashSet;

use streamkeep::capture::PublishToDownloadsResult;
use streamkeep::commands::{
    default_download_directory, Platform,
    download_output_name, download_quality, download_settings_from, download_title,
    ensure_mp4_extension, failed_progress, finishing_progress, history_file_path,
    public_output_path, sanitize_file_name, should_persist_progress, temp_transport_path,
    unique_file_path, validated_output_directory, FinishingStage,
};
use streamkeep::download::DownloadStatus;
use streamkeep::storage::DownloadJobStatus;

#[test]
fn file_names_lose_reserved_and_control_characters() {
    assert_eq!(sanitize_file_name("a/b\\c:d*e?f\"g<h>i|j"), "a b c d e f g h i j");
    assert_eq!(sanitize_file_name("  .. My\tShow\u{0}  .  "), "My Show");
    assert_eq!(sanitize_file_name(" ... "), "Streamkeep capture");
    assert_eq!(sanitize_file_name(""), "Streamkeep capture");
}

#[test]
fn sanitizing_twice_changes_nothing() {
    for name in ["x::y", "  .a. ", "\u{7}", "Ünïcödé  name"] {
        let once = sanitize_file_name(name);
        assert_eq!(sanitize_file_name(&once), once);
    }
}

#[test]
fn mp4_extension_is_added_once_in_any_case() {
    assert_eq!(ensure_mp4_extension("clip"), "clip.mp4");
    assert_eq!(ensure_mp4_extension("clip.MP4"), "clip.MP4");
    assert_eq!(ensure_mp4_extension("clip.Mp4"), "clip.Mp4");
    assert_eq!(ensure_mp4_extension("clip.mp3"), "clip.mp3.mp4");
    let once = ensure_mp4_extension("x");
    assert_eq!(ensure_mp4_extension(&once), once);
}

#[test]
fn output_names_are_sanitized_mp4_files() {
    assert_eq!(download_output_name("Ep 1: Pilot"), "Ep 1 Pilot.mp4");
    assert_eq!(download_output_name("   "), "Streamkeep capture.mp4");
    assert_eq!(download_output_name("done.mp4"), "done.mp4");
}

#[test]
fn titles_come_from_the_request_or_the_file_name() {
    assert_eq!(download_title(Some("A/B"), "x.mp4"), "A B");
    assert_eq!(download_title(Some("  "), "x.mp4"), "Streamkeep capture");
    assert_eq!(download_title(None, "Show.mp4"), "Show");
    assert_eq!(download_title(None, "Show.MP4"), "Show.MP4");
}

#[test]
fn quality_defaults_to_best_available() {
    assert_eq!(download_quality(Some("720p".to_string())), "720p");
    assert_eq!(download_quality(Some(" \t".to_string())), "Best available");
    assert_eq!(download_quality(None), "Best available");
}

#[test]
fn paths_in_the_download_directory() {
    assert_eq!(history_file_path("/data/dl"), "/data/dl/history.json");
    assert_eq!(history_file_path("/data/dl/"), "/data/dl/history.json");
    assert_eq!(temp_transport_path("/data", "Show.mp4"), "/data/Show.download.ts");
    assert_eq!(temp_transport_path("/data", "Show"), "/data/Show.download.ts");
    assert_eq!(history_file_path(""), "history.json");
}

#[test]
fn public_paths_join_directory_and_name() {
    let mut result = PublishToDownloadsResult {
        content_uri: "file:///d/x.mp4".to_string(),
        display_name: "x.mp4".to_string(),
        relative_path: "Movies/Streamkeep".to_string(),
        output_bytes: 3,
    };
    assert_eq!(public_output_path(&result), "Movies/Streamkeep/x.mp4");
    result.relative_path = String::new();
    assert_eq!(public_output_path(&result), "x.mp4");
}

#[test]
fn unique_paths_count_up_until_free() {
    let taken: HashSet<String> =
        ["/d/a.mp4".to_string(), "/d/a (1).mp4".to_string()].into_iter().collect();
    assert_eq!(unique_file_path("/d", "a.mp4", |p: &String| taken.contains(p)), "/d/a (2).mp4");
    assert_eq!(unique_file_path("/d", "b.mp4", |p: &String| taken.contains(p)), "/d/b.mp4");
    assert_eq!(unique_file_path("/d", "c", |_p: &String| true), "/d/c (999).mp4");
}

#[test]
fn settings_prefer_a_stored_folder() {
    let s = download_settings_from(Some("/custom".to_string()), "/default");
    assert_eq!(s.output_directory, "/custom");
    assert!(s.custom_output_directory);
    let s = download_settings_from(Some("  ".to_string()), "/default");
    assert_eq!(s.output_directory, "/default");
    assert!(!s.custom_output_directory);
    let s = download_settings_from(Some("/default".to_string()), "/default");
    assert!(!s.custom_output_directory);
    let s = download_settings_from(None, "/default");
    assert_eq!(s.default_output_directory, "/default");
}

#[test]
fn chosen_folders_are_trimmed_and_blank_refused() {
    assert_eq!(validated_output_directory("  /x  "), Ok("/x".to_string()));
    assert_eq!(
        validated_output_directory(" \n"),
        Err("Choose a Streamkeep output folder".to_string())
    );
}

#[test]
fn progress_is_stored_on_change_or_after_two_seconds() {
    let d = DownloadJobStatus::Downloading;
    assert!(!should_persist_progress(Some(d), Some(5), d, Some(5), 1999));
    assert!(should_persist_progress(Some(d), Some(5), d, Some(5), 2000));
    assert!(should_persist_progress(Some(d), Some(5), d, Some(6), 0));
    assert!(should_persist_progress(Some(DownloadJobStatus::Preparing), None, d, None, 0));
    assert!(should_persist_progress(None, None, d, None, 0));
}

#[test]
fn failure_and_finishing_reports() {
    let f = failed_progress("boom".to_string());
    assert_eq!(f.status, DownloadStatus::Failed);
    assert_eq!(f.message.as_deref(), Some("boom"));
    assert_eq!(f.total_segments, None);
    let r = finishing_progress(FinishingStage::Remuxing, 4, 1000);
    assert_eq!(r.status, DownloadStatus::Remuxing);
    assert_eq!(r.message.as_deref(), Some("remuxing transport stream"));
    assert_eq!(r.total_bytes, None);
    let s = finishing_progress(FinishingStage::Saving, 4, 900);
    assert_eq!(s.message.as_deref(), Some("saving mp4"));
    let d = finishing_progress(FinishingStage::Saved, 4, 900);
    assert_eq!(d.status, DownloadStatus::Done);
    assert_eq!(d.total_bytes, Some(900));
    assert_eq!(d.percent(), Some(100));
    assert_eq!(d.message.as_deref(), Some("saved mp4"));
}

#[test]
fn default_folders_per_platform() {
    let dirs = || (Some("/v".to_string()), Some("/dl".to_string()), Ok::<String, String>("/data".to_string()));
    let (v, d, a) = dirs();
    assert_eq!(default_download_directory(Platform::Android, v, d, a), Ok("Movies/Streamkeep".to_string()));
    let (v, d, a) = dirs();
    assert_eq!(default_download_directory(Platform::Windows, v, d, a), Ok("/v/Streamkeep".to_string()));
    let (v, d, a) = dirs();
    assert_eq!(default_download_directory(Platform::Other, v, d, a), Ok("/dl/Streamkeep".to_string()));
    assert_eq!(
        default_download_directory(Platform::Windows, None, None, Ok("/data/".to_string())),
        Ok("/data/Streamkeep".to_string())
    );
    assert_eq!(
        default_download_directory(Platform::Other, None, None, Err("no data dir".to_string())),
        Err("no data dir".to_string())
    );
}

#[test]
fn only_dropped_characters_fall_back() {
    assert_eq!(sanitize_file_name(". :\t*/\u{1}"), "Streamkeep capture");
    assert_eq!(sanitize_file_name(". x ."), "x");
    assert_eq!(sanitize_file_name("Streamkeep capture"), "Streamkeep capture");
}
