//! The decisions behind the app's download and settings commands: names,
//! paths, titles, settings and the progress reports around the remux.

use vstd::prelude::*;
use crate::capture::{blank, is_blank, PublishToDownloadsResult};
use crate::download::{DownloadProgress, DownloadStatus};
use crate::hls::opt_view;
use crate::metadata::{
    all_safe, has_mp4_suffix, is_clean_in, is_reserved_path_character, is_reserved_path_char,
    is_safe_char, is_single_spaced, lemma_collapse_clean, lemma_join_props, lemma_trim_set_props,
    lemma_trim_bounds, lemma_words_props, push_mp4_extension, with_mp4_extension,
};
use crate::text::{in_trim_set, is_unicode_whitespace, leading_count, lemma_join_keep,
    lemma_join_nonempty, lemma_join_of_dots, lemma_leading_count, lemma_trailing_count,
    lemma_words_keep, lemma_words_nonempty, lemma_words_of_dots, trailing_count, words};
use crate::storage::DownloadJobStatus;
use crate::text::{
    chars_of, collapse_whitespace, collapse_whitespace_chars, decimal, is_control_char,
    is_unicode_control, join_path, join_path_chars, push_all, push_decimal, string_from_chars,
    strip_suffix_chars, trim_chars, trim_set, without_suffix, TrimSet,
};

verus! {

/// A download as the app's front end asks for it.
#[derive(Debug, Clone)]
pub struct StartDownloadRequest {
    pub master_url: String,
    pub media_playlist_url: Option<String>,
    pub referer: Option<String>,
    pub user_agent: Option<String>,
    pub cookies: Option<String>,
    pub output_name: String,
    pub title: Option<String>,
    pub page_url: Option<String>,
    pub quality_label: Option<String>,
}

/// What a finished download reports to the front end.
#[derive(Debug, Clone)]
pub struct StartDownloadResult {
    pub job_id: String,
    pub output_name: String,
    pub output_path: String,
    pub output_uri: String,
    pub media_playlist_url: String,
    pub output_bytes: u64,
    pub track_count: u32,
}

/// A progress report of one job.
#[derive(Debug, Clone)]
pub struct DownloadProgressEvent {
    pub job_id: String,
    pub progress: DownloadProgress,
}

/// Where downloads are saved.
#[derive(Debug, Clone)]
pub struct DownloadSettings {
    pub output_directory: String,
    pub default_output_directory: String,
    pub custom_output_directory: bool,
}

/// A reserved or control character becomes a space; others stay.
pub open spec fn name_char(c: char) -> char {
    if is_reserved_path_char(c) || is_unicode_control(c) {
        ' '
    } else {
        c
    }
}

/// What `sanitize_file_name` returns: reserved and control characters
/// become spaces, whitespace runs collapse into one space, `.` and ` ` are
/// stripped from both ends, and nothing left gives `Streamkeep capture`.
pub open spec fn sanitized_name(s: Seq<char>) -> Seq<char> {
    let cleaned = trim_set(
        collapse_whitespace(s.map_values(|c: char| name_char(c))),
        TrimSet::DotSpace,
    );
    if cleaned.len() == 0 {
        "Streamkeep capture"@
    } else {
        cleaned
    }
}

fn sanitized_name_chars(value: &str) -> (r: Vec<char>)
    ensures
        r@ == sanitized_name(value@),
{
    let v = chars_of(value);
    let mut mapped: Vec<char> = Vec::new();
    let mut i: usize = 0;
    while i < v.len()
        invariant
            i <= v@.len(),
            mapped@ == v@.subrange(0, i as int).map_values(|c: char| name_char(c)),
        decreases v@.len() - i,
    {
        let c = v[i];
        mapped.push(
            if is_reserved_path_character(c) || is_control_char(c) {
                ' '
            } else {
                c
            },
        );
        i = i + 1;
        assert(mapped@ =~= v@.subrange(0, i as int).map_values(|c: char| name_char(c)));
    }
    assert(v@.subrange(0, i as int) =~= v@);
    let collapsed = collapse_whitespace_chars(&mapped);
    let cleaned = trim_chars(&collapsed, TrimSet::DotSpace);
    if cleaned.len() == 0 {
        chars_of("Streamkeep capture")
    } else {
        cleaned
    }
}

/// The file name made of a requested name (see `sanitized_name`).
pub fn sanitize_file_name(value: &str) -> (r: String)
    ensures
        r@ == sanitized_name(value@),
{
    let v = sanitized_name_chars(value);
    string_from_chars(&v)
}

/// `value` with `.mp4` appended unless it ends in `.mp4` in any letter
/// case. (The Unicode lower-casing that the check goes through maps no
/// character but `M` and `P` onto `m`, `p`, `.` or `4`, and the only
/// character it expands ends in a combining mark, so only the last four
/// characters and ASCII case matter.)
pub fn ensure_mp4_extension(value: &str) -> (r: String)
    ensures
        r@ == with_mp4_extension(value@),
{
    let mut v = chars_of(value);
    push_mp4_extension(&mut v);
    string_from_chars(&v)
}

/// The name a download is saved under: the sanitized request name with an
/// `.mp4` extension.
pub fn download_output_name(requested: &str) -> (r: String)
    ensures
        r@ == with_mp4_extension(sanitized_name(requested@)),
        has_mp4_suffix(r@),
{
    let mut v = sanitized_name_chars(requested);
    push_mp4_extension(&mut v);
    proof {
        reveal_strlit(".mp4");
    }
    string_from_chars(&v)
}

/// The title recorded for a download: the sanitized title where one is
/// given, else the output name without its `.mp4`.
pub open spec fn spec_download_title(title: Option<Seq<char>>, output_name: Seq<char>) -> Seq<char> {
    match title {
        Some(t) => sanitized_name(t),
        None => without_suffix(output_name, ".mp4"@),
    }
}

pub fn download_title(title: Option<&str>, output_name: &str) -> (r: String)
    ensures
        r@ == spec_download_title(
            match title {
                Some(t) => Some(t@),
                None => None,
            },
            output_name@,
        ),
{
    match title {
        Some(t) => {
            let v = sanitized_name_chars(t);
            if v.len() > 0 {
                return string_from_chars(&v);
            }
            proof {
                reveal_strlit("Streamkeep capture");
            }
            assert(false);
            string_from_chars(&v)
        },
        None => {
            let v = chars_of(output_name);
            let s = strip_suffix_chars(&v, ".mp4");
            string_from_chars(&s)
        },
    }
}

/// The quality recorded for a download: the given label unless missing or
/// blank, else `Best available`.
pub fn download_quality(quality_label: Option<String>) -> (r: String)
    ensures
        r@ == match quality_label {
            Some(q) => if !is_blank(q@) {
                q@
            } else {
                "Best available"@
            },
            None => "Best available"@,
        },
{
    match quality_label {
        Some(q) => if !blank(&q) {
            q
        } else {
            "Best available".to_owned()
        },
        None => "Best available".to_owned(),
    }
}

/// The history file in a download directory.
pub fn history_file_path(download_dir: &str) -> (r: String)
    ensures
        r@ == join_path(download_dir@, "history.json"@),
{
    let d = chars_of(download_dir);
    let n = chars_of("history.json");
    let p = join_path_chars(&d, &n);
    string_from_chars(&p)
}

/// The transport stream a download writes before the remux: the output
/// name without `.mp4`, with `.download.ts`, in the download directory.
pub fn temp_transport_path(download_dir: &str, output_name: &str) -> (r: String)
    ensures
        r@ == join_path(download_dir@, without_suffix(output_name@, ".mp4"@) + ".download.ts"@),
{
    let name = chars_of(output_name);
    let mut stem = strip_suffix_chars(&name, ".mp4");
    let ext = chars_of(".download.ts");
    push_all(&mut stem, &ext);
    let d = chars_of(download_dir);
    let p = join_path_chars(&d, &stem);
    string_from_chars(&p)
}

/// The path shown for a published video: the display name, under its
/// relative directory when there is one.
pub fn public_output_path(publish_result: &PublishToDownloadsResult) -> (r: String)
    ensures
        r@ == if publish_result.relative_path@.len() == 0 {
            publish_result.display_name@
        } else {
            publish_result.relative_path@ + seq!['/'] + publish_result.display_name@
        },
{
    let mut v = chars_of(publish_result.relative_path.as_str());
    if v.len() == 0 {
        return publish_result.display_name.clone();
    }
    v.push('/');
    let n = chars_of(publish_result.display_name.as_str());
    push_all(&mut v, &n);
    string_from_chars(&v)
}

/// The `attempt`-th name tried for a new file: the name itself first, then
/// `<stem> (<attempt>).mp4` with the stem the name without `.mp4`.
pub open spec fn candidate_name(file_name: Seq<char>, attempt: nat) -> Seq<char> {
    if attempt == 0 {
        file_name
    } else {
        without_suffix(file_name, ".mp4"@) + " ("@ + decimal(attempt) + ").mp4"@
    }
}

fn candidate_path(directory: &Vec<char>, file_name: &Vec<char>, attempt: u64) -> (r: String)
    ensures
        r@ == join_path(directory@, candidate_name(file_name@, attempt as nat)),
{
    if attempt == 0 {
        let p = join_path_chars(directory, file_name);
        return string_from_chars(&p);
    }
    let mut n = strip_suffix_chars(file_name, ".mp4");
    let open = chars_of(" (");
    push_all(&mut n, &open);
    push_decimal(&mut n, attempt);
    let close = chars_of(").mp4");
    push_all(&mut n, &close);
    let p = join_path_chars(directory, &n);
    string_from_chars(&p)
}

/// The path of the `attempt`-th candidate for `file_name` in `directory`.
pub open spec fn candidate_path_of(directory: Seq<char>, file_name: Seq<char>, attempt: nat) -> Seq<
    char,
> {
    join_path(directory, candidate_name(file_name, attempt))
}

/// A path for a new file named `file_name` in `directory`: the first
/// candidate (`candidate_name`, attempts 0 to 999) that `is_taken` reports
/// free, or attempt 999 when every one before it is reported taken. What
/// `is_taken` reports is the file system's business: the result is the
/// candidate of some attempt `k`, every earlier candidate was reported
/// taken, and the candidate itself was reported free unless `k` is 999.
pub fn unique_file_path<F: Fn(&String) -> bool>(directory: &str, file_name: &str, is_taken: F) -> (r:
    String)
    requires
        forall|p: &String| is_taken.requires((p,)),
    ensures
        exists|k: nat|
            {
                &&& k <= 999
                &&& r@ == candidate_path_of(directory@, file_name@, k)
                &&& (k < 999 ==> is_taken.ensures((&r,), false))
                &&& forall|j: nat|
                    j < k ==> exists|s: String|
                        s@ == #[trigger] candidate_path_of(directory@, file_name@, j)
                            && is_taken.ensures((&s,), true)
            },
{
    let d = chars_of(directory);
    let n = chars_of(file_name);
    let mut attempt: u64 = 0;
    while attempt < 999
        invariant
            attempt <= 999,
            d@ == directory@,
            n@ == file_name@,
            forall|p: &String| is_taken.requires((p,)),
            forall|j: nat|
                j < attempt ==> exists|s: String|
                    s@ == #[trigger] candidate_path_of(directory@, file_name@, j)
                        && is_taken.ensures((&s,), true),
        decreases 999 - attempt,
    {
        let candidate = candidate_path(&d, &n, attempt);
        if !is_taken(&candidate) {
            assert(candidate@ == candidate_path_of(directory@, file_name@, attempt as nat));
            return candidate;
        }
        proof {
            assert forall|j: nat| j < attempt + 1 implies exists|s: String|
                s@ == #[trigger] candidate_path_of(directory@, file_name@, j)
                    && is_taken.ensures((&s,), true) by {
                if j == attempt {
                    assert(candidate@ == candidate_path_of(directory@, file_name@, j));
                    assert(is_taken.ensures((&candidate,), true));
                }
            }
        }
        attempt = attempt + 1;
    }
    let last = candidate_path(&d, &n, 999);
    assert(last@ == candidate_path_of(directory@, file_name@, 999));
    last
}

/// The settings made of the stored folder and the platform default: the
/// stored folder unless missing or blank, else the default; custom when it
/// differs from the default.
pub fn download_settings_from(persisted_output_directory: Option<String>, default_output_directory: &str) -> (r:
    DownloadSettings)
    ensures
        r.output_directory@ == match persisted_output_directory {
            Some(p) => if !is_blank(p@) {
                p@
            } else {
                default_output_directory@
            },
            None => default_output_directory@,
        },
        r.default_output_directory@ == default_output_directory@,
        r.custom_output_directory == (r.output_directory@ != default_output_directory@),
{
    let default = default_output_directory.to_owned();
    let output_directory = match persisted_output_directory {
        Some(p) => if !blank(&p) {
            p
        } else {
            default.clone()
        },
        None => default.clone(),
    };
    let custom = output_directory != default;
    DownloadSettings {
        output_directory,
        default_output_directory: default,
        custom_output_directory: custom,
    }
}

/// The platform the app runs on, as far as the choice of folders goes.
#[derive(Debug, Clone, Copy, PartialEq, Eq, Structural)]
pub enum Platform {
    Android,
    Windows,
    Other,
}

/// The folder under which downloads go by default: `Movies` on Android;
/// on Windows the videos folder where it is known; elsewhere, and on
/// Windows without one, the downloads folder where it is known, else the
/// app's data folder (whose lookup error is the result where it failed).
pub open spec fn spec_download_base(
    platform: Platform,
    video_dir: Option<Seq<char>>,
    download_dir: Option<Seq<char>>,
    app_data_dir: Result<Seq<char>, Seq<char>>,
) -> Result<Seq<char>, Seq<char>> {
    if platform == Platform::Android {
        Ok("Movies"@)
    } else if platform == Platform::Windows && video_dir is Some {
        Ok(video_dir->0)
    } else if download_dir is Some {
        Ok(download_dir->0)
    } else {
        app_data_dir
    }
}

/// The default download folder: `Streamkeep` under the base folder that
/// `spec_download_base` picks from the platform's folders.
pub fn default_download_directory(
    platform: Platform,
    video_dir: Option<String>,
    download_dir: Option<String>,
    app_data_dir: Result<String, String>,
) -> (r: Result<String, String>)
    ensures
        match spec_download_base(
            platform,
            opt_view(video_dir),
            opt_view(download_dir),
            match app_data_dir {
                Ok(d) => Ok(d@),
                Err(e) => Err(e@),
            },
        ) {
            Ok(base) => r matches Ok(p) && p@ == join_path(base, "Streamkeep"@),
            Err(e) => r matches Err(m) && m@ == e,
        },
{
    let base: String = if platform == Platform::Android {
        "Movies".to_owned()
    } else {
        let windows_videos = if platform == Platform::Windows {
            video_dir
        } else {
            None
        };
        match windows_videos {
            Some(v) => v,
            None => match download_dir {
                Some(d) => d,
                None => match app_data_dir {
                    Ok(d) => d,
                    Err(e) => {
                        return Err(e);
                    },
                },
            },
        }
    };
    let b = chars_of(base.as_str());
    let n = chars_of("Streamkeep");
    let p = join_path_chars(&b, &n);
    Ok(string_from_chars(&p))
}

/// The folder a user chose, trimmed; a blank choice is refused.
pub fn validated_output_directory(output_directory: &str) -> (r: Result<String, String>)
    ensures
        trim_set(output_directory@, TrimSet::Whitespace).len() == 0 ==> (r matches Err(m) && m@
            == "Choose a Streamkeep output folder"@),
        trim_set(output_directory@, TrimSet::Whitespace).len() > 0 ==> (r matches Ok(p) && p@
            == trim_set(output_directory@, TrimSet::Whitespace)),
{
    let v = chars_of(output_directory);
    let t = trim_chars(&v, TrimSet::Whitespace);
    if t.len() == 0 {
        return Err("Choose a Streamkeep output folder".to_owned());
    }
    Ok(string_from_chars(&t))
}

/// Time after which a job's progress is stored again even if unchanged
/// (milliseconds).
pub const HISTORY_PROGRESS_PERSIST_INTERVAL_MS: u64 = 2000;

/// A job's progress is stored when its stage or percentage changed since
/// the last store, or two seconds passed.
pub fn should_persist_progress(
    last_status: Option<DownloadJobStatus>,
    last_percent: Option<u8>,
    status: DownloadJobStatus,
    percent: Option<u8>,
    elapsed_ms: u64,
) -> (r: bool)
    ensures
        r == (last_status != Some(status) || last_percent != percent || elapsed_ms >= 2000),
{
    let status_changed = match last_status {
        Some(s) => s != status,
        None => true,
    };
    let percent_changed = match (last_percent, percent) {
        (Some(a), Some(b)) => a != b,
        (None, None) => false,
        _ => true,
    };
    status_changed || percent_changed || elapsed_ms >= HISTORY_PROGRESS_PERSIST_INTERVAL_MS
}

/// The report of a failed job: nothing counted, the error as message.
pub fn failed_progress(message: String) -> (r: DownloadProgress)
    ensures
        r.status == DownloadStatus::Failed,
        r.completed_segments == 0,
        r.total_segments is None,
        r.current_segment_index is None,
        r.current_segment_downloaded_bytes is None,
        r.current_segment_total_bytes is None,
        r.downloaded_bytes == 0,
        r.total_bytes is None,
        opt_view(r.message) == Some(message@),
{
    let mut p = DownloadProgress::queued();
    p.status = DownloadStatus::Failed;
    p.message = Some(message);
    p
}

/// The stages after the segments are downloaded.
#[derive(Debug, Clone)]
pub enum FinishingStage {
    /// The transport stream is being remuxed.
    Remuxing,
    /// The MP4 is being saved.
    Saving,
    /// The MP4 is saved.
    Saved,
}

/// The report of a finishing stage for `segments` segments and `bytes`
/// bytes (downloaded, remuxed or saved, as the stage has them).
pub fn finishing_progress(stage: FinishingStage, segments: u32, bytes: u64) -> (r: DownloadProgress)
    ensures
        r.status == match stage {
            FinishingStage::Saved => DownloadStatus::Done,
            _ => DownloadStatus::Remuxing,
        },
        r.completed_segments == segments,
        r.total_segments == Some(segments),
        r.current_segment_index is None,
        r.current_segment_downloaded_bytes is None,
        r.current_segment_total_bytes is None,
        r.downloaded_bytes == bytes,
        r.total_bytes == match stage {
            FinishingStage::Saved => Some(bytes),
            _ => None::<u64>,
        },
        opt_view(r.message) == Some(
            match stage {
                FinishingStage::Remuxing => "remuxing transport stream"@,
                FinishingStage::Saving => "saving mp4"@,
                FinishingStage::Saved => "saved mp4"@,
            },
        ),
{
    let mut p = DownloadProgress::queued();
    p.completed_segments = segments;
    p.total_segments = Some(segments);
    p.downloaded_bytes = bytes;
    match stage {
        FinishingStage::Remuxing => {
            p.status = DownloadStatus::Remuxing;
            p.message = Some("remuxing transport stream".to_owned());
        },
        FinishingStage::Saving => {
            p.status = DownloadStatus::Remuxing;
            p.message = Some("saving mp4".to_owned());
        },
        FinishingStage::Saved => {
            p.status = DownloadStatus::Done;
            p.total_bytes = Some(bytes);
            p.message = Some("saved mp4".to_owned());
        },
    }
    p
}


/// Every name that `sanitize_file_name` returns is non-empty, holds no
/// reserved or control character, has single spaces between words as its
/// only whitespace, and neither starts nor ends with `.` or ` `.
pub proof fn sanitized_name_is_clean(s: Seq<char>)
    ensures
        is_clean_in(sanitized_name(s), TrimSet::DotSpace),
{
    let m = s.map_values(|c: char| name_char(c));
    assert forall|k: int| 0 <= k < m.len() implies is_safe_char(#[trigger] m[k]) by {
        assert(m[k] == name_char(s[k]));
    }
    lemma_words_props(m);
    lemma_words_nonempty(m);
    lemma_join_props(words(m));
    lemma_trim_set_props(collapse_whitespace(m), TrimSet::DotSpace);
    let cleaned = trim_set(collapse_whitespace(m), TrimSet::DotSpace);
    if cleaned.len() == 0 {
        reveal_strlit("Streamkeep capture");
        let f = "Streamkeep capture"@;
        assert(is_single_spaced(f));
        assert(all_safe(f));
    }
}

/// Sanitizing a sanitized file name changes nothing.
pub proof fn sanitize_file_name_idempotent(s: Seq<char>)
    ensures
        sanitized_name(sanitized_name(s)) == sanitized_name(s),
{
    let y = sanitized_name(s);
    sanitized_name_is_clean(s);
    let m = y.map_values(|c: char| name_char(c));
    assert(m =~= y);
    lemma_collapse_clean(y);
    lemma_leading_count(y, TrimSet::DotSpace, 0);
    lemma_trailing_count(y, TrimSet::DotSpace, 0);
    assert(trim_set(y, TrimSet::DotSpace) =~= y);
}

/// Adding the extension twice is adding it once, and the result ends in
/// `.mp4`.
pub proof fn ensure_mp4_extension_once(s: Seq<char>)
    ensures
        has_mp4_suffix(with_mp4_extension(s)),
        with_mp4_extension(with_mp4_extension(s)) == with_mp4_extension(s),
{
    reveal_strlit(".mp4");
    if !has_mp4_suffix(s) {
        let z = s + ".mp4"@;
        assert(z[z.len() - 4] == '.');
        assert(z[z.len() - 3] == 'm');
        assert(z[z.len() - 2] == 'p');
        assert(z[z.len() - 1] == '4');
    }
}

/// A character that file names lose entirely: whitespace, a control
/// character, a dot or a reserved character.
pub open spec fn is_dropped_name_char(c: char) -> bool {
    is_unicode_whitespace(c) || is_unicode_control(c) || c == '.' || is_reserved_path_char(c)
}

proof fn lemma_trim_empty(x: Seq<char>, t: TrimSet)
    ensures
        (trim_set(x, t).len() == 0) == (forall|i: int| 0 <= i < x.len() ==> in_trim_set(t, #[trigger] x[i])),
{
    lemma_trim_bounds(x, t);
    if forall|i: int| 0 <= i < x.len() ==> in_trim_set(t, #[trigger] x[i]) {
        lemma_leading_count(x, t, x.len() as int);
    }
    if trim_set(x, t).len() == 0 {
        assert(leading_count(x, t) >= x.len()) by {
            if leading_count(x, t) < x.len() {
                assert(trim_set(x, t).len() == x.len() - trailing_count(x, t) - leading_count(x, t));
            }
        }
    }
}

/// `sanitize_file_name` falls back to `Streamkeep capture` where the name
/// has nothing but whitespace, control characters, dots and reserved
/// characters; any other name gives its cleaned form, which is not empty.
pub proof fn sanitized_name_fallback(s: Seq<char>)
    ensures
        (forall|i: int| 0 <= i < s.len() ==> is_dropped_name_char(#[trigger] s[i])) ==> sanitized_name(s)
            == "Streamkeep capture"@,
        (exists|i: int| 0 <= i < s.len() && !is_dropped_name_char(#[trigger] s[i])) ==> {
            let cleaned = trim_set(
                collapse_whitespace(s.map_values(|c: char| name_char(c))),
                TrimSet::DotSpace,
            );
            cleaned.len() > 0 && sanitized_name(s) == cleaned
        },
{
    let m = s.map_values(|c: char| name_char(c));
    let col = collapse_whitespace(m);
    lemma_trim_empty(col, TrimSet::DotSpace);
    if forall|i: int| 0 <= i < s.len() ==> is_dropped_name_char(#[trigger] s[i]) {
        assert forall|i: int| 0 <= i < m.len() implies is_unicode_whitespace(#[trigger] m[i]) || m[i]
            == '.' by {
            assert(is_dropped_name_char(s[i]));
        }
        lemma_words_of_dots(m);
        lemma_join_of_dots(words(m));
        assert forall|i: int| 0 <= i < col.len() implies in_trim_set(TrimSet::DotSpace, #[trigger] col[i]) by {
        }
    }
    if exists|i: int| 0 <= i < s.len() && !is_dropped_name_char(#[trigger] s[i]) {
        let j = choose|i: int| 0 <= i < s.len() && !is_dropped_name_char(#[trigger] s[i]);
        assert(m[j] == s[j]);
        lemma_words_keep(m, j);
        let (k, i) = choose|k: int, i: int|
            0 <= k < words(m).len() && 0 <= i < words(m)[k].len() && #[trigger] words(m)[k][i] == m[j];
        lemma_join_keep(words(m), k, i);
        let p = choose|p: int| 0 <= p < col.len() && #[trigger] col[p] == words(m)[k][i];
        assert(!in_trim_set(TrimSet::DotSpace, col[p]));
    }
}

} // verus!
