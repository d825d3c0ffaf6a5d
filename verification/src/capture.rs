//! Requests and replies of the capture plugin (player, remux, publishing),
//! and the desktop rules for paths and player URLs.

use vstd::prelude::*;
use crate::hls::opt_view;
use crate::text::{
    chars_of, has_prefix, lemma_leading_count, lemma_trailing_count, push_all, starts_with_chars,
    string_from_chars, subrange_chars, trim_chars, trim_set, TrimSet,
};
use crate::urls::{is_url_error_text, parse_error_message, parse_url, url_parse};

verus! {

#[derive(Debug, Clone)]
pub struct OpenPlayerRequest {
    pub url: Option<String>,
}

#[derive(Debug, Clone)]
pub struct PlayerLoadUrlRequest {
    pub url: String,
}

/// What the embedded player shows.
#[derive(Debug, Clone)]
pub struct PlayerState {
    pub supported: bool,
    pub visible: bool,
    pub loading: bool,
    pub url: Option<String>,
    pub title: Option<String>,
    pub can_go_back: bool,
    pub can_go_forward: bool,
}

#[derive(Debug, Clone)]
pub struct RemuxToMp4Request {
    pub input_path: String,
    pub output_path: String,
}

#[derive(Debug, Clone)]
pub struct RemuxToMp4Result {
    pub output_path: String,
    pub track_count: u32,
    pub output_bytes: u64,
}

#[derive(Debug, Clone)]
pub struct PublishToDownloadsRequest {
    pub input_path: String,
    pub display_name: String,
}

/// Where a published video ended up.
#[derive(Debug, Clone)]
pub struct PublishToDownloadsResult {
    pub content_uri: String,
    pub display_name: String,
    pub relative_path: String,
    pub output_bytes: u64,
}

#[derive(Debug, Clone)]
pub struct DeletePublishedDownloadRequest {
    pub content_uri: String,
}

#[derive(Debug, Clone)]
pub struct OpenUriRequest {
    pub content_uri: String,
    pub mime_type: Option<String>,
}

/// What the desktop player's window reports, when it is open: whether it
/// is visible (`None` where the query failed), its URL and its title.
#[derive(Debug, Clone)]
pub struct PlayerWindow {
    pub visible: Option<bool>,
    pub url: Option<String>,
    pub title: Option<String>,
}

/// The state of the desktop player: supported; with an open window, its
/// visibility (visible where unknown), URL and title; without one, hidden
/// with no URL or title. The desktop player never loads or goes back or
/// forward.
pub fn desktop_player_state(window: Option<PlayerWindow>) -> (r: PlayerState)
    ensures
        r.supported,
        !r.loading,
        !r.can_go_back,
        !r.can_go_forward,
        match window {
            Some(w) => {
                &&& r.visible == match w.visible {
                    Some(v) => v,
                    None => true,
                }
                &&& opt_view(r.url) == opt_view(w.url)
                &&& opt_view(r.title) == opt_view(w.title)
            },
            None => !r.visible && r.url is None && r.title is None,
        },
{
    match window {
        Some(w) => PlayerState {
            supported: true,
            visible: match w.visible {
                Some(v) => v,
                None => true,
            },
            loading: false,
            url: w.url,
            title: w.title,
            can_go_back: false,
            can_go_forward: false,
        },
        None => PlayerState {
            supported: true,
            visible: false,
            loading: false,
            url: None,
            title: None,
            can_go_back: false,
            can_go_forward: false,
        },
    }
}

/// `value` without a leading `file://`, trimmed.
pub open spec fn uri_path(value: Seq<char>) -> Seq<char> {
    trim_set(
        if has_prefix(value, "file://"@) {
            value.subrange(7, value.len() as int)
        } else {
            value
        },
        TrimSet::Whitespace,
    )
}

/// The local path named by a `file://` URI or a plain path: the scheme is
/// dropped and the rest trimmed; nothing left is an error.
pub fn desktop_path_from_uri(value: &str) -> (r: Result<String, String>)
    ensures
        uri_path(value@).len() == 0 ==> (r matches Err(m) && m@
            == "No Streamkeep file path was provided"@),
        uri_path(value@).len() > 0 ==> (r matches Ok(p) && p@ == uri_path(value@)),
{
    proof {
        reveal_strlit("file://");
    }
    let v = chars_of(value);
    let scheme = chars_of("file://");
    let rest = if starts_with_chars(&v, &scheme) {
        subrange_chars(&v, 7, v.len())
    } else {
        subrange_chars(&v, 0, v.len())
    };
    assert(v@.subrange(0, v@.len() as int) =~= v@);
    let target = trim_chars(&rest, TrimSet::Whitespace);
    if target.len() == 0 {
        return Err("No Streamkeep file path was provided".to_owned());
    }
    Ok(string_from_chars(&target))
}

/// The address the desktop player opens for `value`: `https://example.com`
/// when none is given; trimmed; `https://` put in front unless it starts
/// with `http://` or `https://`.
pub open spec fn player_address(value: Option<Seq<char>>) -> Seq<char> {
    let trimmed = trim_set(
        match value {
            Some(v) => v,
            None => "https://example.com"@,
        },
        TrimSet::Whitespace,
    );
    if has_prefix(trimmed, "http://"@) || has_prefix(trimmed, "https://"@) {
        trimmed
    } else {
        "https://"@ + trimmed
    }
}

/// The URL the desktop player navigates to: `player_address(value)` parsed
/// with `url::Url::parse` (its serialization); a parse error becomes
/// `Invalid Streamkeep player URL: ` followed by the error's own message.
pub fn normalize_desktop_url(value: Option<&str>) -> (r: Result<String, String>)
    ensures
        match url_parse(player_address(opt_str_view(value))) {
            Some(u) => r matches Ok(s) && s@ == u,
            None => r matches Err(m) && has_prefix(m@, "Invalid Streamkeep player URL: "@)
                && is_url_error_text(
                m@.subrange("Invalid Streamkeep player URL: "@.len() as int, m@.len() as int),
            ),
        },
{
    let raw = match value {
        Some(v) => chars_of(v),
        None => chars_of("https://example.com"),
    };
    let trimmed = trim_chars(&raw, TrimSet::Whitespace);
    let http = chars_of("http://");
    let https = chars_of("https://");
    let with_scheme = if starts_with_chars(&trimmed, &http) || starts_with_chars(&trimmed, &https) {
        trimmed
    } else {
        let mut w = chars_of("https://");
        push_all(&mut w, &trimmed);
        w
    };
    let candidate = string_from_chars(&with_scheme);
    match parse_url(candidate.as_str()) {
        Ok(u) => Ok(u),
        Err(e) => {
            let mut m = chars_of("Invalid Streamkeep player URL: ");
            let detail = parse_error_message(e);
            let d = chars_of(detail.as_str());
            let ghost prefix = m@;
            push_all(&mut m, &d);
            proof {
                assert(m@.subrange(0, prefix.len() as int) =~= prefix);
                assert(m@.subrange(prefix.len() as int, m@.len() as int) =~= d@);
            }
            Err(string_from_chars(&m))
        },
    }
}

pub open spec fn opt_str_view(o: Option<&str>) -> Option<Seq<char>> {
    match o {
        Some(s) => Some(s@),
        None => None,
    }
}

/// `s` holds no `/`, the separator of every platform's paths.
pub open spec fn has_no_slash(s: Seq<char>) -> bool {
    forall|k: int| 0 <= k < s.len() ==> s[k] != '/'
}

/// The name of the final component of `path` (`Path::file_name` as UTF-8).
/// Claimed: a name, when there is one, is one whole component, so it is not
/// empty and holds no `/`. Which component that is, and when there is none,
/// depends on the platform's path rules and is left unsaid.
#[verifier::external_body]
fn path_file_name(path: &str) -> (r: Option<String>)
    ensures
        r matches Some(n) ==> n@.len() > 0 && has_no_slash(n@),
{
    std::path::Path::new(path).file_name().and_then(|n| n.to_str()).map(|n| n.to_owned())
}

/// The parent of `path` (`Path::parent`, lossily as text).
/// Claimed: a parent is `path` without its final component, so it is a
/// prefix of `path`. Where that component starts depends on the platform's
/// path rules and is left unsaid.
#[verifier::external_body]
fn path_parent(path: &str) -> (r: Option<String>)
    ensures
        r matches Some(p) ==> p@.is_prefix_of(path@),
{
    std::path::Path::new(path).parent().map(|p| p.to_string_lossy().to_string())
}

pub open spec fn is_blank(s: Seq<char>) -> bool {
    trim_set(s, TrimSet::Whitespace).len() == 0
}

pub fn blank(s: &String) -> (r: bool)
    ensures
        r == is_blank(s@),
{
    let v = chars_of(s.as_str());
    let t = trim_chars(&v, TrimSet::Whitespace);
    t.len() == 0
}

/// The display name of a published file: the input's file name unless
/// missing or blank, else the requested name's file name unless missing or
/// blank, else `Streamkeep capture.mp4`.
pub open spec fn published_name(input_name: Option<Seq<char>>, requested_name: Option<Seq<char>>) -> Seq<
    char,
> {
    if input_name is Some && !is_blank(input_name->0) {
        input_name->0
    } else if requested_name is Some && !is_blank(requested_name->0) {
        requested_name->0
    } else {
        "Streamkeep capture.mp4"@
    }
}

/// The fallback display name is a plain file name: not blank, and free of `/`.
proof fn lemma_fallback_name()
    ensures
        has_no_slash("Streamkeep capture.mp4"@),
        !is_blank("Streamkeep capture.mp4"@),
{
    reveal_strlit("Streamkeep capture.mp4");
    let s = "Streamkeep capture.mp4"@;
    lemma_leading_count(s, TrimSet::Whitespace, 0);
    lemma_trailing_count(s, TrimSet::Whitespace, 0);
    assert(trim_set(s, TrimSet::Whitespace) == s);
}

/// The result of publishing the file at `input_path` on the desktop, given
/// the file names and parent directory that the platform's path rules find
/// and the file's size.
pub fn desktop_publish_result(
    input_path: &str,
    input_name: Option<String>,
    requested_name: Option<String>,
    parent: Option<String>,
    output_bytes: u64,
) -> (r: PublishToDownloadsResult)
    ensures
        r.content_uri@ == "file://"@ + input_path@,
        r.display_name@ == published_name(opt_view(input_name), opt_view(requested_name)),
        r.relative_path@ == match parent {
            Some(p) => p@,
            None => Seq::<char>::empty(),
        },
        r.output_bytes == output_bytes,
{
    let display_name = match input_name {
        Some(n) if !blank(&n) => n,
        _ => match requested_name {
            Some(n) if !blank(&n) => n,
            _ => "Streamkeep capture.mp4".to_owned(),
        },
    };
    let relative_path = match parent {
        Some(p) => p,
        None => String::new(),
    };
    let mut uri = chars_of("file://");
    let path = chars_of(input_path);
    push_all(&mut uri, &path);
    PublishToDownloadsResult {
        content_uri: string_from_chars(&uri),
        display_name,
        relative_path,
        output_bytes,
    }
}

/// What publishing the file at `request.input_path` on the desktop reports,
/// for a file of `output_bytes` bytes: the file's own name, the parent
/// directory and a `file://` URI.
pub fn publish_to_desktop_file(request: &PublishToDownloadsRequest, output_bytes: u64) -> (r:
    PublishToDownloadsResult)
    ensures
        r.content_uri@ == "file://"@ + request.input_path@,
        r.output_bytes == output_bytes,
        r.relative_path@.len() == 0 || r.relative_path@.is_prefix_of(request.input_path@),
        has_no_slash(r.display_name@),
        !is_blank(r.display_name@),
{
    let input_name = path_file_name(request.input_path.as_str());
    let requested_name = path_file_name(request.display_name.as_str());
    let parent = path_parent(request.input_path.as_str());
    proof {
        lemma_fallback_name();
    }
    desktop_publish_result(request.input_path.as_str(), input_name, requested_name, parent, output_bytes)
}

} // verus!
