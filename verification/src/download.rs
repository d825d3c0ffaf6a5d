//! Download requests, progress reports and media playlist planning.

use vstd::prelude::*;
use crate::binary64::{
    divided_by, f64_le, f64_quotient, lemma_floor_monotone, lemma_quotient_monotone,
    lemma_quotient_props, lemma_u64_as_f64_bounds, lemma_two_to_add, floor_at_scale, lemma_two_to_monotone, lemma_two_to_positive,
    lemma_u64_as_f64_monotone, lemma_powers, min_significand, quotient_of, sum_quotient,
    times_hundred, two_to, u64_as_f64, u64_as_f64_exec,
};
use crate::hls::{hls_error_message, opt_view, result_view, HlsError, HlsErrorView};
use crate::playlist::{m3u8_playlist, parse_playlist_bytes, KeyMethodKind, PlaylistModel, SegmentModel};
use crate::text::{chars_of, push_all, string_from_chars, trim_chars, trim_set, TrimSet};
use crate::urls::{join_url, parse_url, url_join, url_parse};

verus! {

#[verifier::external_type_specification]
#[verifier::external_body]
pub struct ExInvalidHeaderValue(reqwest::header::InvalidHeaderValue);

#[verifier::external_type_specification]
#[verifier::external_body]
pub struct ExReqwestError(reqwest::Error);

#[verifier::external_type_specification]
#[verifier::external_body]
pub struct ExIoError(std::io::Error);

/// Why a download could not be planned or carried out.
#[derive(Debug)]
#[allow(inconsistent_fields)]
pub enum DownloadError {
    Hls(HlsError),
    InvalidMediaPlaylist { reason: String },
    ExpectedMediaPlaylist,
    EmptyMediaPlaylist,
    UnsupportedMediaPlaylist { reason: String },
    InvalidMediaPlaylistUrl { value: String, source: url::ParseError },
    InvalidSegmentUrl { base_url: String, value: String, source: url::ParseError },
    InvalidHeader { name: String, source: reqwest::header::InvalidHeaderValue },
    /// An HTTP request failed; the I/O side reports it.
    Http { url: String, source: reqwest::Error },
    /// A file operation failed; the I/O side reports it, with the path as text.
    Io { path: String, source: std::io::Error },
    NoVariant,
}

/// A `DownloadError` without the error values of other crates it carries.
pub enum DownloadErrorView {
    Hls(HlsErrorView),
    InvalidMediaPlaylist { reason: Seq<char> },
    ExpectedMediaPlaylist,
    EmptyMediaPlaylist,
    UnsupportedMediaPlaylist { reason: Seq<char> },
    InvalidMediaPlaylistUrl { value: Seq<char> },
    InvalidSegmentUrl { base_url: Seq<char>, value: Seq<char> },
    InvalidHeader { name: Seq<char> },
    Http { url: Seq<char> },
    Io { path: Seq<char> },
    NoVariant,
}

impl View for DownloadError {
    type V = DownloadErrorView;

    open spec fn view(&self) -> DownloadErrorView {
        match self {
            DownloadError::Hls(e) => DownloadErrorView::Hls(e@),
            DownloadError::InvalidMediaPlaylist { reason } =>
                DownloadErrorView::InvalidMediaPlaylist { reason: reason@ },
            DownloadError::ExpectedMediaPlaylist => DownloadErrorView::ExpectedMediaPlaylist,
            DownloadError::EmptyMediaPlaylist => DownloadErrorView::EmptyMediaPlaylist,
            DownloadError::UnsupportedMediaPlaylist { reason } =>
                DownloadErrorView::UnsupportedMediaPlaylist { reason: reason@ },
            DownloadError::InvalidMediaPlaylistUrl { value, .. } =>
                DownloadErrorView::InvalidMediaPlaylistUrl { value: value@ },
            DownloadError::InvalidSegmentUrl { base_url, value, .. } =>
                DownloadErrorView::InvalidSegmentUrl { base_url: base_url@, value: value@ },
            DownloadError::InvalidHeader { name, .. } => DownloadErrorView::InvalidHeader {
                name: name@,
            },
            DownloadError::Http { url, .. } => DownloadErrorView::Http { url: url@ },
            DownloadError::Io { path, .. } => DownloadErrorView::Io { path: path@ },
            DownloadError::NoVariant => DownloadErrorView::NoVariant,
        }
    }
}

/// The message a `DownloadError` is shown with; an `Hls` error is shown as
/// its own.
pub open spec fn download_error_message(e: DownloadErrorView) -> Seq<char> {
    match e {
        DownloadErrorView::Hls(h) => hls_error_message(h),
        DownloadErrorView::InvalidMediaPlaylist { reason } =>
            "failed to parse media playlist: "@ + reason,
        DownloadErrorView::ExpectedMediaPlaylist =>
            "expected a media playlist, got a master playlist"@,
        DownloadErrorView::EmptyMediaPlaylist => "media playlist did not contain segments"@,
        DownloadErrorView::UnsupportedMediaPlaylist { reason } =>
            "unsupported media playlist: "@ + reason,
        DownloadErrorView::InvalidMediaPlaylistUrl { value } =>
            "invalid media playlist URL `"@ + value + "`"@,
        DownloadErrorView::InvalidSegmentUrl { base_url, value } =>
            "failed to resolve segment URL `"@ + value + "` against `"@ + base_url + "`"@,
        DownloadErrorView::InvalidHeader { name } => "invalid request header `"@ + name + "`"@,
        DownloadErrorView::Http { url } => "http request failed for `"@ + url + "`"@,
        DownloadErrorView::Io { path } => "file operation failed for `"@ + path + "`"@,
        DownloadErrorView::NoVariant => "no variant was available in the master playlist"@,
    }
}

/// `prefix`, then `middle`, then `suffix`, as one string.
fn framed(prefix: &str, middle: &String, suffix: &str) -> (r: String)
    ensures
        r@ == prefix@ + middle@ + suffix@,
{
    let mut s = String::from_str(prefix);
    s.append(middle.as_str());
    s.append(suffix);
    s
}

impl DownloadError {
    /// The message this error is shown with.
    pub fn message(&self) -> (r: String)
        ensures
            r@ == download_error_message(self@),
    {
        match self {
            DownloadError::Hls(h) => h.message(),
            DownloadError::InvalidMediaPlaylist { reason } => {
                let mut s = String::from_str("failed to parse media playlist: ");
                s.append(reason.as_str());
                s
            },
            DownloadError::ExpectedMediaPlaylist => String::from_str(
                "expected a media playlist, got a master playlist",
            ),
            DownloadError::EmptyMediaPlaylist => String::from_str(
                "media playlist did not contain segments",
            ),
            DownloadError::UnsupportedMediaPlaylist { reason } => {
                let mut s = String::from_str("unsupported media playlist: ");
                s.append(reason.as_str());
                s
            },
            DownloadError::InvalidMediaPlaylistUrl { value, .. } => framed(
                "invalid media playlist URL `",
                value,
                "`",
            ),
            DownloadError::InvalidSegmentUrl { base_url, value, .. } => {
                let mut s = framed("failed to resolve segment URL `", value, "` against `");
                s.append(base_url.as_str());
                s.append("`");
                s
            },
            DownloadError::InvalidHeader { name, .. } => framed("invalid request header `", name, "`"),
            DownloadError::Http { url, .. } => framed("http request failed for `", url, "`"),
            DownloadError::Io { path, .. } => framed("file operation failed for `", path, "`"),
            DownloadError::NoVariant => String::from_str(
                "no variant was available in the master playlist",
            ),
        }
    }
}

/// What to download and how to ask for it.
#[derive(Debug, Clone)]
pub struct DownloadRequest {
    pub master_url: String,
    pub media_playlist_url: Option<String>,
    pub referer: Option<String>,
    pub user_agent: Option<String>,
    pub cookies: Option<String>,
    pub output_name: String,
}

/// The stage a download is in.
#[derive(Debug, Clone, Copy, PartialEq, Eq, Structural)]
pub enum DownloadStatus {
    Queued,
    Preparing,
    Downloading,
    Remuxing,
    Done,
    Failed,
    Cancelled,
}

/// One progress report of a download.
#[derive(Debug, Clone)]
pub struct DownloadProgress {
    pub status: DownloadStatus,
    pub completed_segments: u32,
    pub total_segments: Option<u32>,
    pub current_segment_index: Option<u32>,
    pub current_segment_downloaded_bytes: Option<u64>,
    pub current_segment_total_bytes: Option<u64>,
    pub downloaded_bytes: u64,
    pub total_bytes: Option<u64>,
    pub message: Option<String>,
}

pub open spec fn min_int(a: int, b: int) -> int {
    if a <= b {
        a
    } else {
        b
    }
}

/// The part of the current segment that has arrived, as the `f64` that
/// `downloaded.min(total) as f64 / total as f64` gives (`(m, k)` for
/// `m / 2^k`, see `binary64`); zero where the segment's size is not known.
pub open spec fn segment_share(p: DownloadProgress) -> (nat, nat) {
    match (p.current_segment_downloaded_bytes, p.current_segment_total_bytes) {
        (Some(d), Some(t)) => if t > 0 {
            f64_quotient(
                u64_as_f64(
                    if d <= t {
                        d
                    } else {
                        t
                    },
                ),
                u64_as_f64(t),
            )
        } else {
            (0, 0)
        },
        _ => (0, 0),
    }
}

/// `(completed + share) * 100 / segments`, each of the three operations
/// rounded to the nearest `f64` as `f64` arithmetic rounds it, then rounded
/// down.
pub open spec fn segment_percent(completed: nat, segments: nat, share: (nat, nat)) -> nat {
    let (pm, pk) = share;
    let (sm, sk) = f64_quotient(completed * two_to(pk) + pm, two_to(pk));
    let (hm, hk) = f64_quotient(100 * sm, two_to(sk));
    let (qm, qk) = f64_quotient(hm, segments * two_to(hk));
    qm / two_to(qk)
}

/// The completion percentage of a progress report, rounded down: by bytes
/// where the total byte count is known and positive, else by segments
/// (completed segments, capped at the total, plus the arrived share of the
/// current segment, in `f64` arithmetic, the result cast to `u8` with
/// saturation), else unknown.
pub open spec fn spec_percent(p: DownloadProgress) -> Option<u8> {
    if p.total_bytes is Some && p.total_bytes->0 > 0 {
        let t = p.total_bytes->0 as int;
        Some(((min_int(p.downloaded_bytes as int, t) * 100) / t) as u8)
    } else {
        match p.total_segments {
            None => None,
            Some(s) => if s == 0 {
                Some(0)
            } else {
                let c = min_int(p.completed_segments as int, s as int);
                let v = segment_percent(c as nat, s as nat, segment_share(p));
                Some(
                    if v <= 255 {
                        v as u8
                    } else {
                        255
                    },
                )
            },
        }
    }
}

/// The inputs on which `percent` computes without overflow.
pub open spec fn percent_computable(p: DownloadProgress) -> bool {
    p.total_bytes is Some && p.total_bytes->0 > 0 ==> min_int(
        p.downloaded_bytes as int,
        p.total_bytes->0 as int,
    ) * 100 <= u64::MAX
}

impl DownloadProgress {
    /// A report of a download that has not started.
    pub fn queued() -> (r: Self)
        ensures
            r.status == DownloadStatus::Queued,
            r.completed_segments == 0,
            r.total_segments is None,
            r.current_segment_index is None,
            r.current_segment_downloaded_bytes is None,
            r.current_segment_total_bytes is None,
            r.downloaded_bytes == 0,
            r.total_bytes is None,
            r.message is None,
    {
        DownloadProgress {
            status: DownloadStatus::Queued,
            completed_segments: 0,
            total_segments: None,
            current_segment_index: None,
            current_segment_downloaded_bytes: None,
            current_segment_total_bytes: None,
            downloaded_bytes: 0,
            total_bytes: None,
            message: None,
        }
    }

    /// The same report with `message` as its message.
    pub fn with_message(self, message: &str) -> (r: Self)
        ensures
            r.status == self.status,
            r.completed_segments == self.completed_segments,
            r.total_segments == self.total_segments,
            r.current_segment_index == self.current_segment_index,
            r.current_segment_downloaded_bytes == self.current_segment_downloaded_bytes,
            r.current_segment_total_bytes == self.current_segment_total_bytes,
            r.downloaded_bytes == self.downloaded_bytes,
            r.total_bytes == self.total_bytes,
            opt_view(r.message) == Some(message@),
    {
        let mut r = self;
        r.message = Some(message.to_owned());
        r
    }

    /// The completion percentage (see `spec_percent`).
    pub fn percent(&self) -> (r: Option<u8>)
        requires
            percent_computable(*self),
        ensures
            r == spec_percent(*self),
    {
        if let Some(total_bytes) = self.total_bytes {
            if total_bytes > 0 {
                let d = if self.downloaded_bytes < total_bytes {
                    self.downloaded_bytes
                } else {
                    total_bytes
                };
                proof {
                    assert(d * 100 / (total_bytes as int) <= 100) by (nonlinear_arith)
                        requires
                            d <= total_bytes,
                            total_bytes > 0,
                    ;
                }
                return Some(((d * 100) / total_bytes) as u8);
            }
        }
        let total_segments = match self.total_segments {
            Some(s) => s,
            None => {
                return None;
            },
        };
        if total_segments == 0 {
            return Some(0);
        }
        let c: u32 = if self.completed_segments < total_segments {
            self.completed_segments
        } else {
            total_segments
        };
        proof {
            lemma_powers();
        }
        let share: (u128, u64) = match (
            self.current_segment_downloaded_bytes,
            self.current_segment_total_bytes,
        ) {
            (Some(dl), Some(t)) => if t > 0 {
                let a = if dl <= t {
                    dl
                } else {
                    t
                };
                let ax = u64_as_f64_exec(a);
                let bx = u64_as_f64_exec(t);
                proof {
                    lemma_u64_as_f64_monotone(a, t);
                }
                quotient_of(ax, bx)
            } else {
                (0, 0)
            },
            _ => (0, 0),
        };
        let (pm, pk) = share;
        proof {
            if pm != 0 {
                let (a, t) = (
                    self.current_segment_downloaded_bytes->0,
                    self.current_segment_total_bytes->0,
                );
                let ax = u64_as_f64(if a <= t { a } else { t });
                let bx = u64_as_f64(t);
                if pk < 52 {
                    lemma_two_to_monotone(pk as nat, 51);
                    lemma_two_to_positive(pk as nat);
                    assert(ax * two_to(pk as nat) < min_significand() * bx) by (nonlinear_arith)
                        requires
                            ax <= bx,
                            bx >= 1,
                            two_to(pk as nat) <= 0x8_0000_0000_0000,
                    ;
                    assert(false);
                }
            }
            assert(two_to(0) == 1);
        }
        let (sm, sk) = if pm == 0 {
            quotient_of(c as u128, 1)
        } else {
            sum_quotient(c as u128, pm, pk)
        };
        proof {
            if pm == 0 {
                assert(pk == 0);
                assert(c * two_to(0) + 0 == c * 1);
            }
        }
        if sm == 0 {
            proof {
                assert(c == 0 && pm == 0);
            }
            return Some(0);
        }
        proof {
            if pm == 0 && sk < 7 {
                lemma_two_to_monotone(sk as nat, 6);
                assert(c * two_to(sk as nat) < min_significand()) by (nonlinear_arith)
                    requires
                        c <= 0xffff_ffff,
                        two_to(sk as nat) <= 64,
                ;
                assert(false);
            }
        }
        let (hm, hk) = times_hundred(sm, sk);
        let (qm, qk) = divided_by(hm, hk, total_segments as u128);
        let v = floor_at_scale(qm, qk);
        if v <= 255 {
            Some(v as u8)
        } else {
            Some(255)
        }
    }
}

/// Completed segments beyond the total count as the total: the percentage
/// of a report is that of the same report with its completed count capped.
pub proof fn percent_caps_completed_segments(p: DownloadProgress, total: u32)
    requires
        p.total_segments == Some(total),
    ensures
        spec_percent(p) == spec_percent(
            DownloadProgress {
                completed_segments: if p.completed_segments <= total {
                    p.completed_segments
                } else {
                    total
                },
                ..p
            },
        ),
{
}

/// Where the total byte count is known and positive, the percentage is the
/// byte share (at most 100) whatever the segment counts say.
pub proof fn percent_prefers_bytes(p: DownloadProgress, q: DownloadProgress)
    requires
        p.total_bytes is Some && p.total_bytes->0 > 0,
        q.total_bytes == p.total_bytes,
        q.downloaded_bytes == p.downloaded_bytes,
    ensures
        spec_percent(p) == spec_percent(q),
        spec_percent(p) matches Some(x) && x <= 100,
{
    let t = p.total_bytes->0 as int;
    let d = min_int(p.downloaded_bytes as int, t);
    assert(d * 100 / t <= 100) by (nonlinear_arith)
        requires
            0 <= d <= t,
            t > 0,
    ;
}

/// A report of a download that has not started has no percentage.
pub proof fn queued_has_no_percent(p: DownloadProgress)
    requires
        p.total_bytes is None,
        p.total_segments is None,
    ensures
        spec_percent(p) is None,
{
}

/// A share as `segment_share` gives it: zero, or a 53-bit significand at a
/// scale from 52 to 116 (a value of at most 1).
pub open spec fn share_ok(s: (nat, nat)) -> bool {
    s == (0nat, 0nat) || (min_significand() <= s.0 <= 2 * min_significand() && 52 <= s.1 <= 116)
}

proof fn lemma_small_powers()
    ensures
        two_to(6) == 64,
        two_to(7) == 128,
        two_to(11) == 2048,
        two_to(18) == 0x4_0000,
        two_to(19) == 0x8_0000,
        two_to(52) == 0x10_0000_0000_0000,
        two_to(64) == 0x1_0000_0000_0000_0000,
        two_to(116) == 0x10_0000_0000_0000 * 0x1_0000_0000_0000_0000,
        two_to(148) == 0x1_0000_0000 * two_to(116),
{
    reveal_with_fuel(two_to, 20);
    lemma_powers();
    lemma_two_to_add(52, 64);
    lemma_two_to_add(32, 116);
    lemma_two_to_add(20, 12);
    assert(two_to(32) == 0x1_0000_0000) by {
        lemma_two_to_add(20, 12);
        reveal_with_fuel(two_to, 13);
    }
}

proof fn lemma_share_of(a: u64, b: u64)
    requires
        a <= b,
        b >= 1,
    ensures
        share_ok(f64_quotient(u64_as_f64(a), u64_as_f64(b))),
{
    lemma_small_powers();
    lemma_u64_as_f64_monotone(a, b);
    lemma_u64_as_f64_bounds(a);
    lemma_u64_as_f64_bounds(b);
    let x = u64_as_f64(a);
    let y = u64_as_f64(b);
    let s = min_significand();
    assert(x * two_to(116) >= s * y || x == 0) by (nonlinear_arith)
        requires
            x >= 1 || x == 0,
            y <= 0x1_0000_0000_0000_0000,
            two_to(116) == s * 0x1_0000_0000_0000_0000,
    ;
    assert(x < 2 * s * y) by (nonlinear_arith)
        requires
            x <= y,
            y >= 1,
            s == 0x10_0000_0000_0000,
    ;
    lemma_quotient_props(x, y, 116);
    if x > 0 {
        let k = f64_quotient(x, y).1;
        lemma_two_to_positive(k);
        if k < 52 {
            lemma_two_to_monotone(k, 51);
            assert(two_to(51) == 0x8_0000_0000_0000) by {
                lemma_two_to_add(51, 1);
                reveal_with_fuel(two_to, 2);
            }
            let t = two_to(k);
            assert(x * t <= y * 0x8_0000_0000_0000) by (nonlinear_arith)
                requires
                    x <= y,
                    t <= 0x8_0000_0000_0000,
            ;
        }
    }
}

proof fn lemma_sum_step(c: nat, sh: (nat, nat))
    requires
        c <= 0x1_0000_0000,
        share_ok(sh),
    ensures
        ({
            let n = c * two_to(sh.1) + sh.0;
            let d = two_to(sh.1);
            &&& d >= 1
            &&& n < 2 * min_significand() * d
            &&& (n == 0 || n * two_to(255) >= min_significand() * d)
            &&& (n == 0 ==> f64_quotient(n, d) == (0nat, 0nat))
            &&& (n > 0 ==> min_significand() <= f64_quotient(n, d).0 <= 2 * min_significand()
                && 19 <= f64_quotient(n, d).1 <= 116)
        }),
{
    lemma_small_powers();
    let s = min_significand();
    let (pm, pk) = sh;
    let d = two_to(pk);
    let n = c * d + pm;
    lemma_two_to_positive(pk);
    lemma_two_to_monotone(pk, 255);
    lemma_two_to_monotone(52, 255);
    if pk > 0 {
        lemma_two_to_monotone(52, pk);
    }
    assert(pm <= 2 * d);
    assert(n < 0x4_0000_0000 * d) by (nonlinear_arith)
        requires
            n == c * d + pm,
            c <= 0x1_0000_0000,
            pm <= 2 * d,
            d >= 1,
    ;
    assert(n == 0 || n * two_to(255) >= s * d) by (nonlinear_arith)
        requires
            n == c * d + pm,
            pm == 0 ==> (d == 1 && pk == 0),
            pm >= s || pm == 0,
            d <= two_to(255),
            two_to(255) >= s,
            d >= 1,
    ;
    lemma_quotient_props(n, d, 255);
    if n > 0 {
        let k = f64_quotient(n, d).1;
        lemma_two_to_positive(k);
        // The scale is at most the share's (or 52 for a whole count).
        if pm > 0 {
            assert(n * two_to(pk) >= s * d) by (nonlinear_arith)
                requires
                    n >= pm,
                    pm >= s,
                    d == two_to(pk),
            ;
        } else {
            assert(sh == (0nat, 0nat));
            assert(two_to(0) == 1);
            assert(c * 1 == c);
            assert(n * two_to(52) >= s * d) by (nonlinear_arith)
                requires
                    n == c,
                    c >= 1,
                    d == 1,
                    two_to(52) == s,
            ;
        }
        if k < 19 {
            lemma_two_to_monotone(k, 18);
            assert(n * two_to(k) < s * d) by (nonlinear_arith)
                requires
                    n < 0x4_0000_0000 * d,
                    two_to(k) <= 0x4_0000,
                    d >= 1,
                    s == 0x10_0000_0000_0000,
            ;
        }
    }
}

proof fn lemma_hundred_step(sm: nat, sk: nat)
    requires
        (sm == 0 && sk == 0) || (min_significand() <= sm <= 2 * min_significand() && 19 <= sk <= 116),
    ensures
        ({
            let n = 100 * sm;
            let d = two_to(sk);
            &&& d >= 1
            &&& n < 2 * min_significand() * d
            &&& (n == 0 || n * two_to(255) >= min_significand() * d)
            &&& (n == 0 ==> f64_quotient(n, d) == (0nat, 0nat))
            &&& (n > 0 ==> min_significand() <= f64_quotient(n, d).0 <= 2 * min_significand()
                && 12 <= f64_quotient(n, d).1 <= 116)
        }),
{
    lemma_small_powers();
    let s = min_significand();
    let n = 100 * sm;
    let d = two_to(sk);
    lemma_two_to_positive(sk);
    lemma_two_to_monotone(sk, 255);
    assert(two_to(0) == 1);
    if sm == 0 {
        assert(n == 0 && d == 1);
        assert(2 * s * d > 0) by (nonlinear_arith)
            requires
                d == 1,
                s == 0x10_0000_0000_0000,
        ;
    }
    if sm > 0 {
        lemma_two_to_monotone(19, sk);
        assert(n < 2 * s * d) by (nonlinear_arith)
            requires
                n == 100 * sm,
                sm <= 2 * s,
                d >= 0x8_0000,
                s == 0x10_0000_0000_0000,
        ;
        assert(n * two_to(255) >= s * d) by (nonlinear_arith)
            requires
                n >= s,
                d <= two_to(255),
        ;
    }
    lemma_quotient_props(n, d, 255);
    if n > 0 {
        let k = f64_quotient(n, d).1;
        lemma_two_to_positive(k);
        assert(n * two_to(sk) >= s * d) by (nonlinear_arith)
            requires
                n >= s,
                d == two_to(sk),
        ;
        if k < 12 {
            lemma_two_to_monotone(k, 11);
            assert(n * two_to(k) < s * d) by (nonlinear_arith)
                requires
                    n == 100 * sm,
                    sm <= 2 * s,
                    two_to(k) <= 2048,
                    d >= 0x8_0000,
                    s == 0x10_0000_0000_0000,
            ;
        }
    }
}

proof fn lemma_divide_step(hm: nat, hk: nat, segments: nat)
    requires
        (hm == 0 && hk == 0) || (min_significand() <= hm <= 2 * min_significand() && 12 <= hk <= 116),
        1 <= segments <= 0xffff_ffff,
    ensures
        ({
            let d = segments * two_to(hk);
            &&& d >= 1
            &&& hm < 2 * min_significand() * d
            &&& (hm == 0 || hm * two_to(255) >= min_significand() * d)
        }),
{
    lemma_small_powers();
    let s = min_significand();
    lemma_two_to_positive(hk);
    let d = segments * two_to(hk);
    assert(d >= 1) by (nonlinear_arith)
        requires
            d == segments * two_to(hk),
            segments >= 1,
            two_to(hk) >= 1,
    ;
    assert(2 * s * d > 0) by (nonlinear_arith)
        requires
            d >= 1,
            s >= 1,
    ;
    if hm > 0 {
        lemma_two_to_monotone(12, hk);
        lemma_two_to_monotone(hk, 116);
        lemma_two_to_add(20, 0);
        assert(two_to(12) >= 2) by {
            lemma_two_to_monotone(1, 12);
            reveal_with_fuel(two_to, 2);
        }
        assert(d >= 2) by (nonlinear_arith)
            requires
                d == segments * two_to(hk),
                segments >= 1,
                two_to(hk) >= 2,
        ;
        assert(hm < 2 * s * d) by (nonlinear_arith)
            requires
                hm <= 2 * s,
                d >= 2,
                s >= 1,
        ;
        lemma_two_to_monotone(148, 255);
        assert(hm * two_to(255) >= s * d) by (nonlinear_arith)
            requires
                hm >= s,
                d == segments * two_to(hk),
                segments <= 0x1_0000_0000,
                two_to(hk) <= two_to(116),
                two_to(148) == 0x1_0000_0000 * two_to(116),
                two_to(148) <= two_to(255),
        ;
    }
}

/// More completed segments or a larger share of the current segment never
/// give a smaller percentage.
pub proof fn lemma_segment_percent_monotone(c1: nat, c2: nat, segments: nat, s1: (nat, nat), s2: (nat, nat))
    requires
        c1 <= c2 <= segments,
        1 <= segments <= 0xffff_ffff,
        share_ok(s1),
        share_ok(s2),
        f64_le(s1, s2),
    ensures
        segment_percent(c1, segments, s1) <= segment_percent(c2, segments, s2),
{
    let s = min_significand();
    lemma_sum_step(c1, s1);
    lemma_sum_step(c2, s2);
    let n1 = c1 * two_to(s1.1) + s1.0;
    let d1 = two_to(s1.1);
    let n2 = c2 * two_to(s2.1) + s2.0;
    let d2 = two_to(s2.1);
    assert(n1 * d2 <= n2 * d1) by (nonlinear_arith)
        requires
            n1 == c1 * d1 + s1.0,
            n2 == c2 * d2 + s2.0,
            c1 <= c2,
            s1.0 * d2 <= s2.0 * d1,
            d1 >= 1,
            d2 >= 1,
    ;
    lemma_quotient_monotone(n1, d1, n2, d2, 255);
    let (sm1, sk1) = f64_quotient(n1, d1);
    let (sm2, sk2) = f64_quotient(n2, d2);
    lemma_hundred_step(sm1, sk1);
    lemma_hundred_step(sm2, sk2);
    assert(100 * sm1 * two_to(sk2) <= 100 * sm2 * two_to(sk1)) by (nonlinear_arith)
        requires
            sm1 * two_to(sk2) <= sm2 * two_to(sk1),
    ;
    lemma_quotient_monotone(100 * sm1, two_to(sk1), 100 * sm2, two_to(sk2), 255);
    let (hm1, hk1) = f64_quotient(100 * sm1, two_to(sk1));
    let (hm2, hk2) = f64_quotient(100 * sm2, two_to(sk2));
    lemma_divide_step(hm1, hk1, segments);
    lemma_divide_step(hm2, hk2, segments);
    assert(hm1 * (segments * two_to(hk2)) <= hm2 * (segments * two_to(hk1))) by (nonlinear_arith)
        requires
            hm1 * two_to(hk2) <= hm2 * two_to(hk1),
    ;
    lemma_quotient_monotone(hm1, segments * two_to(hk1), hm2, segments * two_to(hk2), 255);
    lemma_floor_monotone(
        f64_quotient(hm1, segments * two_to(hk1)),
        f64_quotient(hm2, segments * two_to(hk2)),
    );
}

/// The percentage never decreases when the downloaded byte count, the
/// completed segment count or the current segment's byte count grows, all
/// else equal.
pub proof fn percent_is_monotone(p1: DownloadProgress, p2: DownloadProgress)
    requires
        percent_computable(p1),
        percent_computable(p2),
        p2.status == p1.status,
        p2.total_segments == p1.total_segments,
        p2.current_segment_index == p1.current_segment_index,
        p2.current_segment_total_bytes == p1.current_segment_total_bytes,
        p2.total_bytes == p1.total_bytes,
        ({
            ||| (p1.downloaded_bytes <= p2.downloaded_bytes && p2.completed_segments
                == p1.completed_segments && p2.current_segment_downloaded_bytes
                == p1.current_segment_downloaded_bytes)
            ||| (p1.completed_segments <= p2.completed_segments && p2.downloaded_bytes
                == p1.downloaded_bytes && p2.current_segment_downloaded_bytes
                == p1.current_segment_downloaded_bytes)
            ||| (p1.current_segment_downloaded_bytes matches Some(a) && p2.current_segment_downloaded_bytes
                matches Some(b) && a <= b && p2.downloaded_bytes == p1.downloaded_bytes
                && p2.completed_segments == p1.completed_segments)
        }),
    ensures
        spec_percent(p1) is Some <==> spec_percent(p2) is Some,
        spec_percent(p1) matches Some(x) ==> spec_percent(p2) matches Some(y) && x <= y,
{
    if p1.total_bytes is Some && p1.total_bytes->0 > 0 {
        let t = p1.total_bytes->0 as int;
        let a = min_int(p1.downloaded_bytes as int, t);
        let b = min_int(p2.downloaded_bytes as int, t);
        assert(a <= b);
        assert(a * 100 / t <= b * 100 / t && b * 100 / t <= 100) by (nonlinear_arith)
            requires
                0 <= a <= b <= t,
                t > 0,
        ;
    } else if p1.total_segments is Some && p1.total_segments->0 > 0 {
        let n = p1.total_segments->0;
        let c1 = min_int(p1.completed_segments as int, n as int);
        let c2 = min_int(p2.completed_segments as int, n as int);
        let sh1 = segment_share(p1);
        let sh2 = segment_share(p2);
        match (p1.current_segment_downloaded_bytes, p1.current_segment_total_bytes) {
            (Some(d1), Some(t)) => {
                if t > 0 {
                    let d2 = p2.current_segment_downloaded_bytes->0;
                    let a1: u64 = if d1 <= t { d1 } else { t };
                    let a2: u64 = if d2 <= t { d2 } else { t };
                    lemma_share_of(a1, t);
                    lemma_share_of(a2, t);
                    lemma_u64_as_f64_monotone(a1, a2);
                    lemma_u64_as_f64_monotone(a2, t);
                    lemma_u64_as_f64_bounds(t);
                    lemma_small_powers();
                    let x1 = u64_as_f64(a1);
                    let x2 = u64_as_f64(a2);
                    let y = u64_as_f64(t);
                    assert(x1 * y <= x2 * y) by (nonlinear_arith)
                        requires
                            x1 <= x2,
                    ;
                    lemma_u64_as_f64_monotone(a1, t);
                    assert(x1 == 0 || x1 * two_to(116) >= min_significand() * y) by (nonlinear_arith)
                        requires
                            y <= 0x1_0000_0000_0000_0000,
                            two_to(116) == min_significand() * 0x1_0000_0000_0000_0000,
                    ;
                    assert(x2 == 0 || x2 * two_to(116) >= min_significand() * y) by (nonlinear_arith)
                        requires
                            y <= 0x1_0000_0000_0000_0000,
                            two_to(116) == min_significand() * 0x1_0000_0000_0000_0000,
                    ;
                    lemma_quotient_monotone(x1, y, x2, y, 116);
                } else {
                    assert(f64_le(sh1, sh2));
                }
            },
            _ => {
                assert(f64_le(sh1, sh2));
            },
        }
        assert(share_ok(sh1) && share_ok(sh2) && f64_le(sh1, sh2)) by {
            if !(p1.current_segment_downloaded_bytes is Some && p1.current_segment_total_bytes is Some
                && p1.current_segment_total_bytes->0 > 0) {
                assert(sh1 == (0nat, 0nat));
            }
        }
        lemma_segment_percent_monotone(c1 as nat, c2 as nat, n as nat, sh1, sh2);
    }
}

/// A segment of a media playlist to fetch.
#[derive(Debug, Clone)]
pub struct MediaSegmentPlan {
    pub index: u32,
    pub url: String,
    /// The bits of the segment duration in seconds (an IEEE 754 single).
    pub duration_bits: u32,
}

pub struct MediaSegmentPlanView {
    pub index: u32,
    pub url: Seq<char>,
    pub duration_bits: u32,
}

impl View for MediaSegmentPlan {
    type V = MediaSegmentPlanView;

    open spec fn view(&self) -> MediaSegmentPlanView {
        MediaSegmentPlanView { index: self.index, url: self.url@, duration_bits: self.duration_bits }
    }
}

/// The segments to fetch for a media playlist.
#[derive(Debug, Clone)]
pub struct MediaPlaylistPlan {
    pub media_playlist_url: String,
    pub segments: Vec<MediaSegmentPlan>,
    pub target_duration_seconds: u64,
    pub end_list: bool,
}

pub struct MediaPlaylistPlanView {
    pub media_playlist_url: Seq<char>,
    pub segments: Seq<MediaSegmentPlanView>,
    pub target_duration_seconds: u64,
    pub end_list: bool,
}

pub open spec fn segments_view(s: Seq<MediaSegmentPlan>) -> Seq<MediaSegmentPlanView> {
    s.map_values(|p: MediaSegmentPlan| p@)
}

impl View for MediaPlaylistPlan {
    type V = MediaPlaylistPlanView;

    open spec fn view(&self) -> MediaPlaylistPlanView {
        MediaPlaylistPlanView {
            media_playlist_url: self.media_playlist_url@,
            segments: segments_view(self.segments@),
            target_duration_seconds: self.target_duration_seconds,
            end_list: self.end_list,
        }
    }
}

/// What the transport stream download produced.
#[derive(Debug, Clone)]
pub struct SegmentDownloadResult {
    pub media_playlist_url: String,
    pub transport_stream_path: String,
    pub completed_segments: u32,
    pub downloaded_bytes: u64,
}

pub open spec fn map_segment_reason() -> Seq<char> {
    "fMP4 EXT-X-MAP segments need the MP4 remux path"@
}

pub open spec fn byte_range_reason() -> Seq<char> {
    "byte-range segments are not supported in the MVP"@
}

pub open spec fn encrypted_reason() -> Seq<char> {
    "encrypted HLS segments are not supported in the MVP"@
}

/// `index` as a `u32`, `u32::MAX` where it does not fit.
pub open spec fn segment_index(index: nat) -> u32 {
    if index <= u32::MAX {
        index as u32
    } else {
        u32::MAX
    }
}

/// The plan of one segment: refused when it needs an `EXT-X-MAP`, a byte
/// range or decryption; else its URI resolved against the playlist URL.
pub open spec fn spec_segment_plan(media_playlist_url: Seq<char>, index: nat, seg: SegmentModel) -> Result<
    MediaSegmentPlanView,
    DownloadErrorView,
> {
    if seg.has_map {
        Err(DownloadErrorView::UnsupportedMediaPlaylist { reason: map_segment_reason() })
    } else if seg.has_byte_range {
        Err(DownloadErrorView::UnsupportedMediaPlaylist { reason: byte_range_reason() })
    } else if seg.key_method is Some && !(seg.key_method->0 is Unencrypted) {
        Err(DownloadErrorView::UnsupportedMediaPlaylist { reason: encrypted_reason() })
    } else {
        match url_join(media_playlist_url, seg.uri@) {
            None => Err(
                DownloadErrorView::InvalidSegmentUrl {
                    base_url: media_playlist_url,
                    value: seg.uri@,
                },
            ),
            Some(url) => Ok(
                MediaSegmentPlanView {
                    index: segment_index(index),
                    url,
                    duration_bits: seg.duration_bits,
                },
            ),
        }
    }
}

/// The plans of the first `n` segments; the first refusal is the result.
pub open spec fn spec_segment_plans(
    media_playlist_url: Seq<char>,
    segments: Seq<SegmentModel>,
    n: nat,
) -> Result<Seq<MediaSegmentPlanView>, DownloadErrorView>
    decreases n,
{
    if n == 0 {
        Ok(Seq::empty())
    } else {
        match spec_segment_plans(media_playlist_url, segments, (n - 1) as nat) {
            Err(e) => Err(e),
            Ok(s) => match spec_segment_plan(media_playlist_url, (n - 1) as nat, segments[n - 1]) {
                Err(e) => Err(e),
                Ok(p) => Ok(s.push(p)),
            },
        }
    }
}

/// What `parse_media_playlist` returns.
pub open spec fn spec_parse_media(media_playlist_url: Seq<char>, body: Seq<u8>) -> Result<
    MediaPlaylistPlanView,
    DownloadErrorView,
> {
    if url_parse(media_playlist_url) is None {
        Err(DownloadErrorView::InvalidMediaPlaylistUrl { value: media_playlist_url })
    } else {
        match m3u8_playlist(body) {
            Err(reason) => Err(DownloadErrorView::InvalidMediaPlaylist { reason }),
            Ok(PlaylistModel::Master(_)) => Err(DownloadErrorView::ExpectedMediaPlaylist),
            Ok(PlaylistModel::Media(p)) => if p.segments@.len() == 0 {
                Err(DownloadErrorView::EmptyMediaPlaylist)
            } else {
                match spec_segment_plans(media_playlist_url, p.segments@, p.segments@.len()) {
                    Err(e) => Err(e),
                    Ok(segments) => Ok(
                        MediaPlaylistPlanView {
                            media_playlist_url,
                            segments,
                            target_duration_seconds: p.target_duration,
                            end_list: p.end_list,
                        },
                    ),
                }
            },
        }
    }
}

proof fn lemma_segment_plans_err(
    media_playlist_url: Seq<char>,
    segments: Seq<SegmentModel>,
    k: nat,
    n: nat,
)
    requires
        k <= n,
        spec_segment_plans(media_playlist_url, segments, k) is Err,
    ensures
        spec_segment_plans(media_playlist_url, segments, n) == spec_segment_plans(
            media_playlist_url,
            segments,
            k,
        ),
    decreases n,
{
    if n > k {
        lemma_segment_plans_err(media_playlist_url, segments, k, (n - 1) as nat);
    }
}

fn unsupported(reason: &str) -> (r: DownloadError)
    ensures
        r@ == (DownloadErrorView::UnsupportedMediaPlaylist { reason: reason@ }),
{
    DownloadError::UnsupportedMediaPlaylist { reason: reason.to_owned() }
}

fn segment_plan(media_playlist_url: &str, index: usize, seg: &SegmentModel) -> (r: Result<
    MediaSegmentPlan,
    DownloadError,
>)
    ensures
        result_view(r) == spec_segment_plan(media_playlist_url@, index as nat, *seg),
{
    if seg.has_map {
        return Err(unsupported("fMP4 EXT-X-MAP segments need the MP4 remux path"));
    }
    if seg.has_byte_range {
        return Err(unsupported("byte-range segments are not supported in the MVP"));
    }
    if let Some(method) = &seg.key_method {
        let clear = match method {
            KeyMethodKind::Unencrypted => true,
            _ => false,
        };
        if !clear {
            return Err(unsupported("encrypted HLS segments are not supported in the MVP"));
        }
    }
    let url = match join_url(media_playlist_url, seg.uri.as_str()) {
        Ok(u) => u,
        Err(source) => {
            return Err(
                DownloadError::InvalidSegmentUrl {
                    base_url: media_playlist_url.to_owned(),
                    value: seg.uri.clone(),
                    source,
                },
            );
        },
    };
    let index32: u32 = if index <= u32::MAX as usize {
        index as u32
    } else {
        u32::MAX
    };
    Ok(MediaSegmentPlan { index: index32, url, duration_bits: seg.duration_bits })
}

/// Plans the download of the media playlist `playlist_body` found at
/// `media_playlist_url`: the URL must parse (`InvalidMediaPlaylistUrl`), the
/// body must parse (`InvalidMediaPlaylist`) as a media playlist
/// (`ExpectedMediaPlaylist`) with segments (`EmptyMediaPlaylist`); each
/// segment, in order, must need no `EXT-X-MAP`, byte range or decryption
/// (`UnsupportedMediaPlaylist`) and its URI must resolve against the
/// playlist URL (`InvalidSegmentUrl`).
pub fn parse_media_playlist(media_playlist_url: &str, playlist_body: &[u8]) -> (r: Result<
    MediaPlaylistPlan,
    DownloadError,
>)
    ensures
        result_view(r) == spec_parse_media(media_playlist_url@, playlist_body@),
        r matches Ok(p) ==> p.segments@.len() > 0,
{
    match parse_url(media_playlist_url) {
        Ok(_) => {},
        Err(source) => {
            return Err(
                DownloadError::InvalidMediaPlaylistUrl {
                    value: media_playlist_url.to_owned(),
                    source,
                },
            );
        },
    }
    let playlist = match parse_playlist_bytes(playlist_body) {
        Ok(PlaylistModel::Media(p)) => p,
        Ok(PlaylistModel::Master(_)) => {
            return Err(DownloadError::ExpectedMediaPlaylist);
        },
        Err(reason) => {
            return Err(DownloadError::InvalidMediaPlaylist { reason });
        },
    };
    let n = playlist.segments.len();
    if n == 0 {
        return Err(DownloadError::EmptyMediaPlaylist);
    }
    let mut segments: Vec<MediaSegmentPlan> = Vec::new();
    let mut i: usize = 0;
    assert(segments_view(segments@) =~= Seq::<MediaSegmentPlanView>::empty());
    while i < n
        invariant
            n == playlist.segments@.len(),
            i <= n,
            segments@.len() == i,
            url_parse(media_playlist_url@) is Some,
            m3u8_playlist(playlist_body@) == Ok::<PlaylistModel, Seq<char>>(
                PlaylistModel::Media(playlist),
            ),
            spec_segment_plans(media_playlist_url@, playlist.segments@, i as nat) == Ok::<
                Seq<MediaSegmentPlanView>,
                DownloadErrorView,
            >(segments_view(segments@)),
        decreases n - i,
    {
        match segment_plan(media_playlist_url, i, &playlist.segments[i]) {
            Ok(p) => {
                let ghost prev = segments@;
                let ghost pv = p@;
                segments.push(p);
                assert(segments_view(segments@) =~= segments_view(prev).push(pv));
            },
            Err(e) => {
                proof {
                    lemma_segment_plans_err(
                        media_playlist_url@,
                        playlist.segments@,
                        (i + 1) as nat,
                        n as nat,
                    );
                }
                return Err(e);
            },
        }
        i = i + 1;
    }
    Ok(
        MediaPlaylistPlan {
            media_playlist_url: media_playlist_url.to_owned(),
            segments,
            target_duration_seconds: playlist.target_duration,
            end_list: playlist.end_list,
        },
    )
}


/// A request header that a download may set.
#[derive(Debug, Clone, Copy, PartialEq, Eq, Structural)]
pub enum RequestHeader {
    UserAgent,
    Referer,
    Cookie,
}

/// The lower-case name of a header.
pub open spec fn header_name(h: RequestHeader) -> Seq<char> {
    match h {
        RequestHeader::UserAgent => "user-agent"@,
        RequestHeader::Referer => "referer"@,
        RequestHeader::Cookie => "cookie"@,
    }
}

fn header_name_string(h: RequestHeader) -> (r: String)
    ensures
        r@ == header_name(h),
{
    match h {
        RequestHeader::UserAgent => "user-agent".to_owned(),
        RequestHeader::Referer => "referer".to_owned(),
        RequestHeader::Cookie => "cookie".to_owned(),
    }
}

/// A header to send with every request of a download.
#[derive(Debug, Clone)]
pub struct HeaderEntry {
    pub header: RequestHeader,
    pub value: String,
}

impl View for HeaderEntry {
    type V = (RequestHeader, Seq<char>);

    open spec fn view(&self) -> (RequestHeader, Seq<char>) {
        (self.header, self.value@)
    }
}

/// A character that may stand in an HTTP header value: a tab, or anything
/// from the space up but DEL (bytes of multi-byte characters are all
/// accepted).
pub open spec fn is_header_value_char(c: char) -> bool {
    c == '\t' || (' ' <= c && c != '\u{7f}')
}

pub open spec fn valid_header_value(s: Seq<char>) -> bool {
    forall|i: int| 0 <= i < s.len() ==> is_header_value_char(#[trigger] s[i])
}

/// Checks `value` with `reqwest::header::HeaderValue::from_str`, which
/// accepts exactly the texts whose every byte is a tab or at least 32 and
/// not 127.
#[verifier::external_body]
fn check_header_value(value: &str) -> (r: Result<(), reqwest::header::InvalidHeaderValue>)
    ensures
        r is Ok <==> valid_header_value(value@),
{
    reqwest::header::HeaderValue::from_str(value).map(|_| ())
}

/// The entry for one optional header: none when the value is absent or
/// blank, else the trimmed value, which must be a valid header value.
pub open spec fn spec_header_entry(h: RequestHeader, value: Option<String>) -> Result<
    Option<(RequestHeader, Seq<char>)>,
    DownloadErrorView,
> {
    match value {
        None => Ok(None),
        Some(v) => {
            let t = trim_set(v@, TrimSet::Whitespace);
            if t.len() == 0 {
                Ok(None)
            } else if !valid_header_value(t) {
                Err(DownloadErrorView::InvalidHeader { name: header_name(h) })
            } else {
                Ok(Some((h, t)))
            }
        },
    }
}

pub open spec fn push_entry(
    acc: Result<Seq<(RequestHeader, Seq<char>)>, DownloadErrorView>,
    e: Result<Option<(RequestHeader, Seq<char>)>, DownloadErrorView>,
) -> Result<Seq<(RequestHeader, Seq<char>)>, DownloadErrorView> {
    match acc {
        Err(x) => Err(x),
        Ok(s) => match e {
            Err(x) => Err(x),
            Ok(None) => Ok(s),
            Ok(Some(h)) => Ok(s.push(h)),
        },
    }
}

/// The headers of a request: user agent, referer and cookies, in that
/// order, each where given and not blank.
pub open spec fn spec_headers(request: DownloadRequest) -> Result<
    Seq<(RequestHeader, Seq<char>)>,
    DownloadErrorView,
> {
    push_entry(
        push_entry(
            push_entry(
                Ok(Seq::empty()),
                spec_header_entry(RequestHeader::UserAgent, request.user_agent),
            ),
            spec_header_entry(RequestHeader::Referer, request.referer),
        ),
        spec_header_entry(RequestHeader::Cookie, request.cookies),
    )
}

pub open spec fn entries_view(s: Seq<HeaderEntry>) -> Seq<(RequestHeader, Seq<char>)> {
    s.map_values(|e: HeaderEntry| e@)
}

fn insert_header(headers: &mut Vec<HeaderEntry>, header: RequestHeader, value: &Option<String>) -> (r:
    Result<(), DownloadError>)
    ensures
        match r {
            Ok(()) => push_entry(
                Ok(entries_view(old(headers)@)),
                spec_header_entry(header, *value),
            ) == Ok::<Seq<(RequestHeader, Seq<char>)>, DownloadErrorView>(
                entries_view(final(headers)@),
            ),
            Err(e) => spec_header_entry(header, *value) == Err::<
                Option<(RequestHeader, Seq<char>)>,
                DownloadErrorView,
            >(e@),
        },
{
    let v = match value {
        None => {
            return Ok(());
        },
        Some(v) => v,
    };
    let chars = chars_of(v.as_str());
    let trimmed = trim_chars(&chars, TrimSet::Whitespace);
    if trimmed.len() == 0 {
        return Ok(());
    }
    let text = string_from_chars(&trimmed);
    match check_header_value(text.as_str()) {
        Ok(()) => {},
        Err(source) => {
            return Err(DownloadError::InvalidHeader { name: header_name_string(header), source });
        },
    }
    let ghost prev = headers@;
    let entry = HeaderEntry { header, value: text };
    let ghost ev = entry@;
    headers.push(entry);
    assert(entries_view(headers@) =~= entries_view(prev).push(ev));
    Ok(())
}

/// The headers to send with every request of `request`: the trimmed user
/// agent, referer and cookies, in that order, each only where given and not
/// blank; the first one that is not a valid header value is
/// `InvalidHeader` with its lower-case name.
pub fn headers_for_request(request: &DownloadRequest) -> (r: Result<Vec<HeaderEntry>, DownloadError>)
    ensures
        match r {
            Ok(h) => spec_headers(*request) == Ok::<
                Seq<(RequestHeader, Seq<char>)>,
                DownloadErrorView,
            >(entries_view(h@)),
            Err(e) => spec_headers(*request) == Err::<
                Seq<(RequestHeader, Seq<char>)>,
                DownloadErrorView,
            >(e@),
        },
{
    let mut headers: Vec<HeaderEntry> = Vec::new();
    assert(entries_view(headers@) =~= Seq::<(RequestHeader, Seq<char>)>::empty());
    match insert_header(&mut headers, RequestHeader::UserAgent, &request.user_agent) {
        Ok(()) => {},
        Err(e) => {
            return Err(e);
        },
    }
    match insert_header(&mut headers, RequestHeader::Referer, &request.referer) {
        Ok(()) => {},
        Err(e) => {
            return Err(e);
        },
    }
    match insert_header(&mut headers, RequestHeader::Cookie, &request.cookies) {
        Ok(()) => {},
        Err(e) => {
            return Err(e);
        },
    }
    Ok(headers)
}

/// A segment that can be downloaded as it is: no `EXT-X-MAP`, no byte
/// range, and no `EXT-X-KEY` or one whose method is `NONE`.
pub open spec fn segment_is_plain(seg: SegmentModel) -> bool {
    &&& !seg.has_map
    &&& !seg.has_byte_range
    &&& match seg.key_method {
        None => true,
        Some(KeyMethodKind::Unencrypted) => true,
        Some(_) => false,
    }
}

proof fn lemma_plans_ok_plain(media_playlist_url: Seq<char>, segments: Seq<SegmentModel>, n: nat)
    requires
        n <= segments.len(),
    ensures
        spec_segment_plans(media_playlist_url, segments, n) matches Ok(s) ==> {
            &&& s.len() == n
            &&& forall|k: int|
                #![trigger segments[k]]
                0 <= k < n ==> segment_is_plain(segments[k]) && url_join(
                    media_playlist_url,
                    segments[k].uri@,
                ) == Some(s[k].url) && s[k].duration_bits == segments[k].duration_bits
                    && s[k].index == (if k <= u32::MAX { k as u32 } else { u32::MAX })
        },
    decreases n,
{
    if n > 0 {
        lemma_plans_ok_plain(media_playlist_url, segments, (n - 1) as nat);
    }
}

proof fn lemma_plans_of_plain_prefix(media_playlist_url: Seq<char>, segments: Seq<SegmentModel>, n: nat)
    requires
        n <= segments.len(),
        forall|k: int|
            #![trigger segments[k]]
            0 <= k < n ==> segment_is_plain(segments[k]) && url_join(
                media_playlist_url,
                segments[k].uri@,
            ) is Some,
    ensures
        spec_segment_plans(media_playlist_url, segments, n) is Ok,
    decreases n,
{
    if n > 0 {
        lemma_plans_of_plain_prefix(media_playlist_url, segments, (n - 1) as nat);
        assert(segment_is_plain(segments[n - 1]));
    }
}

/// A media playlist is planned only when every segment can be downloaded
/// as it is: a plan has one entry per segment, in order, each the
/// segment's URI resolved against the playlist URL, and no segment of it
/// needs an `EXT-X-MAP`, a byte range or decryption. A segment under an
/// `EXT-X-KEY` whose method is not `NONE` (AES-128, SAMPLE-AES or any
/// other) is refused as encrypted when it is the first segment that cannot
/// be planned. Each planned segment keeps its duration and is numbered by
/// its place in the playlist.
pub proof fn media_plan_only_of_plain_segments(media_playlist_url: Seq<char>, body: Seq<u8>)
    ensures
        spec_parse_media(media_playlist_url, body) matches Ok(plan) ==> {
            &&& m3u8_playlist(body) matches Ok(PlaylistModel::Media(p))
            &&& plan.media_playlist_url == media_playlist_url
            &&& plan.target_duration_seconds == p.target_duration
            &&& plan.end_list == p.end_list
            &&& plan.segments.len() == p.segments@.len()
            &&& forall|k: int|
                #![trigger p.segments@[k]]
                0 <= k < p.segments@.len() ==> {
                    &&& !p.segments@[k].has_map
                    &&& !p.segments@[k].has_byte_range
                    &&& (p.segments@[k].key_method is None || p.segments@[k].key_method
                        == Some(KeyMethodKind::Unencrypted))
                    &&& url_join(media_playlist_url, p.segments@[k].uri@) == Some(
                        plan.segments[k].url,
                    )
                    &&& plan.segments[k].duration_bits == p.segments@[k].duration_bits
                    &&& plan.segments[k].index == (if k <= u32::MAX { k as u32 } else { u32::MAX })
                }
        },
        m3u8_playlist(body) matches Ok(PlaylistModel::Media(p)) ==> url_parse(media_playlist_url)
            is Some ==> forall|k: int|
            #![trigger p.segments@[k]]
            0 <= k < p.segments@.len() && (forall|j: int|
                0 <= j < k ==> segment_is_plain(#[trigger] p.segments@[j]) && url_join(
                    media_playlist_url,
                    p.segments@[j].uri@,
                ) is Some) && !p.segments@[k].has_map && !p.segments@[k].has_byte_range
                && p.segments@[k].key_method is Some && !(p.segments@[k].key_method->0 is Unencrypted)
                ==> spec_parse_media(media_playlist_url, body) == Err::<
                MediaPlaylistPlanView,
                DownloadErrorView,
            >(
                DownloadErrorView::UnsupportedMediaPlaylist {
                    reason: "encrypted HLS segments are not supported in the MVP"@,
                },
            ),
{
    if let Ok(PlaylistModel::Media(p)) = m3u8_playlist(body) {
        let segs = p.segments@;
        lemma_plans_ok_plain(media_playlist_url, segs, segs.len());
        if url_parse(media_playlist_url) is Some {
            assert forall|k: int|
                #![trigger segs[k]]
                0 <= k < segs.len() && (forall|j: int|
                    0 <= j < k ==> segment_is_plain(#[trigger] segs[j]) && url_join(
                        media_playlist_url,
                        segs[j].uri@,
                    ) is Some) && !segs[k].has_map && !segs[k].has_byte_range
                    && segs[k].key_method is Some && !(segs[k].key_method->0 is Unencrypted)
                    implies spec_parse_media(media_playlist_url, body) == Err::<
                    MediaPlaylistPlanView,
                    DownloadErrorView,
                >(
                    DownloadErrorView::UnsupportedMediaPlaylist {
                        reason: "encrypted HLS segments are not supported in the MVP"@,
                    },
                ) by {
                lemma_plans_of_plain_prefix(media_playlist_url, segs, k as nat);
                assert(spec_segment_plans(media_playlist_url, segs, (k + 1) as nat) is Err);
                lemma_segment_plans_err(media_playlist_url, segs, (k + 1) as nat, segs.len());
            }
        }
    }
}

} // verus!
