//! The decisions of a segment download, as a state machine. The I/O side
//! (HTTP, files, clock) carries out each command and reports back through
//! the matching method; the session decides what comes next and which
//! progress reports to publish.

use vstd::prelude::*;
use crate::download::{
    entries_view, headers_for_request, parse_media_playlist, segments_view, spec_headers,
    spec_parse_media, DownloadError, DownloadErrorView, DownloadProgress, DownloadRequest,
    DownloadStatus, HeaderEntry, MediaSegmentPlan, SegmentDownloadResult,
};
use crate::hls::{opt_view, parse_master_playlist, result_view, spec_best_variant, spec_parse_master};
use crate::text::{chars_of, decimal, push_all, push_decimal, string_from_chars};

verus! {

/// A progress report seen through its message's view.
pub struct DownloadProgressView {
    pub status: DownloadStatus,
    pub completed_segments: u32,
    pub total_segments: Option<u32>,
    pub current_segment_index: Option<u32>,
    pub current_segment_downloaded_bytes: Option<u64>,
    pub current_segment_total_bytes: Option<u64>,
    pub downloaded_bytes: u64,
    pub total_bytes: Option<u64>,
    pub message: Option<Seq<char>>,
}

impl View for DownloadProgress {
    type V = DownloadProgressView;

    open spec fn view(&self) -> DownloadProgressView {
        DownloadProgressView {
            status: self.status,
            completed_segments: self.completed_segments,
            total_segments: self.total_segments,
            current_segment_index: self.current_segment_index,
            current_segment_downloaded_bytes: self.current_segment_downloaded_bytes,
            current_segment_total_bytes: self.current_segment_total_bytes,
            downloaded_bytes: self.downloaded_bytes,
            total_bytes: self.total_bytes,
            message: opt_view(self.message),
        }
    }
}

pub open spec fn progress_view(s: Seq<DownloadProgress>) -> Seq<DownloadProgressView> {
    s.map_values(|p: DownloadProgress| p@)
}

/// A report of the preparation stage with a message and nothing counted.
pub open spec fn preparing_view(message: Seq<char>) -> DownloadProgressView {
    DownloadProgressView {
        status: DownloadStatus::Preparing,
        completed_segments: 0,
        total_segments: None,
        current_segment_index: None,
        current_segment_downloaded_bytes: None,
        current_segment_total_bytes: None,
        downloaded_bytes: 0,
        total_bytes: None,
        message: Some(message),
    }
}

/// A report of the download stage.
pub open spec fn downloading_view(
    completed_segments: u32,
    total_segments: Option<u32>,
    current_segment_index: Option<u32>,
    current_segment_downloaded_bytes: Option<u64>,
    current_segment_total_bytes: Option<u64>,
    downloaded_bytes: u64,
    message: Seq<char>,
) -> DownloadProgressView {
    DownloadProgressView {
        status: DownloadStatus::Downloading,
        completed_segments,
        total_segments,
        current_segment_index,
        current_segment_downloaded_bytes,
        current_segment_total_bytes,
        downloaded_bytes,
        total_bytes: None,
        message: Some(message),
    }
}

/// Where a session stands: which report it waits for.
#[derive(Debug, Clone, Copy, PartialEq, Eq, Structural)]
pub enum SessionPhase {
    /// Waiting for the HTTP client to be built.
    BuildingClient,
    /// Waiting for the text of the master playlist.
    FetchingMaster,
    /// Waiting for the text of the media playlist.
    FetchingMedia,
    /// Waiting for the output file to be created.
    CreatingOutput,
    /// Waiting for the response to the request of the next segment.
    OpeningSegment,
    /// Receiving the body of the current segment.
    StreamingSegment,
    /// Waiting for the output to be flushed.
    Flushing,
    Finished,
    Failed,
}

/// What the I/O side must do next.
#[derive(Debug)]
pub enum SessionCommand {
    /// Build an HTTP client that sends these headers with every request.
    BuildClient { headers: Vec<HeaderEntry> },
    /// Fetch `url` as text and report it with `text_fetched`.
    FetchText { url: String },
    /// Create the output file at `path` and report with `output_created`.
    CreateOutput { path: String },
    /// Request `url` and report the response with `segment_opened`.
    FetchSegment { url: String },
    /// Read the next chunk of the segment body, write it to the output and
    /// report it with `chunk_written`, or report the end of the body with
    /// `segment_ended`.
    ReadChunk,
    /// Flush the output and report with `flushed`.
    Flush,
    /// The download is complete.
    Finish { result: SegmentDownloadResult },
    /// The download failed.
    Fail { error: DownloadError },
}

/// The reaction of a session to one report.
#[derive(Debug)]
pub struct SessionStep {
    /// Progress reports to publish, in order, before the command.
    pub progress: Vec<DownloadProgress>,
    pub command: SessionCommand,
    /// Start measuring the time since the last progress report anew.
    pub restart_clock: bool,
}

/// The sum of a sequence of byte counts.
pub open spec fn seq_sum(s: Seq<u64>) -> int
    decreases s.len(),
{
    if s.len() == 0 {
        0
    } else {
        seq_sum(s.drop_last()) + s.last()
    }
}

/// Time after which a chunk is reported however small (milliseconds).
pub const PROGRESS_EMIT_INTERVAL_MS: u64 = 180;

/// Bytes after which a chunk is reported however soon.
pub const PROGRESS_EMIT_BYTES: u64 = 131072;

/// What a download session holds, as its contracts speak of it.
pub struct SessionState {
    pub master_url: String,
    /// The media playlist URL given with the request, if any.
    pub requested_media_playlist_url: Option<String>,
    pub output_path: String,
    pub phase: SessionPhase,
    /// The media playlist URL in use (empty until known).
    pub media_playlist_url: String,
    pub segments: Vec<MediaSegmentPlan>,
    pub total_segments: Option<u32>,
    /// The position of the segment being fetched (or next to fetch).
    pub next_segment: usize,
    pub completed_segments: u32,
    /// Bytes of the segments completed so far.
    pub downloaded_bytes: u64,
    /// Bytes of the current segment so far.
    pub segment_downloaded_bytes: u64,
    /// The `Content-Length` of the current segment, if sent.
    pub segment_total_bytes: Option<u64>,
    /// `segment_downloaded_bytes` at the last report of the current segment.
    pub last_progress_bytes: u64,
    /// The length of every chunk received, in order.
    pub received: Ghost<Seq<u64>>,
}

/// `b` is on the same download as `a`: same request, output file, media
/// playlist and plan.
pub open spec fn keeps_plan(a: SessionState, b: SessionState) -> bool {
    &&& b.master_url == a.master_url
    &&& b.requested_media_playlist_url == a.requested_media_playlist_url
    &&& b.output_path == a.output_path
    &&& b.media_playlist_url == a.media_playlist_url
    &&& b.segments == a.segments
    &&& b.total_segments == a.total_segments
}

/// The order in which a session passes through its phases.
pub open spec fn phase_rank(p: SessionPhase) -> nat {
    match p {
        SessionPhase::BuildingClient => 0,
        SessionPhase::FetchingMaster => 1,
        SessionPhase::FetchingMedia => 2,
        SessionPhase::CreatingOutput => 3,
        SessionPhase::OpeningSegment => 4,
        SessionPhase::StreamingSegment => 4,
        SessionPhase::Flushing => 5,
        SessionPhase::Finished => 6,
        SessionPhase::Failed => 7,
    }
}

/// `b` is no earlier than `a`: no earlier phase, no fewer completed
/// segments or bytes, and the chunks received so far extended.
pub open spec fn progressed(a: SessionState, b: SessionState) -> bool {
    &&& phase_rank(a.phase) <= phase_rank(b.phase)
    &&& a.completed_segments <= b.completed_segments
    &&& a.downloaded_bytes <= b.downloaded_bytes
    &&& a.downloaded_bytes + a.segment_downloaded_bytes <= b.downloaded_bytes
        + b.segment_downloaded_bytes
    &&& a.received@.len() <= b.received@.len()
    &&& forall|i: int| 0 <= i < a.received@.len() ==> #[trigger] a.received@[i] == b.received@[i]
}

/// Over a whole run, as over each step, a session never goes back: its
/// phase, counters and received chunks only move forward.
pub proof fn progress_accumulates(a: SessionState, b: SessionState, c: SessionState)
    requires
        progressed(a, b),
        progressed(b, c),
    ensures
        progressed(a, c),
{
}

/// The state of one segment download.
pub struct DownloadSession {
    master_url: String,
    /// The media playlist URL given with the request, if any.
    requested_media_playlist_url: Option<String>,
    output_path: String,
    phase: SessionPhase,
    /// The media playlist URL in use (empty until known).
    media_playlist_url: String,
    segments: Vec<MediaSegmentPlan>,
    total_segments: Option<u32>,
    /// The position of the segment being fetched (or next to fetch).
    next_segment: usize,
    completed_segments: u32,
    /// Bytes of the segments completed so far.
    downloaded_bytes: u64,
    /// Bytes of the current segment so far.
    segment_downloaded_bytes: u64,
    /// The `Content-Length` of the current segment, if sent.
    segment_total_bytes: Option<u64>,
    /// `segment_downloaded_bytes` at the last report of the current segment.
    last_progress_bytes: u64,
    /// The length of every chunk received, in order.
    received: Ghost<Seq<u64>>,
}

impl View for DownloadSession {
    type V = SessionState;

    closed spec fn view(&self) -> SessionState {
        SessionState {
            master_url: self.master_url,
            requested_media_playlist_url: self.requested_media_playlist_url,
            output_path: self.output_path,
            phase: self.phase,
            media_playlist_url: self.media_playlist_url,
            segments: self.segments,
            total_segments: self.total_segments,
            next_segment: self.next_segment,
            completed_segments: self.completed_segments,
            downloaded_bytes: self.downloaded_bytes,
            segment_downloaded_bytes: self.segment_downloaded_bytes,
            segment_total_bytes: self.segment_total_bytes,
            last_progress_bytes: self.last_progress_bytes,
            received: self.received,
        }
    }
}


impl SessionState {
    /// The plan's segment count, as the reports carry it.
    pub open spec fn plan_total(&self) -> Option<u32> {
        Some((self.segments@.len() % 0x1_0000_0000) as u32)
    }

    /// The invariant of every session.
    pub open spec fn wf(&self) -> bool {
        &&& self.downloaded_bytes + self.segment_downloaded_bytes == seq_sum(self.received@)
        &&& self.downloaded_bytes + self.segment_downloaded_bytes <= u64::MAX
        &&& self.last_progress_bytes <= self.segment_downloaded_bytes
        &&& (self.phase == SessionPhase::BuildingClient || self.phase
            == SessionPhase::FetchingMaster || self.phase == SessionPhase::FetchingMedia
            || self.phase == SessionPhase::CreatingOutput) ==> {
            &&& self.received@.len() == 0
            &&& self.downloaded_bytes == 0
            &&& self.segment_downloaded_bytes == 0
            &&& self.completed_segments == 0
            &&& self.next_segment == 0
        }
        &&& (self.phase == SessionPhase::CreatingOutput || self.phase
            == SessionPhase::OpeningSegment || self.phase == SessionPhase::StreamingSegment
            || self.phase == SessionPhase::Flushing || self.phase == SessionPhase::Finished) ==> {
            &&& self.segments@.len() > 0
            &&& self.next_segment <= self.segments@.len()
            &&& self.completed_segments == self.next_segment
            &&& self.total_segments == self.plan_total()
        }
        &&& (self.phase == SessionPhase::OpeningSegment || self.phase
            == SessionPhase::StreamingSegment) ==> self.next_segment < self.segments@.len()
        &&& (self.phase == SessionPhase::OpeningSegment || self.phase == SessionPhase::Flushing
            || self.phase == SessionPhase::Finished) ==> self.segment_downloaded_bytes == 0
        &&& (self.phase == SessionPhase::Flushing || self.phase == SessionPhase::Finished)
            ==> self.next_segment == self.segments@.len()
    }
}

fn literal(s: &str) -> (r: String)
    ensures
        r@ == s@,
{
    s.to_owned()
}

fn preparing(message: &str) -> (r: DownloadProgress)
    ensures
        r@ == preparing_view(message@),
{
    let mut p = DownloadProgress::queued();
    p.status = DownloadStatus::Preparing;
    p.with_message(message)
}

fn one_progress(p: DownloadProgress) -> (r: Vec<DownloadProgress>)
    ensures
        progress_view(r@) == seq![p@],
{
    let mut v: Vec<DownloadProgress> = Vec::new();
    v.push(p);
    assert(progress_view(v@) =~= seq![p@]);
    v
}

fn two_progress(p: DownloadProgress, q: DownloadProgress) -> (r: Vec<DownloadProgress>)
    ensures
        progress_view(r@) == seq![p@, q@],
{
    let mut v: Vec<DownloadProgress> = Vec::new();
    v.push(p);
    v.push(q);
    assert(progress_view(v@) =~= seq![p@, q@]);
    v
}

/// `<prefix> <n>` for a segment number.
pub open spec fn numbered(prefix: Seq<char>, n: nat) -> Seq<char> {
    prefix + decimal(n)
}

fn numbered_message(prefix: &str, n: u64) -> (r: String)
    ensures
        r@ == numbered(prefix@, n as nat),
{
    let mut v: Vec<char> = Vec::new();
    let p = chars_of(prefix);
    push_all(&mut v, &p);
    push_decimal(&mut v, n);
    string_from_chars(&v)
}

impl DownloadSession {
    /// Starts the download of `request` into the file `output_path`: reports
    /// that the client is being built and asks for a client with the
    /// request's headers, or fails with the header error.
    pub fn start(request: &DownloadRequest, output_path: &str) -> (r: (DownloadSession, SessionStep))
        ensures
            r.0@.wf(),
            r.0@.master_url@ == request.master_url@,
            opt_view(r.0@.requested_media_playlist_url) == opt_view(request.media_playlist_url),
            r.0@.output_path@ == output_path@,
            r.0@.received@ == Seq::<u64>::empty(),
            progress_view(r.1.progress@) == seq![preparing_view("building http client"@)],
            !r.1.restart_clock,
            match spec_headers(*request) {
                Ok(h) => {
                    &&& r.0@.phase == SessionPhase::BuildingClient
                    &&& r.1.command matches SessionCommand::BuildClient { headers } && entries_view(
                        headers@,
                    ) == h
                },
                Err(e) => {
                    &&& r.0@.phase == SessionPhase::Failed
                    &&& r.1.command matches SessionCommand::Fail { error } && error@ == e
                },
            },
    {
        let progress = one_progress(preparing("building http client"));
        let headers = headers_for_request(request);
        let phase = if headers.is_ok() {
            SessionPhase::BuildingClient
        } else {
            SessionPhase::Failed
        };
        let session = DownloadSession {
            master_url: request.master_url.clone(),
            requested_media_playlist_url: match &request.media_playlist_url {
                Some(u) => Some(u.clone()),
                None => None,
            },
            output_path: output_path.to_owned(),
            phase,
            media_playlist_url: String::new(),
            segments: Vec::new(),
            total_segments: None,
            next_segment: 0,
            completed_segments: 0,
            downloaded_bytes: 0,
            segment_downloaded_bytes: 0,
            segment_total_bytes: None,
            last_progress_bytes: 0,
            received: Ghost(Seq::empty()),
        };
        let command = match headers {
            Ok(headers) => SessionCommand::BuildClient { headers },
            Err(error) => SessionCommand::Fail { error },
        };
        (session, SessionStep { progress, command, restart_clock: false })
    }

    /// The client is ready: with a media playlist URL in the request,
    /// reports its use and fetches it; else fetches the master playlist.
    pub fn client_built(&mut self) -> (r: SessionStep)
        requires
            old(self)@.wf(),
            old(self)@.phase == SessionPhase::BuildingClient,
        ensures
            progressed(old(self)@, final(self)@),
            final(self)@.wf(),
            !r.restart_clock,
            final(self)@.received@ == old(self)@.received@,
            final(self)@.master_url == old(self)@.master_url,
            final(self)@.requested_media_playlist_url == old(self)@.requested_media_playlist_url,
            final(self)@.output_path == old(self)@.output_path,
            match old(self)@.requested_media_playlist_url {
                Some(u) => {
                    &&& final(self)@.phase == SessionPhase::FetchingMedia
                    &&& final(self)@.media_playlist_url@ == u@
                    &&& progress_view(r.progress@) == seq![
                        preparing_view("using detected media playlist"@),
                        preparing_view("fetching media playlist"@),
                    ]
                    &&& r.command matches SessionCommand::FetchText { url } && url@ == u@
                },
                None => {
                    &&& final(self)@.phase == SessionPhase::FetchingMaster
                    &&& progress_view(r.progress@) == seq![
                        preparing_view("fetching master playlist"@),
                    ]
                    &&& r.command matches SessionCommand::FetchText { url } && url@
                        == old(self)@.master_url@
                },
            },
    {
        match &self.requested_media_playlist_url {
            Some(u) => {
                let url = u.clone();
                self.media_playlist_url = u.clone();
                self.phase = SessionPhase::FetchingMedia;
                let progress = two_progress(
                    preparing("using detected media playlist"),
                    preparing("fetching media playlist"),
                );
                SessionStep {
                    progress,
                    command: SessionCommand::FetchText { url },
                    restart_clock: false,
                }
            },
            None => {
                self.phase = SessionPhase::FetchingMaster;
                let progress = one_progress(preparing("fetching master playlist"));
                SessionStep {
                    progress,
                    command: SessionCommand::FetchText { url: self.master_url.clone() },
                    restart_clock: false,
                }
            },
        }
    }
}


/// The index of the segment at `position` as the plan carries it.
pub open spec fn plan_index(s: SessionState, position: int) -> u32 {
    s.segments@[position].index
}

impl DownloadSession {
    /// The text of a playlist arrived. For the master playlist: reports that
    /// a variant is being selected, parses it (an error fails the session),
    /// then reports and fetches the media playlist of the best variant. For
    /// the media playlist: reports that it is being parsed, plans its
    /// segments (an error fails the session) and asks for the output file.
    pub fn text_fetched(&mut self, body: &[u8]) -> (r: SessionStep)
        requires
            old(self)@.wf(),
            old(self)@.phase == SessionPhase::FetchingMaster || old(self)@.phase
                == SessionPhase::FetchingMedia,
        ensures
            progressed(old(self)@, final(self)@),
            final(self)@.wf(),
            !r.restart_clock,
            final(self)@.received@ == old(self)@.received@,
            final(self)@.master_url == old(self)@.master_url,
            final(self)@.requested_media_playlist_url == old(self)@.requested_media_playlist_url,
            final(self)@.output_path == old(self)@.output_path,
            old(self)@.phase == SessionPhase::FetchingMaster ==> match spec_parse_master(
                old(self)@.master_url@,
                body@,
            ) {
                Err(e) => {
                    &&& final(self)@.phase == SessionPhase::Failed
                    &&& progress_view(r.progress@) == seq![
                        preparing_view("selecting best variant"@),
                    ]
                    &&& r.command matches SessionCommand::Fail { error } && error@
                        == DownloadErrorView::Hls(e)
                },
                Ok(p) => match spec_best_variant(p.variants) {
                    None => {
                        &&& final(self)@.phase == SessionPhase::Failed
                        &&& r.command matches SessionCommand::Fail { error } && error@
                            == DownloadErrorView::NoVariant
                    },
                    Some(v) => {
                        &&& final(self)@.phase == SessionPhase::FetchingMedia
                        &&& final(self)@.media_playlist_url@ == v.media_playlist_url
                        &&& progress_view(r.progress@) == seq![
                            preparing_view("selecting best variant"@),
                            preparing_view("fetching media playlist"@),
                        ]
                        &&& r.command matches SessionCommand::FetchText { url } && url@
                            == v.media_playlist_url
                    },
                },
            },
            old(self)@.phase == SessionPhase::FetchingMedia ==> {
                &&& progress_view(r.progress@) == seq![preparing_view("parsing media playlist"@)]
                &&& match spec_parse_media(old(self)@.media_playlist_url@, body@) {
                    Err(e) => {
                        &&& final(self)@.phase == SessionPhase::Failed
                        &&& r.command matches SessionCommand::Fail { error } && error@ == e
                    },
                    Ok(plan) => {
                        &&& final(self)@.phase == SessionPhase::CreatingOutput
                        &&& final(self)@.media_playlist_url == old(self)@.media_playlist_url
                        &&& segments_view(final(self)@.segments@) == plan.segments
                        &&& final(self)@.total_segments == Some((plan.segments.len() % 0x1_0000_0000) as u32)
                        &&& r.command matches SessionCommand::CreateOutput { path } && path@
                            == old(self)@.output_path@
                    },
                }
            },
    {
        if self.phase == SessionPhase::FetchingMaster {
            let first = preparing("selecting best variant");
            match parse_master_playlist(self.master_url.as_str(), body) {
                Err(e) => {
                    self.phase = SessionPhase::Failed;
                    SessionStep {
                        progress: one_progress(first),
                        command: SessionCommand::Fail { error: DownloadError::Hls(e) },
                        restart_clock: false,
                    }
                },
                Ok(master) => match master.best_variant() {
                    None => {
                        self.phase = SessionPhase::Failed;
                        SessionStep {
                            progress: one_progress(first),
                            command: SessionCommand::Fail { error: DownloadError::NoVariant },
                            restart_clock: false,
                        }
                    },
                    Some(v) => {
                        let url = v.media_playlist_url.clone();
                        self.media_playlist_url = v.media_playlist_url.clone();
                        self.phase = SessionPhase::FetchingMedia;
                        SessionStep {
                            progress: two_progress(first, preparing("fetching media playlist")),
                            command: SessionCommand::FetchText { url },
                            restart_clock: false,
                        }
                    },
                },
            }
        } else {
            let progress = one_progress(preparing("parsing media playlist"));
            match parse_media_playlist(self.media_playlist_url.as_str(), body) {
                Err(error) => {
                    self.phase = SessionPhase::Failed;
                    SessionStep { progress, command: SessionCommand::Fail { error }, restart_clock: false }
                },
                Ok(plan) => {
                    let n = plan.segments.len();
                    self.segments = plan.segments;
                    let total = ((n as u64) % 0x1_0000_0000) as u32;
                    self.total_segments = Some(total);
                    self.phase = SessionPhase::CreatingOutput;
                    SessionStep {
                        progress,
                        command: SessionCommand::CreateOutput { path: self.output_path.clone() },
                        restart_clock: false,
                    }
                },
            }
        }
    }

    /// The output file exists: reports the start of the segment downloads
    /// and requests the first segment.
    pub fn output_created(&mut self) -> (r: SessionStep)
        requires
            old(self)@.wf(),
            old(self)@.phase == SessionPhase::CreatingOutput,
        ensures
            progressed(old(self)@, final(self)@),
            final(self)@.wf(),
            !r.restart_clock,
            final(self)@.phase == SessionPhase::OpeningSegment,
            final(self)@.received@ == old(self)@.received@,
            keeps_plan(old(self)@, final(self)@),
            final(self)@.segment_total_bytes == old(self)@.segment_total_bytes,
            final(self)@.last_progress_bytes == old(self)@.last_progress_bytes,
            final(self)@.segments == old(self)@.segments,
            final(self)@.next_segment == 0,
            progress_view(r.progress@) == seq![
                downloading_view(
                    0,
                    old(self)@.total_segments,
                    None,
                    None,
                    None,
                    0,
                    "writing segments"@,
                ),
            ],
            r.command matches SessionCommand::FetchSegment { url } && url@ == old(self)@.segments@[0].url@,
    {
        let mut p = DownloadProgress::queued();
        p.status = DownloadStatus::Downloading;
        p.total_segments = self.total_segments;
        p.message = Some(literal("writing segments"));
        self.phase = SessionPhase::OpeningSegment;
        let url = self.segments[0].url.clone();
        SessionStep {
            progress: one_progress(p),
            command: SessionCommand::FetchSegment { url },
            restart_clock: false,
        }
    }

    /// The response to the segment request arrived with the given
    /// `Content-Length`: starts reading its body and starts the clock.
    pub fn segment_opened(&mut self, content_length: Option<u64>) -> (r: SessionStep)
        requires
            old(self)@.wf(),
            old(self)@.phase == SessionPhase::OpeningSegment,
        ensures
            progressed(old(self)@, final(self)@),
            final(self)@.wf(),
            r.restart_clock,
            final(self)@.phase == SessionPhase::StreamingSegment,
            final(self)@.received@ == old(self)@.received@,
            keeps_plan(old(self)@, final(self)@),
            final(self)@.completed_segments == old(self)@.completed_segments,
            final(self)@.downloaded_bytes == old(self)@.downloaded_bytes,
            final(self)@.last_progress_bytes == 0,
            final(self)@.segments == old(self)@.segments,
            final(self)@.next_segment == old(self)@.next_segment,
            final(self)@.segment_total_bytes == content_length,
            final(self)@.segment_downloaded_bytes == 0,
            r.progress@.len() == 0,
            r.command is ReadChunk,
    {
        self.phase = SessionPhase::StreamingSegment;
        self.segment_total_bytes = content_length;
        self.segment_downloaded_bytes = 0;
        self.last_progress_bytes = 0;
        SessionStep { progress: Vec::new(), command: SessionCommand::ReadChunk, restart_clock: true }
    }

    /// A chunk of `len` bytes of the current segment was written,
    /// `elapsed_ms` milliseconds after the last report (or the response). It
    /// is reported when at least 180 ms have passed or at least 128 KiB
    /// arrived since the segment's last report; then the clock restarts.
    pub fn chunk_written(&mut self, len: u64, elapsed_ms: u64) -> (r: SessionStep)
        requires
            old(self)@.wf(),
            old(self)@.phase == SessionPhase::StreamingSegment,
            old(self)@.downloaded_bytes + old(self)@.segment_downloaded_bytes + len <= u64::MAX,
            (elapsed_ms >= 180 || old(self)@.segment_downloaded_bytes + len - old(self)@.last_progress_bytes
                >= 131072) ==> plan_index(old(self)@, old(self)@.next_segment as int) < u32::MAX,
        ensures
            progressed(old(self)@, final(self)@),
            final(self)@.wf(),
            final(self)@.phase == SessionPhase::StreamingSegment,
            final(self)@.received@ == old(self)@.received@.push(len),
            keeps_plan(old(self)@, final(self)@),
            final(self)@.completed_segments == old(self)@.completed_segments,
            final(self)@.segment_total_bytes == old(self)@.segment_total_bytes,
            final(self)@.last_progress_bytes == if r.restart_clock {
                final(self)@.segment_downloaded_bytes
            } else {
                old(self)@.last_progress_bytes
            },
            final(self)@.segments == old(self)@.segments,
            final(self)@.next_segment == old(self)@.next_segment,
            final(self)@.downloaded_bytes == old(self)@.downloaded_bytes,
            final(self)@.segment_downloaded_bytes == old(self)@.segment_downloaded_bytes + len,
            r.command is ReadChunk,
            r.restart_clock == (elapsed_ms >= 180 || final(self)@.segment_downloaded_bytes - old(self)@.last_progress_bytes >= 131072),
            r.restart_clock ==> progress_view(r.progress@) == seq![
                downloading_view(
                    old(self)@.completed_segments,
                    old(self)@.total_segments,
                    Some(plan_index(old(self)@, old(self)@.next_segment as int)),
                    Some(final(self)@.segment_downloaded_bytes),
                    old(self)@.segment_total_bytes,
                    (old(self)@.downloaded_bytes + final(self)@.segment_downloaded_bytes) as u64,
                    numbered(
                        "downloading segment "@,
                        (plan_index(old(self)@, old(self)@.next_segment as int) + 1) as nat,
                    ),
                ),
            ],
            !r.restart_clock ==> r.progress@.len() == 0,
    {
        self.segment_downloaded_bytes = self.segment_downloaded_bytes + len;
        proof {
            let old_received = self.received@;
            self.received = Ghost(old_received.push(len));
            assert(self.received@.drop_last() =~= old_received);
        }
        let emit = elapsed_ms >= PROGRESS_EMIT_INTERVAL_MS || self.segment_downloaded_bytes
            - self.last_progress_bytes >= PROGRESS_EMIT_BYTES;
        if emit {
            self.last_progress_bytes = self.segment_downloaded_bytes;
            let index = self.segments[self.next_segment].index;
            let p = DownloadProgress {
                status: DownloadStatus::Downloading,
                completed_segments: self.completed_segments,
                total_segments: self.total_segments,
                current_segment_index: Some(index),
                current_segment_downloaded_bytes: Some(self.segment_downloaded_bytes),
                current_segment_total_bytes: self.segment_total_bytes,
                downloaded_bytes: self.downloaded_bytes + self.segment_downloaded_bytes,
                total_bytes: None,
                message: Some(numbered_message("downloading segment ", index as u64 + 1)),
            };
            SessionStep { progress: one_progress(p), command: SessionCommand::ReadChunk, restart_clock: true }
        } else {
            SessionStep { progress: Vec::new(), command: SessionCommand::ReadChunk, restart_clock: false }
        }
    }

    /// The body of the current segment ended: its bytes join the total, the
    /// segment counts as completed and is reported; then the next segment is
    /// requested, or the output is flushed after the last one.
    pub fn segment_ended(&mut self) -> (r: SessionStep)
        requires
            old(self)@.wf(),
            old(self)@.phase == SessionPhase::StreamingSegment,
            old(self)@.completed_segments < u32::MAX,
            plan_index(old(self)@, old(self)@.next_segment as int) < u32::MAX,
        ensures
            progressed(old(self)@, final(self)@),
            final(self)@.wf(),
            !r.restart_clock,
            final(self)@.received@ == old(self)@.received@,
            keeps_plan(old(self)@, final(self)@),
            final(self)@.segment_downloaded_bytes == 0,
            final(self)@.last_progress_bytes == 0,
            final(self)@.segment_total_bytes == old(self)@.segment_total_bytes,
            final(self)@.segments == old(self)@.segments,
            final(self)@.next_segment == old(self)@.next_segment + 1,
            final(self)@.completed_segments == old(self)@.completed_segments + 1,
            final(self)@.downloaded_bytes == old(self)@.downloaded_bytes + old(self)@.segment_downloaded_bytes,
            progress_view(r.progress@) == seq![
                downloading_view(
                    final(self)@.completed_segments,
                    old(self)@.total_segments,
                    Some(plan_index(old(self)@, old(self)@.next_segment as int)),
                    Some(old(self)@.segment_downloaded_bytes),
                    old(self)@.segment_total_bytes,
                    final(self)@.downloaded_bytes,
                    numbered(
                        "downloaded segment "@,
                        (plan_index(old(self)@, old(self)@.next_segment as int) + 1) as nat,
                    ),
                ),
            ],
            final(self)@.next_segment < final(self)@.segments@.len() ==> {
                &&& final(self)@.phase == SessionPhase::OpeningSegment
                &&& r.command matches SessionCommand::FetchSegment { url } && url@ == final(self)@.segments@[final(self)@.next_segment as int].url@
            },
            final(self)@.next_segment == final(self)@.segments@.len() ==> {
                &&& final(self)@.phase == SessionPhase::Flushing
                &&& r.command is Flush
            },
    {
        let index = self.segments[self.next_segment].index;
        let segment_bytes = self.segment_downloaded_bytes;
        self.downloaded_bytes = self.downloaded_bytes + segment_bytes;
        self.segment_downloaded_bytes = 0;
        self.last_progress_bytes = 0;
        self.completed_segments = self.completed_segments + 1;
        self.next_segment = self.next_segment + 1;
        let p = DownloadProgress {
            status: DownloadStatus::Downloading,
            completed_segments: self.completed_segments,
            total_segments: self.total_segments,
            current_segment_index: Some(index),
            current_segment_downloaded_bytes: Some(segment_bytes),
            current_segment_total_bytes: self.segment_total_bytes,
            downloaded_bytes: self.downloaded_bytes,
            total_bytes: None,
            message: Some(numbered_message("downloaded segment ", index as u64 + 1)),
        };
        let progress = one_progress(p);
        if self.next_segment < self.segments.len() {
            self.phase = SessionPhase::OpeningSegment;
            let url = self.segments[self.next_segment].url.clone();
            SessionStep { progress, command: SessionCommand::FetchSegment { url }, restart_clock: false }
        } else {
            self.phase = SessionPhase::Flushing;
            SessionStep { progress, command: SessionCommand::Flush, restart_clock: false }
        }
    }

    /// The output is flushed: reports the remux stage and finishes with the
    /// playlist URL, output path, segment count and byte count.
    pub fn flushed(&mut self) -> (r: SessionStep)
        requires
            old(self)@.wf(),
            old(self)@.phase == SessionPhase::Flushing,
        ensures
            progressed(old(self)@, final(self)@),
            final(self)@.wf(),
            !r.restart_clock,
            final(self)@.phase == SessionPhase::Finished,
            final(self)@.received@ == old(self)@.received@,
            keeps_plan(old(self)@, final(self)@),
            final(self)@.segments == old(self)@.segments,
            final(self)@.downloaded_bytes == old(self)@.downloaded_bytes,
            final(self)@.completed_segments == old(self)@.completed_segments,
            progress_view(r.progress@) == seq![
                DownloadProgressView {
                    status: DownloadStatus::Remuxing,
                    completed_segments: old(self)@.completed_segments,
                    total_segments: old(self)@.total_segments,
                    current_segment_index: None,
                    current_segment_downloaded_bytes: None,
                    current_segment_total_bytes: None,
                    downloaded_bytes: old(self)@.downloaded_bytes,
                    total_bytes: None,
                    message: Some("remuxing transport stream"@),
                },
            ],
            r.command matches SessionCommand::Finish { result } && {
                &&& result.media_playlist_url@ == old(self)@.media_playlist_url@
                &&& result.transport_stream_path@ == old(self)@.output_path@
                &&& result.completed_segments == old(self)@.completed_segments
                &&& result.downloaded_bytes == old(self)@.downloaded_bytes
            },
    {
        let mut p = DownloadProgress::queued();
        p.status = DownloadStatus::Remuxing;
        p.completed_segments = self.completed_segments;
        p.total_segments = self.total_segments;
        p.downloaded_bytes = self.downloaded_bytes;
        p.message = Some(literal("remuxing transport stream"));
        self.phase = SessionPhase::Finished;
        let result = SegmentDownloadResult {
            media_playlist_url: self.media_playlist_url.clone(),
            transport_stream_path: self.output_path.clone(),
            completed_segments: self.completed_segments,
            downloaded_bytes: self.downloaded_bytes,
        };
        SessionStep {
            progress: one_progress(p),
            command: SessionCommand::Finish { result },
            restart_clock: false,
        }
    }
}

/// A finished download counted every segment of the plan once and every
/// byte of every chunk received once.
impl DownloadSession {
    /// Where the session stands.
    pub fn phase(&self) -> (r: SessionPhase)
        ensures
            r == self@.phase,
    {
        self.phase
    }

    /// The bytes of the completed segments.
    pub fn downloaded_bytes(&self) -> (r: u64)
        ensures
            r == self@.downloaded_bytes,
    {
        self.downloaded_bytes
    }

    /// The bytes of the current segment so far.
    pub fn segment_downloaded_bytes(&self) -> (r: u64)
        ensures
            r == self@.segment_downloaded_bytes,
    {
        self.segment_downloaded_bytes
    }

    /// The bytes of the current segment at its last report.
    pub fn last_progress_bytes(&self) -> (r: u64)
        ensures
            r == self@.last_progress_bytes,
    {
        self.last_progress_bytes
    }

    /// The number of completed segments.
    pub fn completed_segments(&self) -> (r: u32)
        ensures
            r == self@.completed_segments,
    {
        self.completed_segments
    }

    /// The plan's index of the segment being fetched, while one is.
    pub fn current_plan_index(&self) -> (r: Option<u32>)
        ensures
            self@.next_segment < self@.segments@.len() ==> r == Some(
                plan_index(self@, self@.next_segment as int),
            ),
            self@.next_segment >= self@.segments@.len() ==> r is None,
    {
        if self.next_segment < self.segments.len() {
            Some(self.segments[self.next_segment].index)
        } else {
            None
        }
    }
}

pub proof fn finished_session_counts_everything(s: DownloadSession)
    requires
        s@.wf(),
        s@.phase == SessionPhase::Finished,
    ensures
        s@.completed_segments as int == s@.segments@.len(),
        s@.downloaded_bytes as int == seq_sum(s@.received@),
{
}

} // verus!
