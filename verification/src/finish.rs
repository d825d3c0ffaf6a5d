//! What follows the segment download of a job: the remux into an MP4, the
//! saving of the MP4, and the job's record and reports at each stage, as a
//! state machine. The I/O side performs each command and reports back with
//! the matching event.

use vstd::prelude::*;
use crate::capture::{
    PublishToDownloadsRequest, PublishToDownloadsResult, RemuxToMp4Request, RemuxToMp4Result,
};
use crate::commands::{
    failed_progress, finishing_progress, public_output_path, FinishingStage, StartDownloadResult,
};
use crate::download::{DownloadProgress, DownloadStatus, SegmentDownloadResult};
use crate::session::{progress_view, DownloadProgressView};
use crate::storage::{
    job_id_text, keeps_outcome, keeps_request, uuid_text, DownloadJobRecord, DownloadJobStatus,
};

verus! {

/// The report of a failed job: nothing counted, `message` as message.
pub open spec fn failed_view(message: Seq<char>) -> DownloadProgressView {
    DownloadProgressView {
        status: DownloadStatus::Failed,
        completed_segments: 0,
        total_segments: None,
        current_segment_index: None,
        current_segment_downloaded_bytes: None,
        current_segment_total_bytes: None,
        downloaded_bytes: 0,
        total_bytes: None,
        message: Some(message),
    }
}

/// The report of a finishing stage (see `finishing_progress`).
pub open spec fn finishing_view(stage: FinishingStage, segments: u32, bytes: u64) -> DownloadProgressView {
    DownloadProgressView {
        status: match stage {
            FinishingStage::Saved => DownloadStatus::Done,
            _ => DownloadStatus::Remuxing,
        },
        completed_segments: segments,
        total_segments: Some(segments),
        current_segment_index: None,
        current_segment_downloaded_bytes: None,
        current_segment_total_bytes: None,
        downloaded_bytes: bytes,
        total_bytes: match stage {
            FinishingStage::Saved => Some(bytes),
            _ => None,
        },
        message: Some(
            match stage {
                FinishingStage::Remuxing => "remuxing transport stream"@,
                FinishingStage::Saving => "saving mp4"@,
                FinishingStage::Saved => "saved mp4"@,
            },
        ),
    }
}

/// The path shown for a published video (see `public_output_path`).
pub open spec fn public_path(p: PublishToDownloadsResult) -> Seq<char> {
    if p.relative_path@.len() == 0 {
        p.display_name@
    } else {
        p.relative_path@ + seq!['/'] + p.display_name@
    }
}

/// `b` is `a` marked failed with `message` at `now` (see
/// `DownloadJobRecord::mark_failed`).
pub open spec fn failed_record(a: DownloadJobRecord, b: DownloadJobRecord, message: Seq<char>, now: i128) -> bool {
    &&& keeps_request(a, b)
    &&& b.status == DownloadJobStatus::Failed
    &&& b.progress_percent == a.progress_percent
    &&& b.error matches Some(e) && e@ == message
    &&& b.output_path == a.output_path
    &&& b.output_uri == a.output_uri
    &&& b.output_bytes == a.output_bytes
    &&& b.updated_at_unix_nanos == now
}

/// Where a job's finishing stands.
#[derive(Debug, Clone, Copy, PartialEq, Eq, Structural)]
pub enum FinishPhase {
    /// Waiting for the segment download.
    Downloading,
    /// Waiting for the remux.
    Remuxing,
    /// Waiting for the MP4 to be saved.
    Publishing,
    Finished,
}

/// What the I/O side reports.
#[derive(Debug)]
pub enum FinishEvent {
    /// The segment download ended, with its result or its error's message.
    Segments(Result<SegmentDownloadResult, String>),
    /// The remux ended.
    Remuxed(Result<RemuxToMp4Result, String>),
    /// The saving of the MP4 ended.
    Published(Result<PublishToDownloadsResult, String>),
}

/// What the I/O side must do next.
#[derive(Debug)]
pub enum FinishCommand {
    /// Store `record`, then remux as `request` says and report `Remuxed`.
    Remux { request: RemuxToMp4Request, record: DownloadJobRecord },
    /// Remove the file at `remove`, publish the reports, then save the MP4
    /// as `request` says and report `Published`.
    RemoveThenPublish { remove: String, request: PublishToDownloadsRequest },
    /// Remove the file at `remove`, store `record`, report `progress`; the
    /// job fails with `error`.
    Fail { remove: String, record: DownloadJobRecord, progress: DownloadProgress, error: String },
    /// Store `record`, report `progress`; the job succeeded with `result`.
    Done { record: DownloadJobRecord, progress: DownloadProgress, result: StartDownloadResult },
}

/// What the finishing of a job holds, as its contracts speak of it.
pub struct FinishState {
    pub phase: FinishPhase,
    pub job_id: String,
    pub output_name: String,
    /// The transport stream the segments are written to.
    pub transport_path: String,
    /// The MP4 the remux writes.
    pub output_path: String,
    /// The job's record as last stored.
    pub record: DownloadJobRecord,
    pub segments: Option<SegmentDownloadResult>,
    pub remux: Option<RemuxToMp4Result>,
}

/// The finishing of one job.
pub struct FinishJob {
    phase: FinishPhase,
    job_id: String,
    output_name: String,
    transport_path: String,
    output_path: String,
    record: DownloadJobRecord,
    segments: Option<SegmentDownloadResult>,
    remux: Option<RemuxToMp4Result>,
}

impl View for FinishJob {
    type V = FinishState;

    closed spec fn view(&self) -> FinishState {
        FinishState {
            phase: self.phase,
            job_id: self.job_id,
            output_name: self.output_name,
            transport_path: self.transport_path,
            output_path: self.output_path,
            record: self.record,
            segments: self.segments,
            remux: self.remux,
        }
    }
}


impl FinishState {
    /// The results that each phase has gathered, and the job id as the text
    /// of the record's id.
    pub open spec fn wf(&self) -> bool {
        &&& self.phase == FinishPhase::Downloading ==> self.segments is None && self.remux is None
        &&& self.phase == FinishPhase::Remuxing ==> self.segments is Some && self.remux is None
        &&& self.phase == FinishPhase::Publishing ==> self.segments is Some && self.remux is Some
        &&& self.job_id@ == uuid_text(self.record.id)
    }

    /// `event` is the one the phase waits for.
    pub open spec fn expects(&self, event: FinishEvent) -> bool {
        match event {
            FinishEvent::Segments(_) => self.phase == FinishPhase::Downloading,
            FinishEvent::Remuxed(_) => self.phase == FinishPhase::Remuxing,
            FinishEvent::Published(_) => self.phase == FinishPhase::Publishing,
        }
    }

}

impl FinishJob {
    /// A job waiting for its segment download, for the job of `record`: its
    /// id is the text of the record's UUID, its output name the record's,
    /// its transport stream at `transport_path`, its MP4 at `output_path`.
    pub fn new(transport_path: String, output_path: String, record: DownloadJobRecord) -> (r: Self)
        ensures
            r@.wf(),
            r@.phase == FinishPhase::Downloading,
            r@.job_id@ == uuid_text(record.id),
            r@.output_name == record.output_name,
            r@.transport_path == transport_path,
            r@.output_path == output_path,
            r@.record == record,
    {
        FinishJob {
            phase: FinishPhase::Downloading,
            job_id: job_id_text(record.id),
            output_name: record.output_name.clone(),
            transport_path,
            output_path,
            record,
            segments: None,
            remux: None,
        }
    }

    /// The job's id, as the result and the reports carry it.
    pub fn job_id(&self) -> (r: &String)
        ensures
            *r == self@.job_id,
    {
        &self.job_id
    }

    /// Where the job's finishing stands.
    pub fn phase(&self) -> (r: FinishPhase)
        ensures
            r == self@.phase,
    {
        self.phase
    }

    /// The job's record as last stored.
    pub fn record(&self) -> (r: &DownloadJobRecord)
        ensures
            *r == self@.record,
    {
        &self.record
    }

    /// Records the stage and percentage of a download progress report at
    /// `now` (see `DownloadJobRecord::apply_progress`).
    pub fn record_progress(&mut self, status: DownloadJobStatus, percent: Option<u8>, now: i128)
        ensures
            final(self)@.phase == old(self)@.phase,
            final(self)@.job_id == old(self)@.job_id,
            final(self)@.output_name == old(self)@.output_name,
            final(self)@.transport_path == old(self)@.transport_path,
            final(self)@.output_path == old(self)@.output_path,
            final(self)@.segments == old(self)@.segments,
            final(self)@.remux == old(self)@.remux,
            keeps_request(old(self)@.record, final(self)@.record),
            keeps_outcome(old(self)@.record, final(self)@.record),
            final(self)@.record.status == status,
            final(self)@.record.progress_percent == percent,
            final(self)@.record.updated_at_unix_nanos == now,
    {
        self.record.apply_progress(status, percent, now);
    }

    fn fail(&mut self, remove: String, message: String, now: i128) -> (r: FinishCommand)
        ensures
            final(self)@.phase == FinishPhase::Finished,
            final(self)@.job_id == old(self)@.job_id,
            final(self)@.output_name == old(self)@.output_name,
            final(self)@.transport_path == old(self)@.transport_path,
            final(self)@.output_path == old(self)@.output_path,
            final(self)@.segments == old(self)@.segments,
            final(self)@.remux == old(self)@.remux,
            failed_record(old(self)@.record, final(self)@.record, message@, now),
            r matches FinishCommand::Fail { remove: rm, record, progress, error } && rm == remove
                && record == final(self)@.record && progress@ == failed_view(message@) && error@
                == message@,
    {
        let error = message.clone();
        self.record.mark_failed(message.clone(), now);
        self.phase = FinishPhase::Finished;
        let progress = failed_progress(message);
        FinishCommand::Fail { remove, record: self.record.copy(), progress, error }
    }

    /// Takes the next report of the I/O side.
    /// - The segment download failed: the job fails, its transport stream
    ///   is removed.
    /// - The segments are downloaded: the remux is reported, the record
    ///   goes to `Remuxing` at 98 percent, and the transport stream is
    ///   remuxed into the output file.
    /// - The remux failed: the job fails, its transport stream is removed.
    /// - The remux succeeded: the transport stream is removed, the saving is
    ///   reported and the MP4 is saved under the job's output name.
    /// - The saving failed: the job fails, the remuxed MP4 is removed.
    /// - The MP4 is saved: the record is done with the saved video's place
    ///   and size, the result is reported.
    /// Failures record the message and report it.
    pub fn step(&mut self, event: FinishEvent, now: i128) -> (r: (FinishCommand, Vec<DownloadProgress>))
        requires
            old(self)@.wf(),
            old(self)@.expects(event),
        ensures
            final(self)@.wf(),
            final(self)@.job_id == old(self)@.job_id,
            final(self)@.output_name == old(self)@.output_name,
            final(self)@.transport_path == old(self)@.transport_path,
            final(self)@.output_path == old(self)@.output_path,
            final(self)@.segments == match event {
                FinishEvent::Segments(Ok(seg)) => Some(seg),
                _ => old(self)@.segments,
            },
            final(self)@.remux == match event {
                FinishEvent::Remuxed(Ok(remuxed)) => Some(remuxed),
                _ => old(self)@.remux,
            },
            match event {
                FinishEvent::Segments(Err(message)) => {
                    &&& final(self)@.phase == FinishPhase::Finished
                    &&& failed_record(old(self)@.record, final(self)@.record, message@, now)
                    &&& r.0 matches FinishCommand::Fail { remove, record, progress, error }
                    &&& remove == old(self)@.transport_path
                    &&& record == final(self)@.record
                    &&& progress@ == failed_view(message@)
                    &&& error@ == message@
                    &&& r.1@.len() == 0
                },
                FinishEvent::Segments(Ok(seg)) => {
                    &&& final(self)@.phase == FinishPhase::Remuxing
                    &&& final(self)@.segments == Some(seg)
                    &&& keeps_request(old(self)@.record, final(self)@.record)
                    &&& keeps_outcome(old(self)@.record, final(self)@.record)
                    &&& final(self)@.record.status == DownloadJobStatus::Remuxing
                    &&& final(self)@.record.progress_percent == Some(98u8)
                    &&& final(self)@.record.updated_at_unix_nanos == now
                    &&& r.0 matches FinishCommand::Remux { request, record }
                    &&& request.input_path == old(self)@.transport_path
                    &&& request.output_path == old(self)@.output_path
                    &&& record == final(self)@.record
                    &&& progress_view(r.1@) == seq![
                        finishing_view(FinishingStage::Remuxing, seg.completed_segments, seg.downloaded_bytes),
                    ]
                },
                FinishEvent::Remuxed(Err(message)) => {
                    &&& final(self)@.phase == FinishPhase::Finished
                    &&& failed_record(old(self)@.record, final(self)@.record, message@, now)
                    &&& r.0 matches FinishCommand::Fail { remove, record, progress, error }
                    &&& remove == old(self)@.transport_path
                    &&& record == final(self)@.record
                    &&& progress@ == failed_view(message@)
                    &&& error@ == message@
                    &&& r.1@.len() == 0
                },
                FinishEvent::Remuxed(Ok(remuxed)) => {
                    &&& final(self)@.phase == FinishPhase::Publishing
                    &&& final(self)@.remux == Some(remuxed)
                    &&& final(self)@.record == old(self)@.record
                    &&& r.0 matches FinishCommand::RemoveThenPublish { remove, request }
                    &&& remove == old(self)@.transport_path
                    &&& request.input_path == remuxed.output_path
                    &&& request.display_name == old(self)@.output_name
                    &&& progress_view(r.1@) == seq![
                        finishing_view(
                            FinishingStage::Saving,
                            old(self)@.segments->0.completed_segments,
                            remuxed.output_bytes,
                        ),
                    ]
                },
                FinishEvent::Published(Err(message)) => {
                    &&& final(self)@.phase == FinishPhase::Finished
                    &&& failed_record(old(self)@.record, final(self)@.record, message@, now)
                    &&& r.0 matches FinishCommand::Fail { remove, record, progress, error }
                    &&& remove == old(self)@.remux->0.output_path
                    &&& record == final(self)@.record
                    &&& progress@ == failed_view(message@)
                    &&& error@ == message@
                    &&& r.1@.len() == 0
                },
                FinishEvent::Published(Ok(published)) => {
                    &&& final(self)@.phase == FinishPhase::Finished
                    &&& keeps_request(old(self)@.record, final(self)@.record)
                    &&& final(self)@.record.status == DownloadJobStatus::Done
                    &&& final(self)@.record.progress_percent == Some(100u8)
                    &&& final(self)@.record.error is None
                    &&& final(self)@.record.output_path matches Some(p) && p@ == public_path(published)
                    &&& final(self)@.record.output_uri == Some(published.content_uri)
                    &&& final(self)@.record.output_bytes == Some(published.output_bytes)
                    &&& final(self)@.record.updated_at_unix_nanos == now
                    &&& r.0 matches FinishCommand::Done { record, progress, result }
                    &&& record == final(self)@.record
                    &&& progress@ == finishing_view(
                        FinishingStage::Saved,
                        old(self)@.segments->0.completed_segments,
                        published.output_bytes,
                    )
                    &&& result.job_id == old(self)@.job_id
                    &&& result.job_id@ == uuid_text(record.id)
                    &&& result.output_name == old(self)@.output_name
                    &&& result.output_path@ == public_path(published)
                    &&& result.output_uri == published.content_uri
                    &&& result.media_playlist_url == old(self)@.segments->0.media_playlist_url
                    &&& result.output_bytes == published.output_bytes
                    &&& result.track_count == old(self)@.remux->0.track_count
                    &&& r.1@.len() == 0
                },
            },
    {
        match event {
            FinishEvent::Segments(Err(message)) => {
                let remove = self.transport_path.clone();
                (self.fail(remove, message, now), Vec::new())
            },
            FinishEvent::Segments(Ok(seg)) => {
                let report = finishing_progress(
                    FinishingStage::Remuxing,
                    seg.completed_segments,
                    seg.downloaded_bytes,
                );
                self.record.apply_progress(DownloadJobStatus::Remuxing, Some(98), now);
                self.segments = Some(seg);
                self.phase = FinishPhase::Remuxing;
                let request = RemuxToMp4Request {
                    input_path: self.transport_path.clone(),
                    output_path: self.output_path.clone(),
                };
                let mut reports: Vec<DownloadProgress> = Vec::new();
                reports.push(report);
                proof {
                    assert(progress_view(reports@) =~= seq![reports@[0]@]);
                }
                (FinishCommand::Remux { request, record: self.record.copy() }, reports)
            },
            FinishEvent::Remuxed(Err(message)) => {
                let remove = self.transport_path.clone();
                (self.fail(remove, message, now), Vec::new())
            },
            FinishEvent::Remuxed(Ok(remuxed)) => {
                let segments = match &self.segments {
                    Some(s) => s.completed_segments,
                    None => 0,
                };
                let report = finishing_progress(FinishingStage::Saving, segments, remuxed.output_bytes);
                let request = PublishToDownloadsRequest {
                    input_path: remuxed.output_path.clone(),
                    display_name: self.output_name.clone(),
                };
                self.remux = Some(remuxed);
                self.phase = FinishPhase::Publishing;
                let mut reports: Vec<DownloadProgress> = Vec::new();
                reports.push(report);
                proof {
                    assert(progress_view(reports@) =~= seq![reports@[0]@]);
                }
                (
                    FinishCommand::RemoveThenPublish { remove: self.transport_path.clone(), request },
                    reports,
                )
            },
            FinishEvent::Published(Err(message)) => {
                let remove = match &self.remux {
                    Some(m) => m.output_path.clone(),
                    None => String::new(),
                };
                (self.fail(remove, message, now), Vec::new())
            },
            FinishEvent::Published(Ok(published)) => {
                let (segments, media_playlist_url) = match &self.segments {
                    Some(s) => (s.completed_segments, s.media_playlist_url.clone()),
                    None => (0, String::new()),
                };
                let track_count = match &self.remux {
                    Some(m) => m.track_count,
                    None => 0,
                };
                let shown = public_output_path(&published);
                let progress = finishing_progress(FinishingStage::Saved, segments, published.output_bytes);
                self.record.mark_done(
                    public_output_path(&published),
                    published.content_uri.clone(),
                    published.output_bytes,
                    now,
                );
                self.phase = FinishPhase::Finished;
                let result = StartDownloadResult {
                    job_id: self.job_id.clone(),
                    output_name: self.output_name.clone(),
                    output_path: shown,
                    output_uri: published.content_uri,
                    media_playlist_url,
                    output_bytes: published.output_bytes,
                    track_count,
                };
                (FinishCommand::Done { record: self.record.copy(), progress, result }, Vec::new())
            },
        }
    }
}

} // verus!
