//! Records of download jobs.

use vstd::prelude::*;
use crate::binary64::two_to;
use crate::download::DownloadStatus;

verus! {

/// The stage a download job is in.
#[derive(Debug, Clone, Copy, PartialEq, Eq, Structural)]
pub enum DownloadJobStatus {
    Queued,
    Preparing,
    Downloading,
    Remuxing,
    Done,
    Failed,
    Cancelled,
}

/// What a new job is made of: the request as the history keeps it.
#[derive(Debug, Clone)]
pub struct QueuedDownloadJob {
    pub title: String,
    pub output_name: String,
    pub page_url: String,
    pub master_url: String,
    pub media_playlist_url: Option<String>,
    pub referer: Option<String>,
    pub user_agent: Option<String>,
    pub cookies: Option<String>,
    pub quality: String,
}

/// A download job as the history keeps it. The id is the 128-bit value of
/// a UUID (`Uuid::as_u128`); the times are Unix timestamps in nanoseconds.
#[derive(Debug, Clone)]
pub struct DownloadJobRecord {
    pub id: u128,
    pub title: String,
    pub output_name: String,
    pub page_url: String,
    pub master_url: String,
    pub media_playlist_url: Option<String>,
    pub referer: Option<String>,
    pub user_agent: Option<String>,
    pub cookies: Option<String>,
    pub quality: String,
    pub status: DownloadJobStatus,
    /// The last completion percentage recorded.
    pub progress_percent: Option<u8>,
    /// Why the job failed.
    pub error: Option<String>,
    /// Where the saved video is shown, its URI and its size.
    pub output_path: Option<String>,
    pub output_uri: Option<String>,
    pub output_bytes: Option<u64>,
    pub created_at_unix_nanos: i128,
    pub updated_at_unix_nanos: i128,
}

/// `b` records the same request as `a`: same id, request fields and
/// creation time.
pub open spec fn keeps_request(a: DownloadJobRecord, b: DownloadJobRecord) -> bool {
    &&& b.id == a.id
    &&& b.title == a.title
    &&& b.output_name == a.output_name
    &&& b.page_url == a.page_url
    &&& b.master_url == a.master_url
    &&& b.media_playlist_url == a.media_playlist_url
    &&& b.referer == a.referer
    &&& b.user_agent == a.user_agent
    &&& b.cookies == a.cookies
    &&& b.quality == a.quality
    &&& b.created_at_unix_nanos == a.created_at_unix_nanos
}

/// `b` keeps the outcome of `a`: the error and the saved video.
pub open spec fn keeps_outcome(a: DownloadJobRecord, b: DownloadJobRecord) -> bool {
    &&& b.error == a.error
    &&& b.output_path == a.output_path
    &&& b.output_uri == a.output_uri
    &&& b.output_bytes == a.output_bytes
}

fn copy_text(o: &Option<String>) -> (r: Option<String>)
    ensures
        r == *o,
{
    match o {
        Some(t) => Some(t.clone()),
        None => None,
    }
}

/// `id` carries the version (4) and variant (RFC 4122) bits of a random
/// UUID.
pub open spec fn is_random_uuid(id: u128) -> bool {
    (id as int / 0x1_0000_0000_0000_0000_000) % 16 == 4 && (id as int / 0x4000_0000_0000_0000) % 4
        == 2
}

/// A fresh random UUID from `uuid::Uuid::new_v4`, as its 128-bit value; the
/// crate sets the version and variant bits and draws the other 122 bits at
/// random.
#[verifier::external_body]
fn new_random_uuid() -> (r: u128)
    ensures
        is_random_uuid(r),
{
    uuid::Uuid::new_v4().as_u128()
}

/// The current time from `time::OffsetDateTime::now_utc`, as nanoseconds
/// since the Unix epoch. Nothing is claimed of the value.
#[verifier::external_body]
fn now_unix_nanos() -> (r: i128) {
    time::OffsetDateTime::now_utc().unix_timestamp_nanos()
}

/// The lower-case hexadecimal digits.
pub open spec fn hex_digits() -> Seq<char> {
    seq!['0', '1', '2', '3', '4', '5', '6', '7', '8', '9', 'a', 'b', 'c', 'd', 'e', 'f']
}

/// The `k`-th hexadecimal digit of `id`, from the most significant
/// (`k < 32`).
pub open spec fn id_nibble(id: u128, k: int) -> nat {
    ((id as nat) / two_to((4 * (31 - k)) as nat)) % 16
}

/// The hyphenated text of the UUID whose value is `id`: its 32 hexadecimal
/// digits in lower case, most significant first, grouped 8-4-4-4-12 with
/// `-` between the groups.
pub open spec fn uuid_text(id: u128) -> Seq<char> {
    Seq::new(
        36,
        |p: int|
            if p == 8 || p == 13 || p == 18 || p == 23 {
                '-'
            } else {
                let k = p - (if p > 8 { 1int } else { 0 }) - (if p > 13 { 1int } else { 0 }) - (if p
                    > 18 { 1int } else { 0 }) - (if p > 23 { 1int } else { 0 });
                hex_digits()[id_nibble(id, k) as int]
            },
    )
}

/// The text of a job id: `uuid::Uuid::from_u128(id)` written hyphenated
/// (its `Display`), which is `uuid_text(id)`.
#[verifier::external_body]
pub(crate) fn job_id_text(id: u128) -> (r: String)
    ensures
        r@ == uuid_text(id),
{
    uuid::Uuid::from_u128(id).hyphenated().to_string()
}

/// The UUID value of `text` by `uuid::Uuid::parse_str`, or the error's
/// text.
pub uninterp spec fn uuid_parse(text: Seq<char>) -> Result<u128, Seq<char>>;

/// Parses a job id with `uuid::Uuid::parse_str`; an error becomes its text.
/// The contract claims that the outcome is a function of the text alone.
#[verifier::external_body]
fn parse_job_id(text: &str) -> (r: Result<u128, String>)
    ensures
        match r {
            Ok(id) => uuid_parse(text@) == Ok::<u128, Seq<char>>(id),
            Err(e) => uuid_parse(text@) == Err::<u128, Seq<char>>(e@),
        },
{
    uuid::Uuid::parse_str(text).map(|u| u.as_u128()).map_err(|e| e.to_string())
}

impl DownloadJobRecord {
    /// A queued job made of `job`, with the id `id`, created and updated at
    /// `now`, with no progress, error or output yet.
    pub fn queued_at(job: QueuedDownloadJob, id: u128, now: i128) -> (r: Self)
        ensures
            r.id == id,
            r.title == job.title,
            r.output_name == job.output_name,
            r.page_url == job.page_url,
            r.master_url == job.master_url,
            r.media_playlist_url == job.media_playlist_url,
            r.referer == job.referer,
            r.user_agent == job.user_agent,
            r.cookies == job.cookies,
            r.quality == job.quality,
            r.status == DownloadJobStatus::Queued,
            r.progress_percent is None,
            r.error is None,
            r.output_path is None,
            r.output_uri is None,
            r.output_bytes is None,
            r.created_at_unix_nanos == now,
            r.updated_at_unix_nanos == now,
    {
        DownloadJobRecord {
            id,
            title: job.title,
            output_name: job.output_name,
            page_url: job.page_url,
            master_url: job.master_url,
            media_playlist_url: job.media_playlist_url,
            referer: job.referer,
            user_agent: job.user_agent,
            cookies: job.cookies,
            quality: job.quality,
            status: DownloadJobStatus::Queued,
            progress_percent: None,
            error: None,
            output_path: None,
            output_uri: None,
            output_bytes: None,
            created_at_unix_nanos: now,
            updated_at_unix_nanos: now,
        }
    }

    /// A queued job made of `job` with a fresh random id, created and
    /// updated now.
    pub fn queued(job: QueuedDownloadJob) -> (r: Self)
        ensures
            is_random_uuid(r.id),
            r.title == job.title,
            r.output_name == job.output_name,
            r.page_url == job.page_url,
            r.master_url == job.master_url,
            r.media_playlist_url == job.media_playlist_url,
            r.referer == job.referer,
            r.user_agent == job.user_agent,
            r.cookies == job.cookies,
            r.quality == job.quality,
            r.status == DownloadJobStatus::Queued,
            r.progress_percent is None,
            r.error is None,
            r.output_path is None,
            r.output_uri is None,
            r.output_bytes is None,
            r.created_at_unix_nanos == r.updated_at_unix_nanos,
    {
        let now = now_unix_nanos();
        let id = new_random_uuid();
        Self::queued_at(job, id, now)
    }

    /// The same record, field for field.
    pub fn copy(&self) -> (r: Self)
        ensures
            r == *self,
    {
        DownloadJobRecord {
            id: self.id,
            title: self.title.clone(),
            output_name: self.output_name.clone(),
            page_url: self.page_url.clone(),
            master_url: self.master_url.clone(),
            media_playlist_url: copy_text(&self.media_playlist_url),
            referer: copy_text(&self.referer),
            user_agent: copy_text(&self.user_agent),
            cookies: copy_text(&self.cookies),
            quality: self.quality.clone(),
            status: self.status,
            progress_percent: self.progress_percent,
            error: copy_text(&self.error),
            output_path: copy_text(&self.output_path),
            output_uri: copy_text(&self.output_uri),
            output_bytes: self.output_bytes,
            created_at_unix_nanos: self.created_at_unix_nanos,
            updated_at_unix_nanos: self.updated_at_unix_nanos,
        }
    }

    /// Records the stage and percentage of a progress report at `now`.
    pub fn apply_progress(&mut self, status: DownloadJobStatus, percent: Option<u8>, now: i128)
        ensures
            keeps_request(*old(self), *final(self)),
            keeps_outcome(*old(self), *final(self)),
            final(self).status == status,
            final(self).progress_percent == percent,
            final(self).updated_at_unix_nanos == now,
    {
        self.status = status;
        self.progress_percent = percent;
        self.updated_at_unix_nanos = now;
    }

    /// Records at `now` that the job failed with `message`; its last
    /// percentage and any output stay.
    pub fn mark_failed(&mut self, message: String, now: i128)
        ensures
            keeps_request(*old(self), *final(self)),
            final(self).status == DownloadJobStatus::Failed,
            final(self).progress_percent == old(self).progress_percent,
            final(self).error == Some(message),
            final(self).output_path == old(self).output_path,
            final(self).output_uri == old(self).output_uri,
            final(self).output_bytes == old(self).output_bytes,
            final(self).updated_at_unix_nanos == now,
    {
        self.status = DownloadJobStatus::Failed;
        self.error = Some(message);
        self.updated_at_unix_nanos = now;
    }

    /// Records at `now` that the job is done: complete, without error, its
    /// video shown at `output_path`, reachable at `output_uri`, of
    /// `output_bytes` bytes.
    pub fn mark_done(&mut self, output_path: String, output_uri: String, output_bytes: u64, now: i128)
        ensures
            keeps_request(*old(self), *final(self)),
            final(self).status == DownloadJobStatus::Done,
            final(self).progress_percent == Some(100u8),
            final(self).error is None,
            final(self).output_path == Some(output_path),
            final(self).output_uri == Some(output_uri),
            final(self).output_bytes == Some(output_bytes),
            final(self).updated_at_unix_nanos == now,
    {
        self.status = DownloadJobStatus::Done;
        self.progress_percent = Some(100);
        self.error = None;
        self.output_path = Some(output_path);
        self.output_uri = Some(output_uri);
        self.output_bytes = Some(output_bytes);
        self.updated_at_unix_nanos = now;
    }
}

/// The job stage that matches a download stage (the same name).
pub open spec fn spec_job_status(status: DownloadStatus) -> DownloadJobStatus {
    match status {
        DownloadStatus::Queued => DownloadJobStatus::Queued,
        DownloadStatus::Preparing => DownloadJobStatus::Preparing,
        DownloadStatus::Downloading => DownloadJobStatus::Downloading,
        DownloadStatus::Remuxing => DownloadJobStatus::Remuxing,
        DownloadStatus::Done => DownloadJobStatus::Done,
        DownloadStatus::Failed => DownloadJobStatus::Failed,
        DownloadStatus::Cancelled => DownloadJobStatus::Cancelled,
    }
}

/// The job stage that matches a download stage.
pub fn job_status_from_download(status: DownloadStatus) -> (r: DownloadJobStatus)
    ensures
        r == spec_job_status(status),
{
    match status {
        DownloadStatus::Queued => DownloadJobStatus::Queued,
        DownloadStatus::Preparing => DownloadJobStatus::Preparing,
        DownloadStatus::Downloading => DownloadJobStatus::Downloading,
        DownloadStatus::Remuxing => DownloadJobStatus::Remuxing,
        DownloadStatus::Done => DownloadJobStatus::Done,
        DownloadStatus::Failed => DownloadJobStatus::Failed,
        DownloadStatus::Cancelled => DownloadJobStatus::Cancelled,
    }
}

/// Distinct download stages map to distinct job stages, and every job stage
/// is reached.
pub proof fn job_status_mapping_is_bijective(a: DownloadStatus, b: DownloadStatus, j: DownloadJobStatus)
    ensures
        spec_job_status(a) == spec_job_status(b) ==> a == b,
        exists|s: DownloadStatus| spec_job_status(s) == j,
{
    match j {
        DownloadJobStatus::Queued => assert(spec_job_status(DownloadStatus::Queued) == j),
        DownloadJobStatus::Preparing => assert(spec_job_status(DownloadStatus::Preparing) == j),
        DownloadJobStatus::Downloading => assert(spec_job_status(DownloadStatus::Downloading) == j),
        DownloadJobStatus::Remuxing => assert(spec_job_status(DownloadStatus::Remuxing) == j),
        DownloadJobStatus::Done => assert(spec_job_status(DownloadStatus::Done) == j),
        DownloadJobStatus::Failed => assert(spec_job_status(DownloadStatus::Failed) == j),
        DownloadJobStatus::Cancelled => assert(spec_job_status(DownloadStatus::Cancelled) == j),
    }
}


/// The id that a job id text names: `uuid::Uuid::parse_str` of it, or the
/// parser's message.
pub fn parse_job_id_text(job_id: &str) -> (r: Result<u128, String>)
    ensures
        match uuid_parse(job_id@) {
            Ok(id) => r == Ok::<u128, String>(id),
            Err(m) => r matches Err(e) && e@ == m,
        },
{
    parse_job_id(job_id)
}

/// The position of the first job with the id `id`, if any.
pub fn find_job(jobs: &[DownloadJobRecord], id: u128) -> (r: Option<usize>)
    ensures
        match r {
            None => forall|k: int| 0 <= k < jobs@.len() ==> jobs@[k].id != id,
            Some(i) => {
                &&& i < jobs@.len()
                &&& jobs@[i as int].id == id
                &&& forall|k: int| 0 <= k < i ==> jobs@[k].id != id
            },
        },
{
    let mut i: usize = 0;
    while i < jobs.len()
        invariant
            i <= jobs@.len(),
            forall|k: int| 0 <= k < i ==> jobs@[k].id != id,
        decreases jobs@.len() - i,
    {
        if jobs[i].id == id {
            return Some(i);
        }
        i = i + 1;
    }
    None
}

/// Finds the job that a deletion request names: `job_id` must parse as a
/// UUID (else the parser's message is the error); the result is the
/// position of the first job with that id, if any.
pub fn find_job_to_delete(jobs: &[DownloadJobRecord], job_id: &str) -> (r: Result<Option<usize>, String>)
    ensures
        match uuid_parse(job_id@) {
            Err(m) => r matches Err(e) && e@ == m,
            Ok(id) => r matches Ok(found) && match found {
                None => forall|k: int| 0 <= k < jobs@.len() ==> jobs@[k].id != id,
                Some(i) => {
                    &&& i < jobs@.len()
                    &&& jobs@[i as int].id == id
                    &&& forall|k: int| 0 <= k < i ==> jobs@[k].id != id
                },
            },
        },
{
    let id = parse_job_id_text(job_id)?;
    Ok(find_job(jobs, id))
}

/// The jobs of `jobs` whose id is not `id`, in order.
pub open spec fn without_id(jobs: Seq<DownloadJobRecord>, id: u128) -> Seq<DownloadJobRecord>
    decreases jobs.len(),
{
    if jobs.len() == 0 {
        jobs
    } else {
        let rest = without_id(jobs.drop_last(), id);
        if jobs.last().id == id {
            rest
        } else {
            rest.push(jobs.last())
        }
    }
}

/// `jobs` with `record` stored: in place of the first job with its id, or
/// at the end where none has it.
pub open spec fn upserted(jobs: Seq<DownloadJobRecord>, record: DownloadJobRecord) -> Seq<
    DownloadJobRecord,
> {
    if exists|i: int| 0 <= i < jobs.len() && jobs[i].id == record.id {
        let i = choose|i: int|
            0 <= i < jobs.len() && jobs[i].id == record.id && forall|k: int|
                0 <= k < i ==> jobs[k].id != record.id;
        jobs.update(i, record)
    } else {
        jobs.push(record)
    }
}

/// The download history: the jobs in the order they were first stored.
#[derive(Debug, Clone)]
pub struct DownloadHistory {
    pub jobs: Vec<DownloadJobRecord>,
}

impl DownloadHistory {
    /// A history with no jobs.
    pub fn new() -> (r: Self)
        ensures
            r.jobs@ == Seq::<DownloadJobRecord>::empty(),
    {
        DownloadHistory { jobs: Vec::new() }
    }

    /// Stores `record`: it replaces the first job with its id, or comes last
    /// where there is none.
    pub fn upsert(&mut self, record: DownloadJobRecord)
        ensures
            final(self).jobs@ == upserted(old(self).jobs@, record),
    {
        let ghost jobs = self.jobs@;
        let mut i: usize = 0;
        while i < self.jobs.len()
            invariant
                i <= self.jobs@.len(),
                self.jobs@ == jobs,
                jobs == old(self).jobs@,
                forall|k: int| 0 <= k < i ==> jobs[k].id != record.id,
            decreases self.jobs@.len() - i,
        {
            if self.jobs[i].id == record.id {
                proof {
                    assert(forall|k: int| 0 <= k < i ==> jobs[k].id != record.id);
                    assert(exists|j: int|
                        0 <= j < jobs.len() && jobs[j].id == record.id && forall|k: int|
                            0 <= k < j ==> jobs[k].id != record.id) by {
                        assert(0 <= i < jobs.len() && jobs[i as int].id == record.id);
                    }
                    let j = choose|j: int|
                        0 <= j < jobs.len() && jobs[j].id == record.id && forall|k: int|
                            0 <= k < j ==> jobs[k].id != record.id;
                    assert(0 <= i < jobs.len() && jobs[i as int].id == record.id);
                    if j < i {
                        assert(jobs[j].id != record.id);
                    }
                    if i < j {
                        assert(jobs[i as int].id != record.id);
                    }
                    assert(j == i);
                    assert(exists|j: int| 0 <= j < jobs.len() && jobs[j].id == record.id);
                    assert(upserted(jobs, record) == jobs.update(i as int, record));
                }
                self.jobs.set(i, record);
                assert(self.jobs@ == jobs.update(i as int, record));
                return;
            }
            i = i + 1;
        }
        self.jobs.push(record);
    }

    /// Removes every job with the id `id`.
    pub fn remove(&mut self, id: u128)
        ensures
            final(self).jobs@ == without_id(old(self).jobs@, id),
    {
        let mut kept: Vec<DownloadJobRecord> = Vec::new();
        let ghost jobs = self.jobs@;
        let n = self.jobs.len();
        let mut i: usize = 0;
        while i < n
            invariant
                n == jobs.len(),
                i <= n,
                self.jobs@ == jobs,
                jobs == old(self).jobs@,
                kept@ == without_id(jobs.subrange(0, i as int), id),
            decreases n - i,
        {
            let job = self.jobs[i].copy();
            assert(jobs.subrange(0, i + 1).drop_last() =~= jobs.subrange(0, i as int));
            if job.id != id {
                kept.push(job);
            }
            i = i + 1;
        }
        assert(jobs.subrange(0, n as int) =~= jobs);
        self.jobs = kept;
    }
}

} // verus!
