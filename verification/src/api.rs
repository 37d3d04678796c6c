//! The job table behind the HTTP service: jobs are registered, advance
//! through their processing steps, and are reported on.

use vstd::prelude::*;
use crate::error::{ProcessorError, Result, detail};
use crate::text::{chars_of, chars_eq};

verus! {

/// Request payload for processing a package.
pub struct ProcessRequest {
    /// The URL or local path to process
    pub url: String,
    /// Optional custom output directory
    pub output_dir: Option<String>,
    /// Optional configuration overrides
    pub config: Option<ProcessConfig>,
}

/// Configuration options for processing.
#[derive(Clone, Copy)]
pub struct ProcessConfig {
    /// Whether to generate an index file
    pub generate_index: Option<bool>,
    /// Whether to organize output files
    pub organize_output: Option<bool>,
    /// Maximum number of concurrent operations
    pub max_concurrent: Option<usize>,
}

/// Response for a processing request.
pub struct ProcessResponse {
    /// Unique job ID for tracking the request
    pub job_id: String,
    /// Status of the processing job
    pub status: String,
    /// URL type detected
    pub url_type: String,
    /// Output directory where files will be saved
    pub output_dir: String,
    /// Message about the processing status
    pub message: String,
}

/// Possible job status types.
#[derive(Clone, Copy, PartialEq, Eq, Structural)]
pub enum JobStatusType {
    /// Job is queued and waiting to be processed
    Queued,
    /// Job is currently being processed
    Processing,
    /// Job completed successfully
    Completed,
    /// Job failed with an error
    Failed,
    /// Job was cancelled
    Cancelled,
}

/// Job status information.
pub struct JobStatus {
    /// Unique job identifier
    pub job_id: String,
    /// Current status of the job
    pub status: JobStatusType,
    /// URL being processed
    pub url: String,
    /// Type of URL detected
    pub url_type: String,
    /// Output directory for the job
    pub output_dir: String,
    /// When the job was created (RFC 3339)
    pub created_at: String,
    /// When the job was last updated (RFC 3339)
    pub updated_at: String,
    /// Progress percentage (0-100)
    pub progress: u8,
    /// Current operation being performed
    pub current_operation: Option<String>,
    /// Any error message if the job failed
    pub error_message: Option<String>,
    /// List of output files generated
    pub output_files: Vec<String>,
}

/// Health check response.
pub struct HealthResponse {
    /// Service name
    pub service: String,
    /// Service version
    pub version: String,
    /// Current status
    pub status: String,
    /// Current timestamp (RFC 3339)
    pub timestamp: String,
    /// Service uptime in seconds
    pub uptime: u64,
    /// Number of active jobs
    pub active_jobs: usize,
    /// Number of completed jobs
    pub completed_jobs: usize,
}

/// A step of a job's processing, reported by whoever runs it.
pub enum JobStep {
    /// Processing has begun
    Started,
    /// The package is being processed
    ProcessingPackage,
    /// The output is being organized
    OrganizingOutput,
    /// Processing finished without error
    Succeeded,
    /// Processing failed with this message
    Failed(String),
}

/// Whether a job counts as active (queued or processing).
pub open spec fn is_active(s: JobStatusType) -> bool {
    s == JobStatusType::Queued || s == JobStatusType::Processing
}

/// The number of jobs of `jobs` satisfying `p`.
pub open spec fn count_jobs(jobs: Seq<JobStatus>, p: spec_fn(JobStatusType) -> bool) -> nat
    decreases jobs.len(),
{
    if jobs.len() == 0 {
        0
    } else {
        count_jobs(jobs.drop_last(), p) + if p(jobs.last().status) {
            1nat
        } else {
            0nat
        }
    }
}

/// No job identifier occurs twice.
pub open spec fn unique_ids(jobs: Seq<JobStatus>) -> bool {
    forall|i: int, j: int| 0 <= i < j < jobs.len() ==> jobs[i].job_id@ != jobs[j].job_id@
}

/// Tracks processing jobs.
pub struct JobManager {
    jobs: Vec<JobStatus>,
    output_dir: String,
    start_time: String,
}

/// What a job status holds, as text.
pub struct JobView {
    /// Unique job identifier
    pub job_id: Seq<char>,
    /// Current status
    pub status: JobStatusType,
    /// URL being processed
    pub url: Seq<char>,
    /// Type of URL detected
    pub url_type: Seq<char>,
    /// Output directory
    pub output_dir: Seq<char>,
    /// Creation time
    pub created_at: Seq<char>,
    /// Last update time
    pub updated_at: Seq<char>,
    /// Progress percentage
    pub progress: u8,
    /// Current operation
    pub current_operation: Option<Seq<char>>,
    /// Error message
    pub error_message: Option<Seq<char>>,
    /// Output files
    pub output_files: Seq<Seq<char>>,
}

/// The text of an optional string.
pub open spec fn opt_view(o: Option<String>) -> Option<Seq<char>> {
    match o {
        Some(s) => Some(s@),
        None => None,
    }
}

impl View for JobStatus {
    type V = JobView;

    open spec fn view(&self) -> JobView {
        JobView {
            job_id: self.job_id@,
            status: self.status,
            url: self.url@,
            url_type: self.url_type@,
            output_dir: self.output_dir@,
            created_at: self.created_at@,
            updated_at: self.updated_at@,
            progress: self.progress,
            current_operation: opt_view(self.current_operation),
            error_message: opt_view(self.error_message),
            output_files: self.output_files@.map_values(|f: String| f@),
        }
    }
}

/// `job` after `step`, reported at `now`.
pub open spec fn stepped(job: JobView, step: JobStep, now: Seq<char>) -> JobView {
    match step {
        JobStep::Started => JobView {
            status: JobStatusType::Processing,
            updated_at: now,
            progress: 10,
            current_operation: Some("Starting processing"@),
            ..job
        },
        JobStep::ProcessingPackage => JobView {
            progress: 30,
            current_operation: Some("Processing package"@),
            ..job
        },
        JobStep::OrganizingOutput => JobView {
            progress: 80,
            current_operation: Some("Organizing output"@),
            ..job
        },
        JobStep::Succeeded => JobView {
            status: JobStatusType::Completed,
            progress: 100,
            current_operation: Some("Completed successfully"@),
            updated_at: now,
            ..job
        },
        JobStep::Failed(m) => JobView {
            status: JobStatusType::Failed,
            error_message: Some(m@),
            current_operation: Some("Failed"@),
            updated_at: now,
            ..job
        },
    }
}

/// The job registered as `job_id` in `jobs`, when there is one.
pub open spec fn job_in(jobs: Seq<JobStatus>, job_id: Seq<char>) -> Option<JobView> {
    if exists|i: int| 0 <= i < jobs.len() && #[trigger] jobs[i].job_id@ == job_id {
        Some(jobs[choose|i: int| 0 <= i < jobs.len() && #[trigger] jobs[i].job_id@ == job_id]@)
    } else {
        None
    }
}

impl JobManager {
    /// The job registered as `job_id`, when there is one.
    pub closed spec fn job(&self, job_id: Seq<char>) -> Option<JobView> {
        job_in(self.jobs@, job_id)
    }

    /// The default output directory.
    pub closed spec fn default_dir(&self) -> Seq<char> {
        self.output_dir@
    }

    /// When the service started.
    pub closed spec fn started(&self) -> Seq<char> {
        self.start_time@
    }

    /// The number of jobs.
    pub closed spec fn job_count(&self) -> nat {
        self.jobs@.len()
    }

    /// The number of active jobs.
    pub closed spec fn active_count(&self) -> nat {
        count_jobs(self.jobs@, |s: JobStatusType| is_active(s))
    }

    /// The number of completed jobs.
    pub closed spec fn completed_count(&self) -> nat {
        count_jobs(self.jobs@, |s: JobStatusType| s == JobStatusType::Completed)
    }

    /// The manager's internal consistency: each identifier is held once.
    pub closed spec fn wf(&self) -> bool {
        unique_ids(self.jobs@)
    }

    /// A manager with no jobs, writing to `output_dir` by default, started at
    /// `start_time`.
    pub fn new(output_dir: &str, start_time: &str) -> (m: Self)
        ensures
            m.wf(),
            m.default_dir() == output_dir@,
            m.started() == start_time@,
            m.job_count() == 0,
            forall|id: Seq<char>| #[trigger] m.job(id) is None,
    {
        JobManager {
            jobs: Vec::new(),
            output_dir: String::from_str(output_dir),
            start_time: String::from_str(start_time),
        }
    }

    fn find(&self, job_id: &str) -> (r: Option<usize>)
        ensures
            match r {
                Some(i) => i < self.jobs@.len() && self.jobs@[i as int].job_id@ == job_id@,
                None => forall|i: int| 0 <= i < self.jobs@.len() ==> #[trigger] self.jobs@[i].job_id@ != job_id@,
            },
    {
        let k = chars_of(job_id);
        let mut i: usize = 0;
        while i < self.jobs.len()
            invariant
                i <= self.jobs@.len(),
                k@ == job_id@,
                forall|j: int| 0 <= j < i ==> #[trigger] self.jobs@[j].job_id@ != job_id@,
            decreases self.jobs@.len() - i,
        {
            if chars_eq(&chars_of(self.jobs[i].job_id.as_str()), &k) {
                return Some(i);
            }
            i = i + 1;
        }
        None
    }

    /// Registers a queued job `job_id` for `url` (of type `url_type`), writing
    /// to `output_dir` or the default, created at `now`. The identifier is
    /// fresh: a UUID never seen before.
    pub fn register_job(
        &mut self,
        job_id: &str,
        url: &str,
        url_type: &str,
        output_dir: Option<&str>,
        now: &str,
    ) -> (r: ProcessResponse)
        requires
            old(self).wf(),
            old(self).job(job_id@) is None,
        ensures
            final(self).wf(),
            final(self).default_dir() == old(self).default_dir(),
            final(self).started() == old(self).started(),
            final(self).job_count() == old(self).job_count() + 1,
            final(self).job(job_id@) == Some(JobView {
                job_id: job_id@,
                status: JobStatusType::Queued,
                url: url@,
                url_type: url_type@,
                output_dir: match output_dir {
                    Some(d) => d@,
                    None => old(self).default_dir(),
                },
                created_at: now@,
                updated_at: now@,
                progress: 0,
                current_operation: Some("Validating URL"@),
                error_message: None,
                output_files: Seq::empty(),
            }),
            forall|id: Seq<char>| id != job_id@ ==> #[trigger] final(self).job(id) == old(self).job(id),
            r.job_id@ == job_id@,
            r.status@ == "queued"@,
            r.url_type@ == url_type@,
            r.output_dir@ == match output_dir {
                Some(d) => d@,
                None => old(self).default_dir(),
            },
            r.message@ == "Job queued for processing"@,
    {
        let ghost before = self.jobs@;
        let dir = match output_dir {
            Some(d) => String::from_str(d),
            None => self.output_dir.clone(),
        };
        let job = JobStatus {
            job_id: String::from_str(job_id),
            status: JobStatusType::Queued,
            url: String::from_str(url),
            url_type: String::from_str(url_type),
            output_dir: dir.clone(),
            created_at: String::from_str(now),
            updated_at: String::from_str(now),
            progress: 0,
            current_operation: Some(String::from_str("Validating URL")),
            error_message: None,
            output_files: Vec::new(),
        };
        self.jobs.push(job);
        proof {
            let after = self.jobs@;
            assert(forall|i: int| 0 <= i < before.len() ==> #[trigger] before[i].job_id@ != job_id@);
            assert(unique_ids(after));
            assert(after[after.len() - 1].job_id@ == job_id@);
            let a = choose|i: int| 0 <= i < after.len() && #[trigger] after[i].job_id@ == job_id@;
            assert(a == after.len() - 1);
            assert(after[a]@.output_files =~= Seq::<Seq<char>>::empty());
            assert forall|id: Seq<char>| id != job_id@ implies #[trigger] self.job(id) == old(self).job(id) by {
                if exists|i: int| 0 <= i < after.len() && #[trigger] after[i].job_id@ == id {
                    let x = choose|i: int| 0 <= i < after.len() && #[trigger] after[i].job_id@ == id;
                    assert(x < before.len());
                    assert(before[x].job_id@ == id);
                    let y = choose|i: int| 0 <= i < before.len() && #[trigger] before[i].job_id@ == id;
                    assert(after[y] == before[y]);
                    assert(x == y);
                }
                if exists|i: int| 0 <= i < before.len() && #[trigger] before[i].job_id@ == id {
                    let y = choose|i: int| 0 <= i < before.len() && #[trigger] before[i].job_id@ == id;
                    assert(after[y].job_id@ == id);
                }
            }
        }
        ProcessResponse {
            job_id: String::from_str(job_id),
            status: String::from_str("queued"),
            url_type: String::from_str(url_type),
            output_dir: dir,
            message: String::from_str("Job queued for processing"),
        }
    }

    /// The status of job `job_id`; a `Job not found` error when there is none.
    pub fn get_job_status(&self, job_id: &str) -> (r: Result<&JobStatus>)
        requires
            self.wf(),
        ensures
            match self.job(job_id@) {
                Some(v) => r matches Ok(j) && j@ == v,
                None => r matches Err(e) && e is Message && detail(e) == "Job not found: "@ + job_id@,
            },
    {
        match self.find(job_id) {
            Some(i) => {
                proof {
                    let x = choose|x: int| 0 <= x < self.jobs@.len() && #[trigger] self.jobs@[x].job_id@ == job_id@;
                    assert(x == i);
                }
                Ok(&self.jobs[i])
            },
            None => {
                let mut m = String::from_str("Job not found: ");
                m.append(job_id);
                Err(ProcessorError::Message(m))
            },
        }
    }

    /// Records `step` of job `job_id` at `now`; nothing changes when there is
    /// no such job.
    pub fn advance(&mut self, job_id: &str, step: JobStep, now: &str)
        requires
            old(self).wf(),
        ensures
            final(self).wf(),
            final(self).default_dir() == old(self).default_dir(),
            final(self).started() == old(self).started(),
            final(self).job_count() == old(self).job_count(),
            match old(self).job(job_id@) {
                Some(v) => final(self).job(job_id@) == Some(stepped(v, step, now@)),
                None => final(self).job(job_id@) is None,
            },
            forall|id: Seq<char>| id != job_id@ ==> #[trigger] final(self).job(id) == old(self).job(id),
    {
        let ghost before = self.jobs@;
        let ghost st = step;
        match self.find(job_id) {
            Some(i) => {
                proof {
                    let x = choose|x: int| 0 <= x < before.len() && #[trigger] before[x].job_id@ == job_id@;
                    assert(x == i);
                }
                let mut job = self.jobs.remove(i);
                match step {
                    JobStep::Started => {
                        job.status = JobStatusType::Processing;
                        job.updated_at = String::from_str(now);
                        job.progress = 10;
                        job.current_operation = Some(String::from_str("Starting processing"));
                    },
                    JobStep::ProcessingPackage => {
                        job.progress = 30;
                        job.current_operation = Some(String::from_str("Processing package"));
                    },
                    JobStep::OrganizingOutput => {
                        job.progress = 80;
                        job.current_operation = Some(String::from_str("Organizing output"));
                    },
                    JobStep::Succeeded => {
                        job.status = JobStatusType::Completed;
                        job.progress = 100;
                        job.current_operation = Some(String::from_str("Completed successfully"));
                        job.updated_at = String::from_str(now);
                    },
                    JobStep::Failed(m) => {
                        job.status = JobStatusType::Failed;
                        job.error_message = Some(m);
                        job.current_operation = Some(String::from_str("Failed"));
                        job.updated_at = String::from_str(now);
                    },
                }
                let ghost mid = self.jobs@;
                self.jobs.insert(i, job);
                proof {
                    let after = self.jobs@;
                    assert(mid == before.remove(i as int));
                    assert forall|x: int| 0 <= x < after.len() && x != i implies #[trigger] after[x] == before[x] by {
                        if x < i {
                            assert(after[x] == mid[x]);
                        } else {
                            assert(after[x] == mid[x - 1]);
                        }
                    }
                    assert(unique_ids(after));
                    assert(after[i as int]@ == stepped(before[i as int]@, st, now@));
                    assert forall|id: Seq<char>| id != job_id@ implies #[trigger] self.job(id) == old(self).job(id) by {
                        if exists|k: int| 0 <= k < after.len() && #[trigger] after[k].job_id@ == id {
                            let a = choose|k: int| 0 <= k < after.len() && #[trigger] after[k].job_id@ == id;
                            assert(before[a].job_id@ == id);
                            let b = choose|k: int| 0 <= k < before.len() && #[trigger] before[k].job_id@ == id;
                            assert(after[b].job_id@ == id);
                            assert(a == b);
                        }
                        if exists|k: int| 0 <= k < before.len() && #[trigger] before[k].job_id@ == id {
                            let b = choose|k: int| 0 <= k < before.len() && #[trigger] before[k].job_id@ == id;
                            assert(after[b].job_id@ == id);
                        }
                    }
                }
            },
            None => {},
        }
    }

    /// The health report at `now`, after `uptime` seconds, for `version`.
    pub fn get_health(&self, version: &str, now: &str, uptime: u64) -> (h: HealthResponse)
        ensures
            h.service@ == "LlamaPackageService"@,
            h.version@ == version@,
            h.status@ == "healthy"@,
            h.timestamp@ == now@,
            h.uptime == uptime,
            h.active_jobs == self.active_count(),
            h.completed_jobs == self.completed_count(),
    {
        let mut active: usize = 0;
        let mut completed: usize = 0;
        let mut i: usize = 0;
        while i < self.jobs.len()
            invariant
                i <= self.jobs@.len(),
                active == count_jobs(self.jobs@.take(i as int), |s: JobStatusType| is_active(s)),
                completed == count_jobs(self.jobs@.take(i as int), |s: JobStatusType| s == JobStatusType::Completed),
                active <= i,
                completed <= i,
            decreases self.jobs@.len() - i,
        {
            assert(self.jobs@.take(i + 1).drop_last() =~= self.jobs@.take(i as int));
            let s = self.jobs[i].status;
            if s == JobStatusType::Processing || s == JobStatusType::Queued {
                active = active + 1;
            }
            if s == JobStatusType::Completed {
                completed = completed + 1;
            }
            i = i + 1;
        }
        assert(self.jobs@.take(self.jobs@.len() as int) =~= self.jobs@);
        HealthResponse {
            service: String::from_str("LlamaPackageService"),
            version: String::from_str(version),
            status: String::from_str("healthy"),
            timestamp: String::from_str(now),
            uptime,
            active_jobs: active,
            completed_jobs: completed,
        }
    }

    /// The default output directory.
    pub fn output_dir(&self) -> (r: &String)
        ensures
            r@ == self.default_dir(),
    {
        &self.output_dir
    }
}

/// Whether a request asks for its output to be organized (the default).
pub fn wants_organized_output(request: &ProcessRequest) -> (b: bool)
    ensures
        b == match request.config {
            Some(c) => match c.organize_output {
                Some(o) => o,
                None => true,
            },
            None => true,
        },
{
    match &request.config {
        Some(c) => match c.organize_output {
            Some(o) => o,
            None => true,
        },
        None => true,
    }
}

/// AI analysis request.
pub struct AnalysisRequest {
    /// Repository URL to analyze
    pub repository: String,
    /// Type of analysis to perform
    pub analysis_type: String,
    /// Optional context for the analysis
    pub context: Option<String>,
}

/// Request to start a conversation about a repository.
pub struct ConversationRequest {
    /// Repository to discuss
    pub repository: String,
}

/// Response to a started conversation.
pub struct ConversationResponse {
    /// Conversation ID
    pub conversation_id: String,
}

/// A message sent in a conversation.
pub struct MessageRequest {
    /// Conversation ID
    pub conversation_id: String,
    /// Message to send
    pub message: String,
}

/// The answer to a message.
pub struct MessageResponse {
    /// AI response
    pub response: String,
}

/// Sending a message in a conversation is not supported: always an error.
pub fn send_message(request: &MessageRequest) -> (r: Result<MessageResponse>)
    ensures
        r matches Err(e) && e is Message && detail(e) == "Conversation management not yet implemented"@,
{
    Err(ProcessorError::new("Conversation management not yet implemented"))
}

/// Every step keeps what identifies a job: its identifier, URL, URL type,
/// output directory, creation time and output files.
pub proof fn law_steps_keep_identity(v: JobView, step: JobStep, now: Seq<char>)
    ensures
        stepped(v, step, now).job_id == v.job_id,
        stepped(v, step, now).url == v.url,
        stepped(v, step, now).url_type == v.url_type,
        stepped(v, step, now).output_dir == v.output_dir,
        stepped(v, step, now).created_at == v.created_at,
        stepped(v, step, now).output_files == v.output_files,
{
}

/// A job that succeeds is completed at full progress; one that fails is
/// failed with its message; neither counts as active afterwards.
pub proof fn law_finished_jobs(v: JobView, m: String, now: Seq<char>)
    ensures
        stepped(v, JobStep::Succeeded, now).status == JobStatusType::Completed,
        stepped(v, JobStep::Succeeded, now).progress == 100,
        stepped(v, JobStep::Failed(m), now).status == JobStatusType::Failed,
        stepped(v, JobStep::Failed(m), now).error_message == Some(m@),
        !is_active(stepped(v, JobStep::Succeeded, now).status),
        !is_active(stepped(v, JobStep::Failed(m), now).status),
{
}

/// A job that runs through its steps in order ends completed, at full progress.
pub proof fn law_successful_run(v: JobView, t1: Seq<char>, t2: Seq<char>)
    ensures
        ({
            let done = stepped(
                stepped(
                    stepped(stepped(v, JobStep::Started, t1), JobStep::ProcessingPackage, t1),
                    JobStep::OrganizingOutput,
                    t1,
                ),
                JobStep::Succeeded,
                t2,
            );
            &&& done.status == JobStatusType::Completed
            &&& done.progress == 100
            &&& done.updated_at == t2
            &&& done.current_operation == Some("Completed successfully"@)
        }),
{
}

/// Active and completed jobs together never outnumber the jobs.
pub proof fn law_health_counts(jobs: Seq<JobStatus>)
    ensures
        count_jobs(jobs, |s: JobStatusType| is_active(s)) + count_jobs(
            jobs,
            |s: JobStatusType| s == JobStatusType::Completed,
        ) <= jobs.len(),
    decreases jobs.len(),
{
    if jobs.len() > 0 {
        law_health_counts(jobs.drop_last());
    }
}

} // verus!
