//! Jobs: the state of an edit request while its proof is generated.

use vstd::prelude::*;
use vstd::string::*;

verus! {

/// Job status enum
#[derive(Debug, Clone, Copy, PartialEq, Eq, Structural)]
pub enum JobStatus {
    Pending,
    Processing,
    Completed,
    Failed,
}

/// Type of operation being performed
#[derive(Debug, Clone, Copy, PartialEq, Eq, Structural)]
pub enum JobType {
    Sign,
    Crop,
    Blur,
    Resize,
    Grayscale,
    Verify,
}

/// Edit parameters for different operations
#[derive(Debug, Clone, Copy, PartialEq, Eq, Structural)]
pub enum EditParams {
    Crop { x: u32, y: u32, width: u32, height: u32 },
    Blur { x: u32, y: u32, width: u32, height: u32 },
    Resize { new_width: u32, new_height: u32 },
    Grayscale,
}

#[derive(Clone)]
/// A job representing an async operation; times are milliseconds since the Unix
/// epoch (UTC).
pub struct Job {
    pub id: String,
    pub job_type: JobType,
    pub status: JobStatus,
    pub created_at: i64,
    pub updated_at: i64,
    pub progress: u8,
    pub message: Option<String>,
    pub result: Option<JobResult>,
    pub error: Option<String>,
}

/// Result of a completed job
#[derive(Clone)]
pub struct JobResult {
    /// Base64-encoded edited image
    pub edited_image: Option<String>,
    /// Base64-encoded proof
    pub proof: Option<String>,
    /// Proof size in bytes
    pub proof_size: Option<usize>,
    /// Time taken for proof generation in milliseconds
    pub proving_time_ms: Option<u64>,
    /// Time taken for verification in milliseconds
    pub verification_time_ms: Option<u64>,
    /// Whether verification passed
    pub verified: Option<bool>,
    /// Technical details for display
    pub technical_details: Option<TechnicalDetails>,
}

/// Technical details about the proof for educational display
#[derive(Clone)]
pub struct TechnicalDetails {
    pub image_pixels: usize,
    pub circuit_size: Option<usize>,
    pub num_constraints: Option<usize>,
    pub hash_type: String,
    pub proof_system: String,
    pub field_size_bits: u32,
    pub security_bits: u32,
}

/// Trusted: calls `chrono::Utc::now` and returns `timestamp_millis`. Nothing is
/// claimed of the reading: it depends on the clock.
#[verifier::external_body]
fn utc_now_millis() -> (t: i64) {
    chrono::Utc::now().timestamp_millis()
}

/// A version-4 UUID in hyphenated text form: 36 characters, hyphens at
/// positions 8, 13, 18 and 23, and the version digit `4` at position 14.
pub open spec fn is_uuid_v4_text(s: Seq<char>) -> bool {
    &&& s.len() == 36
    &&& s[8] == '-' && s[13] == '-' && s[18] == '-' && s[23] == '-'
    &&& s[14] == '4'
}

/// Trusted: calls `uuid::Uuid::new_v4` and formats it with `to_string`. Claimed:
/// the text has the hyphenated form of a version-4 UUID; its random digits are
/// left open.
#[verifier::external_body]
fn new_job_id() -> (id: String)
    ensures
        is_uuid_v4_text(id@),
{
    uuid::Uuid::new_v4().to_string()
}

/// The fields that no job update changes: identity, type and creation time.
pub open spec fn same_job(a: Job, b: Job) -> bool {
    &&& a.id == b.id
    &&& a.job_type == b.job_type
    &&& a.created_at == b.created_at
}

impl Job {
    pub fn new(job_type: JobType) -> (job: Self)
        ensures
            job.job_type == job_type,
            is_uuid_v4_text(job.id@),
            job.status == JobStatus::Pending,
            job.created_at == job.updated_at,
            job.progress == 0,
            job.message matches Some(m) && m@ == "Job created"@,
            job.result is None,
            job.error is None,
    {
        let now = utc_now_millis();
        Job {
            id: new_job_id(),
            job_type,
            status: JobStatus::Pending,
            created_at: now,
            updated_at: now,
            progress: 0,
            message: Some(String::from_str("Job created")),
            result: None,
            error: None,
        }
    }

    pub fn set_processing(&mut self, message: &str)
        ensures
            same_job(*final(self), *old(self)),
            final(self).status == JobStatus::Processing,
            final(self).message matches Some(m) && m@ == message@,
            final(self).progress == old(self).progress,
            final(self).result == old(self).result,
            final(self).error == old(self).error,
    {
        self.status = JobStatus::Processing;
        self.message = Some(String::from_str(message));
        self.updated_at = utc_now_millis();
    }

    pub fn set_progress(&mut self, progress: u8, message: &str)
        ensures
            same_job(*final(self), *old(self)),
            final(self).status == old(self).status,
            final(self).progress == progress,
            final(self).message matches Some(m) && m@ == message@,
            final(self).result == old(self).result,
            final(self).error == old(self).error,
    {
        self.progress = progress;
        self.message = Some(String::from_str(message));
        self.updated_at = utc_now_millis();
    }

    pub fn set_completed(&mut self, result: JobResult)
        ensures
            same_job(*final(self), *old(self)),
            final(self).status == JobStatus::Completed,
            final(self).progress == 100,
            final(self).message matches Some(m) && m@ == "Completed successfully"@,
            final(self).result == Some(result),
            final(self).error == old(self).error,
    {
        self.status = JobStatus::Completed;
        self.progress = 100;
        self.message = Some(String::from_str("Completed successfully"));
        self.result = Some(result);
        self.updated_at = utc_now_millis();
    }

    pub fn set_failed(&mut self, error: &str)
        ensures
            same_job(*final(self), *old(self)),
            final(self).status == JobStatus::Failed,
            final(self).message matches Some(m) && m@ == "Job failed"@,
            final(self).error matches Some(e) && e@ == error@,
            final(self).progress == old(self).progress,
            final(self).result == old(self).result,
    {
        self.status = JobStatus::Failed;
        self.message = Some(String::from_str("Job failed"));
        self.error = Some(String::from_str(error));
        self.updated_at = utc_now_millis();
    }
}

} // verus!
