//! The job store: which uploads are accepted, how a job is laid out on
//! storage, and the steps that take it from admission to its outcome.

use vstd::prelude::*;
use vstd::string::StringExecFns;
use crate::errors::{AppError, ErrorView};
use crate::ids::{is_canonical_id, new_job_id};
use crate::text::{same_text, text_of};

verus! {

/// The file that marks a job directory as complete.
pub const JOB_DONE_MARKER: &'static str = ".done";

/// What the completion marker holds.
pub const JOB_DONE_CONTENT: &'static str = "ok";

/// The artifact with the vocals, within a job directory.
pub const VOCALS_FILE: &'static str = "vocals.wav";

/// The artifact with everything but the vocals, within a job directory.
pub const INSTRUMENTAL_FILE: &'static str = "instrumental.wav";

/// The multipart field that carries the upload.
pub const UPLOAD_FIELD: &'static str = "file";

/// What a client gets for a completed job.
#[derive(Debug, Clone, PartialEq, Eq)]
pub struct JobResponse {
    pub job_id: String,
    pub instrumental_url: String,
    pub vocals_url: String,
}

/// A completed job with the name of the file it was made from.
#[derive(Debug, Clone, PartialEq, Eq)]
pub struct JobWithMeta {
    pub response: JobResponse,
    pub file_name: Option<String>,
}

/// A job that has been accepted and is about to be created.
#[derive(Debug, Clone, PartialEq, Eq)]
pub struct JobPlan {
    /// The fresh id of the job, which names its directory.
    pub job_id: String,
    /// The name under which the upload is kept in that directory.
    pub input_file_name: String,
}

/// Whether `ext` is one of the accepted extensions, in lower case.
pub open spec fn is_allowed_text(ext: Seq<char>) -> bool {
    ext == "mp3"@ || ext == "wav"@ || ext == "m4a"@ || ext == "flac"@ || ext == "ogg"@ || ext
        == "aac"@
}

/// The extension of the final component of the path `file_name`, if it has
/// one.
pub uninterp spec fn path_extension(file_name: Seq<char>) -> Option<Seq<char>>;

/// `s` in lower case.
pub uninterp spec fn lowercase_of(s: Seq<char>) -> Seq<char>;

/// What becomes of an upload with the given file name: the extension
/// under which it is accepted, or the reason why it is not.
pub open spec fn extension_verdict(file_name: Option<Seq<char>>) -> Result<
    Seq<char>,
    ErrorView,
> {
    match file_name {
        None => Err(ErrorView::BadRequest("filename missing"@)),
        Some(name) => checked_extension(
            match path_extension(name) {
                Some(ext) => Some(lowercase_of(ext)),
                None => None,
            },
        ),
    }
}

/// What becomes of an upload whose file name has the given extension, in
/// lower case.
pub open spec fn checked_extension(extension: Option<Seq<char>>) -> Result<Seq<char>, ErrorView> {
    match extension {
        None => Err(ErrorView::BadRequest("unable to detect extension"@)),
        Some(ext) => if is_allowed_text(ext) {
            Ok(ext)
        } else {
            Err(ErrorView::BadRequest("unsupported file type: ."@ + ext))
        },
    }
}

/// The outcome of a check, with texts in place of strings.
pub open spec fn verdict_of(outcome: Result<String, AppError>) -> Result<Seq<char>, ErrorView> {
    match outcome {
        Ok(ext) => Ok(ext@),
        Err(e) => Err(e@),
    }
}

/// The extension of the path `file_name`.
///
/// Trusted: `Path::extension` gives the part of the final component after
/// its last dot, and nothing for a component without a dot or with its only
/// dot in front. The answer depends on the name alone; the contract gives
/// it its name.
#[verifier::external_body]
pub(crate) fn extension_of(file_name: &str) -> (ext: Option<String>)
    ensures
        match ext {
            Some(e) => path_extension(file_name@) == Some(e@),
            None => path_extension(file_name@) is None,
        },
{
    match std::path::Path::new(file_name).extension() {
        Some(ext) => match ext.to_str() {
            Some(text) => Some(text.to_string()),
            None => None,
        },
        None => None,
    }
}

/// `s` in lower case.
///
/// Trusted: `str::to_lowercase` maps each character by the Unicode rules
/// for lower case, which depend on the text alone; the contract gives the
/// result its name.
#[verifier::external_body]
pub(crate) fn to_lowercase(s: &str) -> (lower: String)
    ensures
        lower@ == lowercase_of(s@),
{
    s.to_lowercase()
}

/// Whether `ext` is an accepted extension. Case matters: the accepted
/// extensions are in lower case.
pub fn is_allowed_extension(ext: &str) -> (allowed: bool)
    ensures
        allowed == is_allowed_text(ext@),
{
    same_text(ext, "mp3") || same_text(ext, "wav") || same_text(ext, "m4a") || same_text(
        ext,
        "flac",
    ) || same_text(ext, "ogg") || same_text(ext, "aac")
}

/// Accepts or refuses an upload by the extension of its file name, given
/// in lower case, or `None` where the name has none.
pub fn check_extension(extension: Option<String>) -> (outcome: Result<String, AppError>)
    ensures
        verdict_of(outcome) == checked_extension(
            match extension {
                Some(e) => Some(e@),
                None => None,
            },
        ),
{
    match extension {
        None => Err(AppError::BadRequest(String::from_str("unable to detect extension"))),
        Some(ext) => if is_allowed_extension(ext.as_str()) {
            Ok(ext)
        } else {
            Err(
                AppError::BadRequest(
                    String::from_str("unsupported file type: .").concat(ext.as_str()),
                ),
            )
        },
    }
}

/// Accepts or refuses an upload by its declared file name.
///
/// The name must be there and must have an extension; the extension, in
/// lower case, must be one of the accepted ones. Nothing is created for an
/// upload that is refused.
pub fn upload_extension(file_name: Option<&str>) -> (outcome: Result<String, AppError>)
    ensures
        verdict_of(outcome) == extension_verdict(text_of(file_name)),
{
    match file_name {
        None => Err(AppError::BadRequest(String::from_str("filename missing"))),
        Some(name) => {
            let extension = match extension_of(name) {
                Some(ext) => Some(to_lowercase(ext.as_str())),
                None => None,
            };
            check_extension(extension)
        },
    }
}

/// The name under which an upload with extension `ext` is kept.
pub open spec fn input_name_text(ext: Seq<char>) -> Seq<char> {
    "input."@ + ext
}

/// The address of the vocals of job `job_id`.
pub open spec fn vocals_url_text(job_id: Seq<char>) -> Seq<char> {
    "/api/jobs/"@ + job_id + "/vocals"@
}

/// The address of the instrumental of job `job_id`.
pub open spec fn instrumental_url_text(job_id: Seq<char>) -> Seq<char> {
    "/api/jobs/"@ + job_id + "/instrumental"@
}

/// Whether the multipart field named `name` carries the upload.
pub fn is_upload_field(name: Option<&str>) -> (yes: bool)
    ensures
        yes == (text_of(name) == Some(UPLOAD_FIELD@)),
{
    match name {
        Some(n) => same_text(n, UPLOAD_FIELD),
        None => false,
    }
}

/// The error for a request body without an upload.
pub fn missing_upload() -> (e: AppError)
    ensures
        e@ == ErrorView::BadRequest("file field missing"@),
{
    AppError::BadRequest(String::from_str("file field missing"))
}

/// Decides whether an upload becomes a job, and plans the job if so.
///
/// An upload is accepted by its declared file name alone. An accepted
/// upload gets a fresh job id, which names the job directory, and is kept
/// in it as `input.<ext>`. A refused upload gets nothing.
pub fn plan_upload(file_name: Option<&str>) -> (outcome: Result<JobPlan, AppError>)
    ensures
        match outcome {
            Ok(plan) => {
                &&& extension_verdict(text_of(file_name)) matches Ok(ext)
                &&& plan.input_file_name@ == input_name_text(ext)
                &&& is_canonical_id(plan.job_id@)
            },
            Err(e) => extension_verdict(text_of(file_name)) == Err::<Seq<char>, ErrorView>(e@),
        },
{
    match upload_extension(file_name) {
        Ok(extension) => {
            let job_id = new_job_id();
            let input_file_name = String::from_str("input.").concat(extension.as_str());
            Ok(JobPlan { job_id, input_file_name })
        },
        Err(e) => Err(e),
    }
}

/// What a client is told of the completed job `job_id`.
pub fn job_response(job_id: &str) -> (response: JobResponse)
    ensures
        response.job_id@ == job_id@,
        response.instrumental_url@ == instrumental_url_text(job_id@),
        response.vocals_url@ == vocals_url_text(job_id@),
{
    JobResponse {
        job_id: String::from_str(job_id),
        instrumental_url: String::from_str("/api/jobs/").concat(job_id).concat("/instrumental"),
        vocals_url: String::from_str("/api/jobs/").concat(job_id).concat("/vocals"),
    }
}

/// The completed job `job_id`, made from the upload named `file_name`.
pub fn completed_job(job_id: &str, file_name: &str) -> (job: JobWithMeta)
    ensures
        job.response.job_id@ == job_id@,
        job.response.instrumental_url@ == instrumental_url_text(job_id@),
        job.response.vocals_url@ == vocals_url_text(job_id@),
        job.file_name matches Some(name) && name@ == file_name@,
{
    JobWithMeta { response: job_response(job_id), file_name: Some(String::from_str(file_name)) }
}

/// A step in the creation of a job, in the order in which they are taken.
#[derive(Debug, Clone, Copy, PartialEq, Eq, Structural)]
pub enum JobStep {
    /// Create the job directory.
    CreateDirectory,
    /// Persist the upload in it.
    SaveInput,
    /// Run the agent on the persisted upload.
    RunAgent,
    /// Write the completion marker.
    WriteMarker,
}

/// What to do once a step has been attempted.
#[derive(Debug, Clone, Copy, PartialEq, Eq, Structural)]
pub enum NextAction {
    /// Take this step next.
    Proceed(JobStep),
    /// Remove the job directory with all it holds, then report the failure.
    RollBack,
    /// The job is done: report success.
    Complete,
}

/// The action that follows the attempt of `step`.
///
/// A step that succeeds leads to the next one, and the last one to
/// completion. A failure up to and including the run of the agent rolls the
/// job back. A marker that cannot be written is no failure of the job.
pub open spec fn action_after(step: JobStep, succeeded: bool) -> NextAction {
    match step {
        JobStep::CreateDirectory => if succeeded {
            NextAction::Proceed(JobStep::SaveInput)
        } else {
            NextAction::RollBack
        },
        JobStep::SaveInput => if succeeded {
            NextAction::Proceed(JobStep::RunAgent)
        } else {
            NextAction::RollBack
        },
        JobStep::RunAgent => if succeeded {
            NextAction::Proceed(JobStep::WriteMarker)
        } else {
            NextAction::RollBack
        },
        JobStep::WriteMarker => NextAction::Complete,
    }
}

/// The first step in the creation of a job.
pub fn first_step() -> (step: JobStep)
    ensures
        step == JobStep::CreateDirectory,
{
    JobStep::CreateDirectory
}

/// The action that follows the attempt of `step`.
pub fn after_step(step: JobStep, succeeded: bool) -> (next: NextAction)
    ensures
        next == action_after(step, succeeded),
{
    match step {
        JobStep::CreateDirectory => if succeeded {
            NextAction::Proceed(JobStep::SaveInput)
        } else {
            NextAction::RollBack
        },
        JobStep::SaveInput => if succeeded {
            NextAction::Proceed(JobStep::RunAgent)
        } else {
            NextAction::RollBack
        },
        JobStep::RunAgent => if succeeded {
            NextAction::Proceed(JobStep::WriteMarker)
        } else {
            NextAction::RollBack
        },
        JobStep::WriteMarker => NextAction::Complete,
    }
}

/// The action in which the creation of a job ends, when its steps are
/// taken from `step` on and turn out as `outcomes` tells, one outcome for
/// each step attempted. `None` if the outcomes run out before the end.
pub open spec fn creation_ends_in(step: JobStep, outcomes: Seq<bool>) -> Option<NextAction>
    decreases outcomes.len(),
{
    if outcomes.len() == 0 {
        None
    } else {
        match action_after(step, outcomes[0]) {
            NextAction::Proceed(next) => creation_ends_in(next, outcomes.drop_first()),
            end => Some(end),
        }
    }
}

/// The creation of a job ends in completion exactly when its directory was
/// created, its input saved and the agent run, all with success; whether
/// the marker could be written makes no difference. Any failure before that
/// ends in a rollback: no failed attempt leaves a job directory behind.
pub proof fn lemma_creation_completes_or_rolls_back(outcomes: Seq<bool>)
    requires
        outcomes.len() == 4,
    ensures
        creation_ends_in(JobStep::CreateDirectory, outcomes) == Some(
            if outcomes[0] && outcomes[1] && outcomes[2] {
                NextAction::Complete
            } else {
                NextAction::RollBack
            },
        ),
{
    reveal_with_fuel(creation_ends_in, 5);
    let rest1 = outcomes.drop_first();
    let rest2 = rest1.drop_first();
    let rest3 = rest2.drop_first();
    assert(rest1[0] == outcomes[1]);
    assert(rest2[0] == outcomes[2]);
    assert(rest3[0] == outcomes[3]);
}

} // verus!
