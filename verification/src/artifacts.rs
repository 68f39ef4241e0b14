//! Serving the artifacts of a job.

use vstd::prelude::*;
use vstd::string::StringExecFns;
use crate::errors::{AppError, ErrorView};
use crate::jobs::{INSTRUMENTAL_FILE, VOCALS_FILE};

verus! {

/// The media type of every artifact.
pub const ARTIFACT_CONTENT_TYPE: &'static str = "audio/wav";

/// One of the two artifacts of a job.
#[derive(Debug, Clone, Copy, PartialEq, Eq, Structural)]
pub enum ArtifactKind {
    Vocals,
    Instrumental,
}

/// What came of opening an artifact for reading.
#[derive(Debug, Clone, PartialEq, Eq)]
pub enum OpenOutcome {
    /// The file is there and open.
    Opened,
    /// There is no such file.
    Missing,
    /// Opening failed for another reason; the payload says which.
    Failed(String),
}

/// The headers under which an artifact is sent.
#[derive(Debug, Clone, PartialEq, Eq)]
pub struct ArtifactHeaders {
    pub content_type: String,
    pub content_disposition: String,
}

impl ArtifactKind {
    /// The name of the artifact within its job directory.
    pub open spec fn file_name_text(self) -> Seq<char> {
        match self {
            ArtifactKind::Vocals => VOCALS_FILE@,
            ArtifactKind::Instrumental => INSTRUMENTAL_FILE@,
        }
    }

    /// The name of the artifact within its job directory.
    pub fn file_name(&self) -> (name: &'static str)
        ensures
            name@ == self.file_name_text(),
    {
        match self {
            ArtifactKind::Vocals => VOCALS_FILE,
            ArtifactKind::Instrumental => INSTRUMENTAL_FILE,
        }
    }
}

/// The disposition that offers the file `file_name` for download.
pub open spec fn disposition_text(file_name: Seq<char>) -> Seq<char> {
    "attachment; filename=\""@ + file_name + "\""@
}

/// Decides how a request for an artifact is answered, given what came of
/// opening its file.
///
/// A file that is not there is reported as not found, whatever the reason:
/// a job that never existed, one that has not produced the artifact, and
/// one that has expired cannot be told apart. Any other failure to open is
/// a storage error. An open file is sent as a download of its own name.
pub fn decide_audio(kind: ArtifactKind, opened: OpenOutcome) -> (outcome: Result<
    ArtifactHeaders,
    AppError,
>)
    ensures
        match opened {
            OpenOutcome::Opened => {
                &&& outcome matches Ok(headers)
                &&& headers.content_type@ == ARTIFACT_CONTENT_TYPE@
                &&& headers.content_disposition@ == disposition_text(kind.file_name_text())
            },
            OpenOutcome::Missing => outcome matches Err(e) && e@ == ErrorView::NotFound,
            OpenOutcome::Failed(reason) => outcome matches Err(e) && e@ == ErrorView::Io(reason@),
        },
{
    match opened {
        OpenOutcome::Opened => Ok(
            ArtifactHeaders {
                content_type: String::from_str(ARTIFACT_CONTENT_TYPE),
                content_disposition: String::from_str("attachment; filename=\"").concat(
                    kind.file_name(),
                ).concat("\""),
            },
        ),
        OpenOutcome::Missing => Err(AppError::NotFound),
        OpenOutcome::Failed(reason) => Err(AppError::Io(reason)),
    }
}

} // verus!
