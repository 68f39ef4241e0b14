//! The boundary to the separation agent: how it is invoked and how its run
//! is judged.

use vstd::prelude::*;
use vstd::string::StringExecFns;
use crate::errors::{AppError, ErrorView};

verus! {

/// What the agent reports of a successful run. The paths are informative
/// only: the artifacts are looked for under their fixed names.
#[derive(Debug, Clone, PartialEq, Eq)]
pub struct AgentResponse {
    pub vocals: String,
    pub instrumental: String,
}

/// How an invocation of the agent ended.
#[derive(Debug, Clone, PartialEq, Eq)]
pub enum AgentExit {
    /// The process could not be started; the payload says why.
    SpawnFailed(String),
    /// The process ran and exited.
    Exited {
        /// Whether the exit status reports success.
        success: bool,
        /// The exit status, as text.
        status: String,
        /// What the process wrote to its standard error.
        stderr: Vec<u8>,
    },
}

/// `bytes` read as UTF-8, with a replacement character for each part that
/// is not valid.
pub uninterp spec fn lossy_text(bytes: Seq<u8>) -> Seq<char>;

/// `bytes` read as UTF-8 text.
///
/// Trusted: `String::from_utf8_lossy` decodes valid UTF-8 as it is and puts
/// U+FFFD in place of each invalid sequence; the result depends on the
/// bytes alone, and the contract gives it its name.
#[verifier::external_body]
pub(crate) fn decode_lossy(bytes: &Vec<u8>) -> (text: String)
    ensures
        text@ == lossy_text(bytes@),
{
    String::from_utf8_lossy(bytes).to_string()
}

/// The arguments with which the interpreter runs the agent.
pub open spec fn argument_texts(
    agent_script: Seq<char>,
    input_path: Seq<char>,
    job_dir: Seq<char>,
) -> Seq<Seq<char>> {
    seq![agent_script, "--input"@, input_path, "--output-dir"@, job_dir]
}

/// The arguments with which the interpreter runs the agent: the script,
/// the input file and the directory for the output.
pub fn agent_arguments(agent_script: &str, input_path: &str, job_dir: &str) -> (args: Vec<String>)
    ensures
        args@.len() == 5,
        forall|i: int|
            0 <= i < 5 ==> (#[trigger] args@[i])@ == argument_texts(
                agent_script@,
                input_path@,
                job_dir@,
            )[i],
{
    let mut args: Vec<String> = Vec::new();
    args.push(String::from_str(agent_script));
    args.push(String::from_str("--input"));
    args.push(String::from_str(input_path));
    args.push(String::from_str("--output-dir"));
    args.push(String::from_str(job_dir));
    args
}

/// The failure that an invocation amounts to, with `stderr_text` for what
/// the process wrote to its standard error; `None` if it exited with
/// success.
pub open spec fn exit_failure(exit: AgentExit, stderr_text: Seq<char>) -> Option<ErrorView> {
    match exit {
        AgentExit::SpawnFailed(reason) => Some(
            ErrorView::AgentFailure("failed to spawn agent: "@ + reason@),
        ),
        AgentExit::Exited { success, status, stderr } => if success {
            None
        } else {
            Some(ErrorView::AgentFailure("agent exited with "@ + status@ + ": "@ + stderr_text))
        },
    }
}

/// Judges an invocation by its exit, given what the process wrote to its
/// standard error as text.
///
/// An agent that could not be started, or that exited with a failure
/// status, has failed; the error carries the diagnostics. After an exit
/// with success the structured output still has to be parsed.
pub fn judge_exit(exit: &AgentExit, stderr_text: &str) -> (outcome: Result<(), AppError>)
    ensures
        match outcome {
            Ok(_) => exit_failure(*exit, stderr_text@) is None,
            Err(e) => exit_failure(*exit, stderr_text@) == Some(e@),
        },
{
    match exit {
        AgentExit::SpawnFailed(reason) => Err(
            AppError::AgentFailure(
                String::from_str("failed to spawn agent: ").concat(reason.as_str()),
            ),
        ),
        AgentExit::Exited { success, status, stderr } => if *success {
            Ok(())
        } else {
            Err(
                AppError::AgentFailure(
                    String::from_str("agent exited with ").concat(status.as_str()).concat(
                        ": ",
                    ).concat(stderr_text),
                ),
            )
        },
    }
}

/// The standard error of an exit, or nothing for a process that never ran.
pub open spec fn stderr_of(exit: AgentExit) -> Seq<u8> {
    match exit {
        AgentExit::SpawnFailed(_) => Seq::empty(),
        AgentExit::Exited { stderr, .. } => stderr@,
    }
}

/// Judges an invocation of the agent by how it ended.
///
/// `Ok` means that the agent exited with success and its structured output
/// is to be parsed next.
pub fn judge_run(exit: &AgentExit) -> (outcome: Result<(), AppError>)
    ensures
        match outcome {
            Ok(_) => exit_failure(*exit, lossy_text(stderr_of(*exit))) is None,
            Err(e) => exit_failure(*exit, lossy_text(stderr_of(*exit))) == Some(e@),
        },
{
    match exit {
        AgentExit::SpawnFailed(_) => judge_exit(exit, ""),
        AgentExit::Exited { success, status, stderr } => {
            if *success {
                judge_exit(exit, "")
            } else {
                let text = decode_lossy(stderr);
                judge_exit(exit, text.as_str())
            }
        },
    }
}

/// Judges the structured output of an agent that exited with success:
/// output that parses is the outcome, output that does not is an error
/// with the parser's message.
pub fn judge_output(parsed: Result<AgentResponse, String>) -> (outcome: Result<
    AgentResponse,
    AppError,
>)
    ensures
        match parsed {
            Ok(response) => outcome == Ok::<AgentResponse, AppError>(response),
            Err(message) => outcome matches Err(e) && e@ == ErrorView::Json(message@),
        },
{
    match parsed {
        Ok(response) => Ok(response),
        Err(message) => Err(AppError::Json(message)),
    }
}

} // verus!
