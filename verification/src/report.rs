//! Assembly of the terminal report for one execution: the decoded standard
//! output and standard error streams become a labeled two-block string, tagged
//! success or failure by the interpreter's exit status.  The pipeline decision
//! function maps everything the outside world reported about one invocation —
//! artifact trouble, a launch failure, or a completed run — to the single
//! terminal message the worker sends, together with the artifact bookkeeping
//! the worker owes on every path.

use crate::decoder::{decode_to_chars, decoded_text};
use crate::text::{chars_of_str, string_from_chars, trim_chars, trimmed};
use vstd::prelude::*;

verus! {

/// The label that opens the decoded-standard-output block.
pub open spec fn output_label() -> Seq<char> {
    "[Output]"@
}

/// The label that opens the decoded-standard-error block.
pub open spec fn errors_label() -> Seq<char> {
    "[Errors]"@
}

/// One labeled report block: absent when its body is empty, otherwise the
/// label, the body and a closing line break.
pub open spec fn block(label: Seq<char>, body: Seq<char>) -> Seq<char> {
    if body.len() == 0 {
        Seq::empty()
    } else {
        label + seq!['\n'] + body + seq!['\n']
    }
}

/// The two-block report for a pair of decoded streams: an output block, then
/// an errors block, each present only when non-empty, the whole trimmed.
pub open spec fn combined_report(out: Seq<char>, err: Seq<char>) -> Seq<char> {
    trimmed(block(output_label(), out) + block(errors_label(), err))
}

/// The report a failed run carries: the exit-status text, then the two-block
/// report of whatever the interpreter still produced.
pub open spec fn failure_report(status: Seq<char>, report: Seq<char>) -> Seq<char> {
    "Exit code: "@ + status + seq!['\n'] + report
}

/// The report text for one completed run, success or failure.
pub open spec fn outcome_report(
    stdout: Seq<u8>,
    stderr: Seq<u8>,
    exit_ok: bool,
    status: Seq<char>,
) -> Seq<char> {
    let rep = combined_report(decoded_text(stdout), decoded_text(stderr));
    if exit_ok {
        rep
    } else {
        failure_report(status, rep)
    }
}

/// Terminal result of one execution: the formatted report, tagged by whether
/// the interpreter exited zero.
#[derive(Clone, Debug, PartialEq)]
pub enum ExecutionOutcome {
    Success(String),
    Failure(String),
}

/// What stopped the pipeline before the interpreter could finish.  A non-zero
/// interpreter exit is not among these: its output is still meaningful and is
/// carried forward as a failure-tagged report instead.
#[derive(Clone, Debug, PartialEq)]
pub enum PipelineError {
    /// The temporary artifact could not be created.
    ArtifactCreateFailed(String),
    /// The encoded payload could not be written to the artifact.
    ArtifactWriteFailed(String),
    /// The interpreter binary could not be invoked at all.
    LaunchFailed(String),
}

/// Decodes both captured streams and assembles the two-block report.
pub fn run_report(stdout: &[u8], stderr: &[u8]) -> (r: String)
    requires
        4 * stdout@.len() <= usize::MAX as int,
        4 * stderr@.len() <= usize::MAX as int,
    ensures
        r@ == combined_report(decoded_text(stdout@), decoded_text(stderr@)),
{
    let out = decode_to_chars(stdout);
    let err = decode_to_chars(stderr);
    let mut buf: Vec<char> = Vec::new();
    if out.len() > 0 {
        let mut label = chars_of_str("[Output]");
        buf.append(&mut label);
        buf.push('\n');
        let mut body = out;
        buf.append(&mut body);
        buf.push('\n');
    }
    proof {
        assert(buf@ =~= block(output_label(), decoded_text(stdout@)));
    }
    if err.len() > 0 {
        let mut label = chars_of_str("[Errors]");
        buf.append(&mut label);
        buf.push('\n');
        let mut body = err;
        buf.append(&mut body);
        buf.push('\n');
    }
    proof {
        assert(buf@ =~= block(output_label(), decoded_text(stdout@)) + block(
            errors_label(),
            decoded_text(stderr@),
        ));
    }
    let trimmed_chars = trim_chars(&buf);
    string_from_chars(&trimmed_chars)
}

/// Builds the terminal outcome for one completed run.  A zero exit wraps the
/// report in success; any other exit tags it a failure and prefixes the
/// exit-status text — the captured output is still decoded and kept.
pub fn outcome_of_run(stdout: &[u8], stderr: &[u8], exit_ok: bool, status_text: &str) -> (o:
    ExecutionOutcome)
    requires
        4 * stdout@.len() <= usize::MAX as int,
        4 * stderr@.len() <= usize::MAX as int,
    ensures
        o is Success <==> exit_ok,
        o matches ExecutionOutcome::Success(rep) ==> rep@ == outcome_report(
            stdout@,
            stderr@,
            exit_ok,
            status_text@,
        ),
        o matches ExecutionOutcome::Failure(rep) ==> rep@ == outcome_report(
            stdout@,
            stderr@,
            exit_ok,
            status_text@,
        ),
{
    let report = run_report(stdout, stderr);
    if exit_ok {
        ExecutionOutcome::Success(report)
    } else {
        let mut buf = chars_of_str("Exit code: ");
        let mut status = chars_of_str(status_text);
        buf.append(&mut status);
        buf.push('\n');
        let mut body = chars_of_str(report.as_str());
        buf.append(&mut body);
        proof {
            assert(buf@ =~= failure_report(
                status_text@,
                combined_report(decoded_text(stdout@), decoded_text(stderr@)),
            ));
        }
        ExecutionOutcome::Failure(string_from_chars(&buf))
    }
}

/// Everything the outside world reported about the captured run of the
/// interpreter: both byte streams, whether the exit code was zero, and the
/// exit status rendered as text.
pub struct RunCapture {
    pub stdout: Vec<u8>,
    pub stderr: Vec<u8>,
    pub exit_ok: bool,
    pub status_text: String,
}

/// How far one invocation got before the worker had its terminal result: the
/// artifact could not be created, the payload could not be written to it, the
/// interpreter could not be launched, or the interpreter ran to completion.
pub enum RunEvent {
    CreateFailed(String),
    WriteFailed(String),
    LaunchFailed(String),
    Ran(RunCapture),
}

/// The worker's terminal bookkeeping for one invocation: the single message
/// owed to the channel, and the artifact lifecycle the worker must observe.
pub struct PipelineReport {
    /// The one terminal message sent through the channel.
    pub message: Result<ExecutionOutcome, PipelineError>,
    /// The artifact came into existence during this invocation.
    pub artifact_created: bool,
    /// The artifact's backing file must be (and, for a created artifact,
    /// always is) released before the worker exits.
    pub artifact_released: bool,
}

/// Maps what the outside world reported about one invocation to the worker's
/// single terminal message.  Artifact cleanup: on every path — creation
/// failure, write failure, launch failure, completed run — an artifact that
/// was created is also released, so no outcome leaves the backing file behind.
pub fn pipeline_outcome(event: RunEvent) -> (r: PipelineReport)
    requires
        event matches RunEvent::Ran(c) ==> 4 * c.stdout@.len() <= usize::MAX as int && 4
            * c.stderr@.len() <= usize::MAX as int,
    ensures
        r.artifact_created == !(event is CreateFailed),
        r.artifact_released == r.artifact_created,
        event matches RunEvent::CreateFailed(m) ==> (r.message matches Err(
            PipelineError::ArtifactCreateFailed(w),
        ) && w == m),
        event matches RunEvent::WriteFailed(m) ==> (r.message matches Err(
            PipelineError::ArtifactWriteFailed(w),
        ) && w == m),
        event matches RunEvent::LaunchFailed(m) ==> (r.message matches Err(
            PipelineError::LaunchFailed(w),
        ) && w == m),
        event matches RunEvent::Ran(c) ==> (r.message matches Ok(o) && (o is Success
            <==> c.exit_ok) && (o matches ExecutionOutcome::Success(rep) ==> rep@ == outcome_report(
            c.stdout@,
            c.stderr@,
            c.exit_ok,
            c.status_text@,
        )) && (o matches ExecutionOutcome::Failure(rep) ==> rep@ == outcome_report(
            c.stdout@,
            c.stderr@,
            c.exit_ok,
            c.status_text@,
        ))),
{
    match event {
        RunEvent::CreateFailed(m) => PipelineReport {
            message: Err(PipelineError::ArtifactCreateFailed(m)),
            artifact_created: false,
            artifact_released: false,
        },
        RunEvent::WriteFailed(m) => PipelineReport {
            message: Err(PipelineError::ArtifactWriteFailed(m)),
            artifact_created: true,
            artifact_released: true,
        },
        RunEvent::LaunchFailed(m) => PipelineReport {
            message: Err(PipelineError::LaunchFailed(m)),
            artifact_created: true,
            artifact_released: true,
        },
        RunEvent::Ran(c) => {
            let o = outcome_of_run(&c.stdout, &c.stderr, c.exit_ok, c.status_text.as_str());
            PipelineReport { message: Ok(o), artifact_created: true, artifact_released: true }
        },
    }
}

} // verus!
