//! The dispatcher's reply discipline: what is published for each handler
//! outcome, and the builders that turn executor results into responses.
use vstd::prelude::*;

use crate::dur::Dur;
use crate::error::{spec_err_text, Error};
use crate::json::spec_print;
use crate::mode::AgentMode;
use crate::respond::{resp_gj, NatsResp};

verus! {

/// What the dispatcher does once a handler finishes.
#[derive(Debug, Clone)]
pub enum ReplyAction {
    /// One response frame on the reply subject.
    Publish { subject: String, payload: String },
    /// One empty-body frame with the service-error header pair.
    PublishError { subject: String, error_text: String, error_code: u64 },
    /// Nothing: the caller set no reply subject.
    NoReply,
}

/// The one frame (or none) a finished handler yields: a response where
/// the handler succeeded, an error header where it failed, nothing when
/// the caller gave no reply subject.
pub fn reply_plan(reply: Option<String>, outcome: &Result<NatsResp, Error>) -> (r: ReplyAction)
    ensures
        reply is None <==> r is NoReply,
        reply matches Some(subj) ==> ((outcome matches Ok(resp) ==> (r
            matches ReplyAction::Publish { subject, payload } && subject@ == subj@ && payload@
            == spec_print(resp_gj(*resp)))) && (outcome matches Err(e) ==> (r
            matches ReplyAction::PublishError { subject, error_text, error_code } && subject@
            == subj@ && error_text@ == spec_err_text(*e) && error_code == 0))),
{
    match reply {
        None => ReplyAction::NoReply,
        Some(subject) => match outcome {
            Ok(resp) => ReplyAction::Publish { subject, payload: resp.encode() },
            Err(e) => ReplyAction::PublishError {
                subject,
                error_text: e.err_text(),
                error_code: e.err_code(),
            },
        },
    }
}

/// What one finished external process reported.
#[derive(Debug, Clone)]
pub struct ExecOutput {
    /// The captured output streams, read as text with invalid bytes
    /// replaced, as the runner hands them over.
    pub stdout: String,
    pub stderr: String,
    /// The numeric exit code, absent when the process ended on a signal.
    pub code: Option<i32>,
}

/// The exit code reported on the wire when the process left none.
pub const SIGNAL_EXIT_CODE: i32 = 85;

/// The script reply for one executor outcome: both streams verbatim,
/// the exit code or eighty-five where none exists, the caller's
/// correlation number, and the measured wall-clock time.
pub fn run_script_response(out: &ExecOutput, id: i32, execution_time: Dur) -> (r: NatsResp)
    ensures
        r matches NatsResp::RunScriptResp {
            stdout,
            stderr,
            retcode,
            execution_time: et,
            id: rid,
        } && stdout@ == out.stdout@ && stderr@ == out.stderr@ && retcode == (match out.code {
            Some(c) => c,
            None => SIGNAL_EXIT_CODE as i32,
        }) && et == execution_time && rid == id,
{
    NatsResp::RunScriptResp {
        stdout: out.stdout.clone(),
        stderr: out.stderr.clone(),
        retcode: match out.code {
            Some(c) => c,
            None => SIGNAL_EXIT_CODE,
        },
        execution_time,
        id,
    }
}

/// The raw-command reply: the error stream where it is nonempty, else
/// the output stream.
pub fn raw_cmd_response(out: &ExecOutput) -> (r: NatsResp)
    ensures
        r matches NatsResp::RawCMDResp { results } && results@ == (if out.stderr@.len() > 0 {
            out.stderr@
        } else {
            out.stdout@
        }),
{
    if out.stderr.as_str().is_empty() {
        NatsResp::RawCMDResp { results: out.stdout.clone() }
    } else {
        NatsResp::RawCMDResp { results: out.stderr.clone() }
    }
}

/// The update try-lock: the operation proceeds only for the holder; a
/// contender gets the well-known contention error without waiting.
pub fn win_update_gate(acquired: bool) -> (r: Result<(), Error>)
    ensures
        acquired <==> r is Ok,
        !acquired ==> r == Err::<(), Error>(Error::ContendedUpdateOp),
{
    if acquired {
        Ok(())
    } else {
        Err(Error::ContendedUpdateOp)
    }
}

/// The four snapshots a full inventory request publishes, in order.
pub fn sysinfo_modes() -> (r: [AgentMode; 4])
    ensures
        r@ =~= seq![
            AgentMode::AgentInfo,
            AgentMode::Disks,
            AgentMode::WMI,
            AgentMode::PublicIp,
        ],
{
    [AgentMode::AgentInfo, AgentMode::Disks, AgentMode::WMI, AgentMode::PublicIp]
}

} // verus!
