//! The error taxonomy: every way a handler can fail, and the text that
//! goes into the service-error header.
use vstd::prelude::*;

use crate::dur::{spec_fmt_dur, fmt_dur, Dur};
use crate::text::{dec_digits, strcat, string_of, u64_string};

verus! {

/// What a handler reports instead of a response.
#[derive(Debug, Clone)]
pub enum Error {
    /// The caller set no reply subject; nothing is published.
    NoReplySubject,
    /// A malformed or unknown request frame.
    DecodeFailure,
    /// The platform does not implement this request.
    UnsupportedRequest(String),
    /// The shell named in a raw command is not an allowed value.
    UnsupportedShell(String),
    /// An external process ran past its timeout.
    Elapsed(Dur),
    /// A local I/O failure, in its string form.
    IoError(String),
    /// A broker failure, in its string form.
    BrokerError(String),
    /// A serialization failure, in its string form.
    SerdeError(String),
    /// An HTTP failure, in its string form.
    HttpError(String),
    /// No process with the given identifier exists.
    NotFoundProcess(u32),
    /// The process exists but could not be terminated.
    KillProcessFailed(u32),
    /// No service would reveal a public address.
    NotFoundPublicIp,
    /// A platform call failed, in its string form.
    WindowsError(String),
    /// The inventory collector failed, in its string form.
    WmiError(String),
    /// Another update operation already holds the try-lock.
    ContendedUpdateOp,
}

/// The text of an error as the service-error header carries it.
pub open spec fn spec_err_text(e: Error) -> Seq<char> {
    match e {
        Error::NoReplySubject => "No reply subject to reply to"@,
        Error::DecodeFailure => "decode failure"@,
        Error::UnsupportedRequest(s) => "unsupported request: "@ + s@,
        Error::UnsupportedShell(s) => "unsupported shell: "@ + s@,
        Error::Elapsed(d) => "timeout: "@ + spec_fmt_dur(d),
        Error::IoError(s) => "io error: "@ + s@,
        Error::BrokerError(s) => "nats error: "@ + s@,
        Error::SerdeError(s) => "serde json error: "@ + s@,
        Error::HttpError(s) => "http error: "@ + s@,
        Error::NotFoundProcess(pid) => "not found process: "@ + dec_digits(pid as nat),
        Error::KillProcessFailed(pid) => "kill process: "@ + dec_digits(pid as nat)
            + " failed."@,
        Error::NotFoundPublicIp => "not found public ip"@,
        Error::WindowsError(s) => "windows error: "@ + s@,
        Error::WmiError(s) => "wmi error: "@ + s@,
        Error::ContendedUpdateOp => "Already installing or checking for windows updates"@,
    }
}

impl Error {
    /// The header text for this error.
    pub fn err_text(&self) -> (r: String)
        ensures
            r@ == spec_err_text(*self),
    {
        match self {
            Error::NoReplySubject => string_of("No reply subject to reply to"),
            Error::DecodeFailure => string_of("decode failure"),
            Error::UnsupportedRequest(s) => strcat("unsupported request: ", s.as_str()),
            Error::UnsupportedShell(s) => strcat("unsupported shell: ", s.as_str()),
            Error::Elapsed(d) => {
                let f = fmt_dur(*d);
                strcat("timeout: ", f.as_str())
            },
            Error::IoError(s) => strcat("io error: ", s.as_str()),
            Error::BrokerError(s) => strcat("nats error: ", s.as_str()),
            Error::SerdeError(s) => strcat("serde json error: ", s.as_str()),
            Error::HttpError(s) => strcat("http error: ", s.as_str()),
            Error::NotFoundProcess(pid) => {
                let n = u64_string(*pid as u64);
                strcat("not found process: ", n.as_str())
            },
            Error::KillProcessFailed(pid) => {
                let n = u64_string(*pid as u64);
                let head = strcat("kill process: ", n.as_str());
                strcat(head.as_str(), " failed.")
            },
            Error::NotFoundPublicIp => string_of("not found public ip"),
            Error::WindowsError(s) => strcat("windows error: ", s.as_str()),
            Error::WmiError(s) => strcat("wmi error: ", s.as_str()),
            Error::ContendedUpdateOp => string_of(
                "Already installing or checking for windows updates",
            ),
        }
    }

    /// The numeric code placed beside the header text; the dispatcher
    /// assigns every error the same code.
    pub fn err_code(&self) -> (r: u64)
        ensures
            r == 0,
    {
        0
    }
}

} // verus!
