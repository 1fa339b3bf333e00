//! A host agent's verified core: the broker wire format, the request and
//! response model, command planning, host-probe bookkeeping, check-in
//! frames and the dispatcher's reply discipline.
use vstd::prelude::*;

pub mod agent;
pub mod checkin;
pub mod cmd;
pub mod codec;
pub mod config;
pub mod dur;
pub mod error;
pub mod json;
pub mod messages;
pub mod mode;
pub mod request;
pub mod rpc;
pub mod temp_file;
pub mod respond;
pub mod svc;
pub mod text;
pub mod wmi;
pub mod wua;

pub use cmd::{CmdArgs, CmdExe, CmdOptions, CmdScript, CmdShell, Platform};
pub use dur::Dur;
pub use error::Error;
pub use messages::{AgentInfoNats, AutomatedTask, CheckInNats, Disk, ProcessMsg, PublicIPNats, RawCMDResp, RunScriptResp, TaskAction, WUAPackage, WinDisksNats, WinSoftwareList, WinSoftwareNats, WinSvcNats, WinWMINats, WindowsService};
pub use mode::{AgentMode, ScriptMode};
pub use request::IronhiveRequest;
pub use temp_file::TempFile;
pub use respond::NatsResp;
pub use agent::Agent;
pub use checkin::{CheckinContext, CheckinFrame};
pub use config::{Installer, IronhiveConfig, ServiceUninstaller, Uninstaller};
pub use rpc::{ExecOutput, ReplyAction};
pub use wmi::WMI;
pub use svc::Status;

verus! {

/// The broker timeout applied when a request names none.
pub fn default_timeout() -> (r: Dur)
    ensures
        r.secs == 15 && r.nanos == 0,
{
    Dur { secs: 15, nanos: 0 }
}

} // verus!
