//! Check-in modes and script modes, with their wire names.
use vstd::prelude::*;

use crate::text::{str_chars, str_eq, string_from_chars};

verus! {

/// The six check-in snapshot modes an agent can publish.
#[derive(Debug, Clone, Copy, PartialEq, Eq, Structural)]
pub enum AgentMode {
    Hello,
    WinSvc,
    AgentInfo,
    WMI,
    Disks,
    PublicIp,
}

impl AgentMode {
    /// Every mode, in the order check-ins walk them.
    pub fn all() -> (r: [AgentMode; 6])
        ensures
            r@ =~= seq![
                AgentMode::Hello,
                AgentMode::WinSvc,
                AgentMode::AgentInfo,
                AgentMode::WMI,
                AgentMode::Disks,
                AgentMode::PublicIp,
            ],
    {
        [
            AgentMode::Hello,
            AgentMode::WinSvc,
            AgentMode::AgentInfo,
            AgentMode::WMI,
            AgentMode::Disks,
            AgentMode::PublicIp,
        ]
    }
}

/// The tag string of a mode, as it stands on the wire and as the reply
/// subject of the check-in frame.
pub open spec fn spec_mode_str(m: AgentMode) -> Seq<char> {
    match m {
        AgentMode::Hello => "agent-hello"@,
        AgentMode::WinSvc => "agent-winsvc"@,
        AgentMode::AgentInfo => "agent-agentinfo"@,
        AgentMode::WMI => "agent-wmi"@,
        AgentMode::Disks => "agent-disks"@,
        AgentMode::PublicIp => "agent-publicip"@,
    }
}

/// The mode a tag string names, if any.
pub open spec fn spec_parse_mode(s: Seq<char>) -> Option<AgentMode> {
    if s == "agent-hello"@ {
        Some(AgentMode::Hello)
    } else if s == "agent-winsvc"@ {
        Some(AgentMode::WinSvc)
    } else if s == "agent-agentinfo"@ {
        Some(AgentMode::AgentInfo)
    } else if s == "agent-wmi"@ {
        Some(AgentMode::WMI)
    } else if s == "agent-disks"@ {
        Some(AgentMode::Disks)
    } else if s == "agent-publicip"@ {
        Some(AgentMode::PublicIp)
    } else {
        None
    }
}

impl AgentMode {
    pub fn mode_str(self) -> (r: &'static str)
        ensures
            r@ == spec_mode_str(self),
    {
        match self {
            AgentMode::Hello => "agent-hello",
            AgentMode::WinSvc => "agent-winsvc",
            AgentMode::AgentInfo => "agent-agentinfo",
            AgentMode::WMI => "agent-wmi",
            AgentMode::Disks => "agent-disks",
            AgentMode::PublicIp => "agent-publicip",
        }
    }

    pub fn parse_mode(s: &str) -> (r: Option<AgentMode>)
        ensures
            r == spec_parse_mode(s@),
    {
        if str_eq(s, "agent-hello") {
            Some(AgentMode::Hello)
        } else if str_eq(s, "agent-winsvc") {
            Some(AgentMode::WinSvc)
        } else if str_eq(s, "agent-agentinfo") {
            Some(AgentMode::AgentInfo)
        } else if str_eq(s, "agent-wmi") {
            Some(AgentMode::WMI)
        } else if str_eq(s, "agent-disks") {
            Some(AgentMode::Disks)
        } else if str_eq(s, "agent-publicip") {
            Some(AgentMode::PublicIp)
        } else {
            None
        }
    }
}

/// The mode tags and the six modes stand in one-to-one correspondence:
/// reading a printed tag returns the mode, and distinct modes print to
/// distinct tags.
pub proof fn lemma_mode_string_bijection()
    ensures
        forall|m: AgentMode| spec_parse_mode(spec_mode_str(m)) == Some(m),
        forall|m1: AgentMode, m2: AgentMode| spec_mode_str(m1) == spec_mode_str(m2) ==> m1 == m2,
        forall|s: Seq<char>, m: AgentMode|
            spec_parse_mode(s) == Some(m) ==> s == spec_mode_str(m),
{
    reveal_strlit("agent-hello");
    reveal_strlit("agent-winsvc");
    reveal_strlit("agent-agentinfo");
    reveal_strlit("agent-wmi");
    reveal_strlit("agent-disks");
    reveal_strlit("agent-publicip");
    assert("agent-hello"@.len() == 11);
    assert("agent-winsvc"@.len() == 12);
    assert("agent-agentinfo"@.len() == 15);
    assert("agent-wmi"@.len() == 9);
    assert("agent-disks"@.len() == 11);
    assert("agent-publicip"@.len() == 14);
    assert("agent-hello"@[6] == 'h');
    assert("agent-disks"@[6] == 'd');
    assert(forall|m: AgentMode| spec_parse_mode(spec_mode_str(m)) == Some(m)) by {
        assert(spec_parse_mode(spec_mode_str(AgentMode::Hello)) == Some(AgentMode::Hello));
        assert(spec_parse_mode(spec_mode_str(AgentMode::WinSvc)) == Some(AgentMode::WinSvc));
        assert(spec_parse_mode(spec_mode_str(AgentMode::AgentInfo)) == Some(
            AgentMode::AgentInfo,
        ));
        assert(spec_parse_mode(spec_mode_str(AgentMode::WMI)) == Some(AgentMode::WMI));
        assert(spec_parse_mode(spec_mode_str(AgentMode::Disks)) == Some(AgentMode::Disks));
        assert(spec_parse_mode(spec_mode_str(AgentMode::PublicIp)) == Some(
            AgentMode::PublicIp,
        ));
    }
}

/// How a script body is run: through the platform PowerShell, the platform
/// command interpreter, a named interpreter binary, or directly.
#[derive(Debug, Clone)]
pub enum ScriptMode {
    PowerShell,
    Binary { path: String, ext: String },
    Cmd,
    Directly,
}

impl ScriptMode {
    /// The file extension a script body of this mode is written under.
    pub fn ext(&self) -> (r: &str)
        ensures
            r@ == self.spec_ext(),
    {
        match self {
            ScriptMode::PowerShell => ".ps1",
            ScriptMode::Binary { ext, .. } => ext.as_str(),
            ScriptMode::Cmd => ".bat",
            ScriptMode::Directly => "",
        }
    }

    pub open spec fn spec_ext(&self) -> Seq<char> {
        match self {
            ScriptMode::PowerShell => ".ps1"@,
            ScriptMode::Binary { ext, .. } => ext@,
            ScriptMode::Cmd => ".bat"@,
            ScriptMode::Directly => ""@,
        }
    }
}

impl Default for ScriptMode {
    /// A script with no stated mode runs directly.
    fn default() -> (r: ScriptMode)
        ensures
            r is Directly,
    {
        ScriptMode::Directly
    }
}

} // verus!
