//! Requests: everything a controller can ask of the agent, with the
//! tagged wire codec. The `func` member names the variant in lowercase;
//! timeouts default to fifteen seconds, script arguments and environment
//! to empty, and the script mode to running the body directly.
use vstd::prelude::*;

use crate::codec::{
    env_gj, env_of, env_to_obj, env_view, get_arr, get_bool, get_i32, get_obj, get_str, get_u32,
    get_val, gj_arr, gj_bool, gj_dur, gj_i32, gj_obj, gj_str, gj_strvec, gj_u32, glookup, jdur,
    jnum_i64, jnum_u64, jstr, obj_to_env, put, strs_view, strvec_gj, strvec_to_arr, arr_to_strvec,
};
use crate::dur::{spec_parse_dur, Dur};
use crate::json::{jview, jview_arr, jview_obj, GJson, Json};
use crate::codec::lemma_glookup_skip;
use crate::mode::{spec_mode_str, spec_parse_mode, AgentMode, ScriptMode};

verus! {

broadcast use vstd::seq::group_seq_axioms;

/// A request frame, one variant per remote operation.
#[derive(Debug, Clone)]
pub enum IronhiveRequest {
    Ping,
    PatchMgmt { patch_mgmnt: bool },
    Procs,
    KillProc { proc_pid: u32 },
    RawCmd { shell: String, command: String, timeout: Dur },
    WinServices,
    WinSvcDetail { name: String },
    WinSvcAction { name: String, action: String },
    EditWinSvc { name: String, start_type: String },
    RunScript {
        code: String,
        mode: ScriptMode,
        script_args: Vec<String>,
        timeout: Dur,
        env_vars: Vec<(String, String)>,
        id: i32,
    },
    SoftwareList,
    RebootNow,
    NeedsReboot,
    SysInfo,
    WMI,
    CpuLoadAvg,
    CpuUssage,
    PublicIp,
    InstallChoco,
    InstallWithChoco { choco_prog_name: String },
    GetWinUpdates,
    InstallWinUpdates { update_guids: Vec<String> },
    Checkin { mode: AgentMode },
}

// ------------------------------------------------------------------
// Script modes on the wire.
// ------------------------------------------------------------------
pub open spec fn smode_gj(m: ScriptMode) -> GJson {
    match m {
        ScriptMode::PowerShell => GJson::Str("PowerShell"@),
        ScriptMode::Cmd => GJson::Str("Cmd"@),
        ScriptMode::Directly => GJson::Str("Directly"@),
        ScriptMode::Binary { path, ext } => GJson::Obj(
            seq![
                (
                    "Binary"@,
                    GJson::Obj(seq![("path"@, GJson::Str(path@)), ("ext"@, GJson::Str(ext@))]),
                ),
            ],
        ),
    }
}

pub open spec fn smode_rel(g: GJson, m: ScriptMode) -> bool {
    match m {
        ScriptMode::PowerShell => g == GJson::Str("PowerShell"@),
        ScriptMode::Cmd => g == GJson::Str("Cmd"@),
        ScriptMode::Directly => g == GJson::Str("Directly"@),
        ScriptMode::Binary { path, ext } => {
            &&& g matches GJson::Obj(f)
            &&& gj_obj(glookup(f, "Binary"@)) matches Some(bf)
            &&& gj_str(glookup(bf, "path"@)) == Some(path@)
            &&& gj_str(glookup(bf, "ext"@)) == Some(ext@)
        },
    }
}

pub open spec fn smode_ok(g: GJson) -> bool {
    ||| (g matches GJson::Str(s) && (s == "PowerShell"@ || s == "Cmd"@ || s == "Directly"@))
    ||| (g matches GJson::Obj(f) && gj_obj(glookup(f, "Binary"@)) matches Some(bf) && gj_str(
        glookup(bf, "path"@),
    ) is Some && gj_str(glookup(bf, "ext"@)) is Some)
}

fn smode_from_json(j: &Json) -> (r: Option<ScriptMode>)
    ensures
        r is Some <==> smode_ok(j@),
        match r {
            Some(m) => smode_rel(j@, m),
            None => true,
        },
{
    match j {
        Json::Str(s) => {
            if crate::text::str_eq(s.as_str(), "PowerShell") {
                Some(ScriptMode::PowerShell)
            } else if crate::text::str_eq(s.as_str(), "Cmd") {
                Some(ScriptMode::Cmd)
            } else if crate::text::str_eq(s.as_str(), "Directly") {
                Some(ScriptMode::Directly)
            } else {
                None
            }
        },
        Json::Obj(f) => {
            match get_obj(f, "Binary") {
                Some(bf) => {
                    let path = match get_str(bf, "path") {
                        Some(p) => p,
                        None => {
                            return None;
                        },
                    };
                    let ext = match get_str(bf, "ext") {
                        Some(e) => e,
                        None => {
                            return None;
                        },
                    };
                    Some(ScriptMode::Binary { path, ext })
                },
                None => None,
            }
        },
        _ => None,
    }
}

fn smode_to_json(m: &ScriptMode) -> (r: Json)
    ensures
        r@ == smode_gj(*m),
{
    match m {
        ScriptMode::PowerShell => jstr("PowerShell"),
        ScriptMode::Cmd => jstr("Cmd"),
        ScriptMode::Directly => jstr("Directly"),
        ScriptMode::Binary { path, ext } => {
            let mut inner: Vec<(String, Json)> = Vec::new();
            put(&mut inner, "path", jstr(path.as_str()));
            put(&mut inner, "ext", jstr(ext.as_str()));
            let ghost ig = inner;
            let mut outer: Vec<(String, Json)> = Vec::new();
            put(&mut outer, "Binary", Json::Obj(inner));
            proof {
                assert(jview_obj(ig, 0) =~= seq![
                    ("path"@, GJson::Str(path@)),
                    ("ext"@, GJson::Str(ext@)),
                ]);
                assert(jview_obj(outer, 0) =~= smode_gj(*m)->Obj_0);
            }
            Json::Obj(outer)
        },
    }
}

// ------------------------------------------------------------------
// Defaulted members.
// ------------------------------------------------------------------
/// The default timeout carried when a request names none.
pub open spec fn spec_default_timeout() -> Dur {
    Dur { secs: 15, nanos: 0 }
}

/// A timeout member: absent means the default, present must parse.
pub open spec fn opt_dur(fields: Seq<(Seq<char>, GJson)>, key: Seq<char>) -> Option<Dur> {
    if glookup(fields, key) is None {
        Some(spec_default_timeout())
    } else {
        gj_dur(glookup(fields, key))
    }
}

fn get_opt_dur(obj: &Vec<(String, Json)>, key: &str) -> (r: Option<Dur>)
    ensures
        r == opt_dur(jview_obj(*obj, 0), key@),
{
    match get_val(obj, key) {
        Some(Json::Str(s)) => crate::dur::parse_dur(s.as_str()),
        Some(_) => None,
        None => Some(Dur { secs: 15, nanos: 0 }),
    }
}

/// A string-list member: absent means empty.
pub open spec fn opt_strvec(fields: Seq<(Seq<char>, GJson)>, key: Seq<char>) -> Option<
    Seq<Seq<char>>,
> {
    if glookup(fields, key) is None {
        Some(Seq::empty())
    } else {
        gj_strvec(glookup(fields, key))
    }
}

fn get_opt_strvec(obj: &Vec<(String, Json)>, key: &str) -> (r: Option<Vec<String>>)
    ensures
        match r {
            Some(v) => opt_strvec(jview_obj(*obj, 0), key@) == Some(strs_view(v)),
            None => opt_strvec(jview_obj(*obj, 0), key@) is None,
        },
{
    match get_val(obj, key) {
        Some(Json::Arr(a)) => arr_to_strvec(a),
        Some(_) => None,
        None => {
            let v: Vec<String> = Vec::new();
            proof {
                assert(strs_view(v) =~= Seq::<Seq<char>>::empty());
            }
            Some(v)
        },
    }
}

/// An environment member: absent means empty.
pub open spec fn opt_env(fields: Seq<(Seq<char>, GJson)>, key: Seq<char>) -> Option<
    Seq<(Seq<char>, Seq<char>)>,
> {
    if glookup(fields, key) is None {
        Some(Seq::empty())
    } else {
        match gj_obj(glookup(fields, key)) {
            Some(inner) => env_of(inner),
            None => None,
        }
    }
}

fn get_opt_env(obj: &Vec<(String, Json)>, key: &str) -> (r: Option<Vec<(String, String)>>)
    ensures
        match r {
            Some(v) => opt_env(jview_obj(*obj, 0), key@) == Some(env_view(v)),
            None => opt_env(jview_obj(*obj, 0), key@) is None,
        },
{
    match get_val(obj, key) {
        Some(Json::Obj(inner)) => obj_to_env(inner),
        Some(_) => None,
        None => {
            let v: Vec<(String, String)> = Vec::new();
            proof {
                assert(env_view(v) =~= Seq::<(Seq<char>, Seq<char>)>::empty());
            }
            Some(v)
        },
    }
}

/// A script-mode member: absent means running directly.
pub open spec fn opt_smode_ok(fields: Seq<(Seq<char>, GJson)>, key: Seq<char>) -> bool {
    match glookup(fields, key) {
        Some(g) => smode_ok(g),
        None => true,
    }
}

pub open spec fn opt_smode_rel(
    fields: Seq<(Seq<char>, GJson)>,
    key: Seq<char>,
    m: ScriptMode,
) -> bool {
    match glookup(fields, key) {
        Some(g) => smode_rel(g, m),
        None => m is Directly,
    }
}

/// A check-in-mode member: one of the six tag strings.
pub open spec fn gj_agent_mode(o: Option<GJson>) -> Option<AgentMode> {
    match o {
        Some(GJson::Str(s)) => spec_parse_mode(s),
        _ => None,
    }
}

// ------------------------------------------------------------------
// The relation between a parsed object and a request.
// ------------------------------------------------------------------
pub open spec fn req_tag(fields: Seq<(Seq<char>, GJson)>) -> Option<Seq<char>> {
    gj_str(glookup(fields, "func"@))
}

/// Whether an object decodes to some request: a known tag with every
/// member that variant needs.
pub open spec fn req_ok(fields: Seq<(Seq<char>, GJson)>) -> bool {
    match req_tag(fields) {
        Some(tag) => {
            if tag == "ping"@ || tag == "procs"@ || tag == "winservices"@ || tag
                == "softwarelist"@ || tag == "rebootnow"@ || tag == "needsreboot"@ || tag
                == "sysinfo"@ || tag == "wmi"@ || tag == "cpuloadavg"@ || tag == "cpuussage"@
                || tag == "publicip"@ || tag == "installchoco"@ || tag == "getwinupdates"@ {
                true
            } else if tag == "patchmgmt"@ {
                gj_bool(glookup(fields, "patch_mgmnt"@)) is Some
            } else if tag == "killproc"@ {
                gj_u32(glookup(fields, "proc_pid"@)) is Some
            } else if tag == "rawcmd"@ {
                &&& gj_str(glookup(fields, "shell"@)) is Some
                &&& gj_str(glookup(fields, "command"@)) is Some
                &&& opt_dur(fields, "timeout"@) is Some
            } else if tag == "winsvcdetail"@ {
                gj_str(glookup(fields, "name"@)) is Some
            } else if tag == "winsvcaction"@ {
                &&& gj_str(glookup(fields, "name"@)) is Some
                &&& gj_str(glookup(fields, "action"@)) is Some
            } else if tag == "editwinsvc"@ {
                &&& gj_str(glookup(fields, "name"@)) is Some
                &&& gj_str(glookup(fields, "start_type"@)) is Some
            } else if tag == "runscript"@ {
                &&& gj_str(glookup(fields, "code"@)) is Some
                &&& opt_smode_ok(fields, "mode"@)
                &&& opt_strvec(fields, "script_args"@) is Some
                &&& opt_dur(fields, "timeout"@) is Some
                &&& opt_env(fields, "env_vars"@) is Some
                &&& gj_i32(glookup(fields, "id"@)) is Some
            } else if tag == "installwithchoco"@ {
                gj_str(glookup(fields, "choco_prog_name"@)) is Some
            } else if tag == "installwinupdates"@ {
                gj_strvec(glookup(fields, "update_guids"@)) is Some
            } else if tag == "checkin"@ {
                gj_agent_mode(glookup(fields, "mode"@)) is Some
            } else {
                false
            }
        },
        None => false,
    }
}

/// How an object's members determine a decoded request, member by member.
pub open spec fn req_rel(fields: Seq<(Seq<char>, GJson)>, r: IronhiveRequest) -> bool {
    match r {
        IronhiveRequest::Ping => req_tag(fields) == Some("ping"@),
        IronhiveRequest::PatchMgmt { patch_mgmnt } => {
            &&& req_tag(fields) == Some("patchmgmt"@)
            &&& gj_bool(glookup(fields, "patch_mgmnt"@)) == Some(patch_mgmnt)
        },
        IronhiveRequest::Procs => req_tag(fields) == Some("procs"@),
        IronhiveRequest::KillProc { proc_pid } => {
            &&& req_tag(fields) == Some("killproc"@)
            &&& gj_u32(glookup(fields, "proc_pid"@)) == Some(proc_pid)
        },
        IronhiveRequest::RawCmd { shell, command, timeout } => {
            &&& req_tag(fields) == Some("rawcmd"@)
            &&& gj_str(glookup(fields, "shell"@)) == Some(shell@)
            &&& gj_str(glookup(fields, "command"@)) == Some(command@)
            &&& opt_dur(fields, "timeout"@) == Some(timeout)
        },
        IronhiveRequest::WinServices => req_tag(fields) == Some("winservices"@),
        IronhiveRequest::WinSvcDetail { name } => {
            &&& req_tag(fields) == Some("winsvcdetail"@)
            &&& gj_str(glookup(fields, "name"@)) == Some(name@)
        },
        IronhiveRequest::WinSvcAction { name, action } => {
            &&& req_tag(fields) == Some("winsvcaction"@)
            &&& gj_str(glookup(fields, "name"@)) == Some(name@)
            &&& gj_str(glookup(fields, "action"@)) == Some(action@)
        },
        IronhiveRequest::EditWinSvc { name, start_type } => {
            &&& req_tag(fields) == Some("editwinsvc"@)
            &&& gj_str(glookup(fields, "name"@)) == Some(name@)
            &&& gj_str(glookup(fields, "start_type"@)) == Some(start_type@)
        },
        IronhiveRequest::RunScript { code, mode, script_args, timeout, env_vars, id } => {
            &&& req_tag(fields) == Some("runscript"@)
            &&& gj_str(glookup(fields, "code"@)) == Some(code@)
            &&& opt_smode_rel(fields, "mode"@, mode)
            &&& opt_strvec(fields, "script_args"@) == Some(strs_view(script_args))
            &&& opt_dur(fields, "timeout"@) == Some(timeout)
            &&& opt_env(fields, "env_vars"@) == Some(env_view(env_vars))
            &&& gj_i32(glookup(fields, "id"@)) == Some(id)
        },
        IronhiveRequest::SoftwareList => req_tag(fields) == Some("softwarelist"@),
        IronhiveRequest::RebootNow => req_tag(fields) == Some("rebootnow"@),
        IronhiveRequest::NeedsReboot => req_tag(fields) == Some("needsreboot"@),
        IronhiveRequest::SysInfo => req_tag(fields) == Some("sysinfo"@),
        IronhiveRequest::WMI => req_tag(fields) == Some("wmi"@),
        IronhiveRequest::CpuLoadAvg => req_tag(fields) == Some("cpuloadavg"@),
        IronhiveRequest::CpuUssage => req_tag(fields) == Some("cpuussage"@),
        IronhiveRequest::PublicIp => req_tag(fields) == Some("publicip"@),
        IronhiveRequest::InstallChoco => req_tag(fields) == Some("installchoco"@),
        IronhiveRequest::InstallWithChoco { choco_prog_name } => {
            &&& req_tag(fields) == Some("installwithchoco"@)
            &&& gj_str(glookup(fields, "choco_prog_name"@)) == Some(choco_prog_name@)
        },
        IronhiveRequest::GetWinUpdates => req_tag(fields) == Some("getwinupdates"@),
        IronhiveRequest::InstallWinUpdates { update_guids } => {
            &&& req_tag(fields) == Some("installwinupdates"@)
            &&& gj_strvec(glookup(fields, "update_guids"@)) == Some(strs_view(update_guids))
        },
        IronhiveRequest::Checkin { mode } => {
            &&& req_tag(fields) == Some("checkin"@)
            &&& gj_agent_mode(glookup(fields, "mode"@)) == Some(mode)
        },
    }
}

impl IronhiveRequest {
    /// Read a request from a parsed object; `None` on an absent or
    /// unknown tag or a missing or ill-typed member.
    pub fn from_obj(obj: &Vec<(String, Json)>) -> (r: Option<IronhiveRequest>)
        ensures
            ({
                let fields = jview_obj(*obj, 0);
                &&& (r is Some <==> req_ok(fields))
                &&& (match r {
                    Some(x) => req_rel(fields, x),
                    None => true,
                })
            }),
    {
        let tag = match get_str(obj, "func") {
            Some(t) => t,
            None => {
                return None;
            },
        };
        let t = tag.as_str();
        if crate::text::str_eq(t, "ping") {
            Some(IronhiveRequest::Ping)
        } else if crate::text::str_eq(t, "procs") {
            Some(IronhiveRequest::Procs)
        } else if crate::text::str_eq(t, "winservices") {
            Some(IronhiveRequest::WinServices)
        } else if crate::text::str_eq(t, "softwarelist") {
            Some(IronhiveRequest::SoftwareList)
        } else if crate::text::str_eq(t, "rebootnow") {
            Some(IronhiveRequest::RebootNow)
        } else if crate::text::str_eq(t, "needsreboot") {
            Some(IronhiveRequest::NeedsReboot)
        } else if crate::text::str_eq(t, "sysinfo") {
            Some(IronhiveRequest::SysInfo)
        } else if crate::text::str_eq(t, "wmi") {
            Some(IronhiveRequest::WMI)
        } else if crate::text::str_eq(t, "cpuloadavg") {
            Some(IronhiveRequest::CpuLoadAvg)
        } else if crate::text::str_eq(t, "cpuussage") {
            Some(IronhiveRequest::CpuUssage)
        } else if crate::text::str_eq(t, "publicip") {
            Some(IronhiveRequest::PublicIp)
        } else if crate::text::str_eq(t, "installchoco") {
            Some(IronhiveRequest::InstallChoco)
        } else if crate::text::str_eq(t, "getwinupdates") {
            Some(IronhiveRequest::GetWinUpdates)
        } else if crate::text::str_eq(t, "patchmgmt") {
            let patch_mgmnt = match crate::codec::get_bool(obj, "patch_mgmnt") {
                Some(v) => v,
                None => {
                    return None;
                },
            };
            Some(IronhiveRequest::PatchMgmt { patch_mgmnt })
        } else if crate::text::str_eq(t, "killproc") {
            let proc_pid = match get_u32(obj, "proc_pid") {
                Some(v) => v,
                None => {
                    return None;
                },
            };
            Some(IronhiveRequest::KillProc { proc_pid })
        } else if crate::text::str_eq(t, "rawcmd") {
            let shell = match get_str(obj, "shell") {
                Some(v) => v,
                None => {
                    return None;
                },
            };
            let command = match get_str(obj, "command") {
                Some(v) => v,
                None => {
                    return None;
                },
            };
            let timeout = match get_opt_dur(obj, "timeout") {
                Some(v) => v,
                None => {
                    return None;
                },
            };
            Some(IronhiveRequest::RawCmd { shell, command, timeout })
        } else if crate::text::str_eq(t, "winsvcdetail") {
            let name = match get_str(obj, "name") {
                Some(v) => v,
                None => {
                    return None;
                },
            };
            Some(IronhiveRequest::WinSvcDetail { name })
        } else if crate::text::str_eq(t, "winsvcaction") {
            let name = match get_str(obj, "name") {
                Some(v) => v,
                None => {
                    return None;
                },
            };
            let action = match get_str(obj, "action") {
                Some(v) => v,
                None => {
                    return None;
                },
            };
            Some(IronhiveRequest::WinSvcAction { name, action })
        } else if crate::text::str_eq(t, "editwinsvc") {
            let name = match get_str(obj, "name") {
                Some(v) => v,
                None => {
                    return None;
                },
            };
            let start_type = match get_str(obj, "start_type") {
                Some(v) => v,
                None => {
                    return None;
                },
            };
            Some(IronhiveRequest::EditWinSvc { name, start_type })
        } else if crate::text::str_eq(t, "runscript") {
            let code = match get_str(obj, "code") {
                Some(v) => v,
                None => {
                    return None;
                },
            };
            let mode = match get_val(obj, "mode") {
                Some(j) => match smode_from_json(j) {
                    Some(m) => m,
                    None => {
                        return None;
                    },
                },
                None => ScriptMode::Directly,
            };
            let script_args = match get_opt_strvec(obj, "script_args") {
                Some(v) => v,
                None => {
                    return None;
                },
            };
            let timeout = match get_opt_dur(obj, "timeout") {
                Some(v) => v,
                None => {
                    return None;
                },
            };
            let env_vars = match get_opt_env(obj, "env_vars") {
                Some(v) => v,
                None => {
                    return None;
                },
            };
            let id = match get_i32(obj, "id") {
                Some(v) => v,
                None => {
                    return None;
                },
            };
            Some(IronhiveRequest::RunScript { code, mode, script_args, timeout, env_vars, id })
        } else if crate::text::str_eq(t, "installwithchoco") {
            let choco_prog_name = match get_str(obj, "choco_prog_name") {
                Some(v) => v,
                None => {
                    return None;
                },
            };
            Some(IronhiveRequest::InstallWithChoco { choco_prog_name })
        } else if crate::text::str_eq(t, "installwinupdates") {
            let update_guids = match get_arr(obj, "update_guids") {
                Some(a) => match arr_to_strvec(a) {
                    Some(v) => v,
                    None => {
                        return None;
                    },
                },
                None => {
                    return None;
                },
            };
            Some(IronhiveRequest::InstallWinUpdates { update_guids })
        } else if crate::text::str_eq(t, "checkin") {
            let mode = match get_str(obj, "mode") {
                Some(s) => match AgentMode::parse_mode(s.as_str()) {
                    Some(m) => m,
                    None => {
                        return None;
                    },
                },
                None => {
                    return None;
                },
            };
            Some(IronhiveRequest::Checkin { mode })
        } else {
            None
        }
    }

    /// Read a request from a payload text: the dispatcher's first step.
    pub fn decode(s: &str) -> (r: Option<IronhiveRequest>)
        ensures
            match crate::json::spec_parse_json(s@) {
                Some(g) => match g {
                    GJson::Obj(fields) => (r is Some <==> req_ok(fields)) && (match r {
                        Some(x) => req_rel(fields, x),
                        None => true,
                    }),
                    _ => r is None,
                },
                None => r is None,
            },
    {
        match crate::json::parse_json_str(s) {
            Some(Json::Obj(obj)) => IronhiveRequest::from_obj(&obj),
            Some(_) => None,
            None => None,
        }
    }
}

// ------------------------------------------------------------------
// Canonical encoding.
// ------------------------------------------------------------------
/// The canonical members of a request: the tag, then the variant's
/// members in declaration order.
pub open spec fn req_fields(r: IronhiveRequest) -> Seq<(Seq<char>, GJson)> {
    match r {
        IronhiveRequest::Ping => seq![("func"@, GJson::Str("ping"@))],
        IronhiveRequest::PatchMgmt { patch_mgmnt } => seq![
            ("func"@, GJson::Str("patchmgmt"@)),
            ("patch_mgmnt"@, GJson::Bool(patch_mgmnt)),
        ],
        IronhiveRequest::Procs => seq![("func"@, GJson::Str("procs"@))],
        IronhiveRequest::KillProc { proc_pid } => seq![
            ("func"@, GJson::Str("killproc"@)),
            ("proc_pid"@, GJson::Num(crate::text::dec_digits(proc_pid as nat))),
        ],
        IronhiveRequest::RawCmd { shell, command, timeout } => seq![
            ("func"@, GJson::Str("rawcmd"@)),
            ("shell"@, GJson::Str(shell@)),
            ("command"@, GJson::Str(command@)),
            ("timeout"@, GJson::Str(crate::dur::spec_fmt_dur(timeout))),
        ],
        IronhiveRequest::WinServices => seq![("func"@, GJson::Str("winservices"@))],
        IronhiveRequest::WinSvcDetail { name } => seq![
            ("func"@, GJson::Str("winsvcdetail"@)),
            ("name"@, GJson::Str(name@)),
        ],
        IronhiveRequest::WinSvcAction { name, action } => seq![
            ("func"@, GJson::Str("winsvcaction"@)),
            ("name"@, GJson::Str(name@)),
            ("action"@, GJson::Str(action@)),
        ],
        IronhiveRequest::EditWinSvc { name, start_type } => seq![
            ("func"@, GJson::Str("editwinsvc"@)),
            ("name"@, GJson::Str(name@)),
            ("start_type"@, GJson::Str(start_type@)),
        ],
        IronhiveRequest::RunScript { code, mode, script_args, timeout, env_vars, id } => seq![
            ("func"@, GJson::Str("runscript"@)),
            ("code"@, GJson::Str(code@)),
            ("mode"@, smode_gj(mode)),
            ("script_args"@, GJson::Arr(strvec_gj(script_args))),
            ("timeout"@, GJson::Str(crate::dur::spec_fmt_dur(timeout))),
            ("env_vars"@, GJson::Obj(env_gj(env_vars))),
            ("id"@, GJson::Num(crate::text::int_digits(id as int))),
        ],
        IronhiveRequest::SoftwareList => seq![("func"@, GJson::Str("softwarelist"@))],
        IronhiveRequest::RebootNow => seq![("func"@, GJson::Str("rebootnow"@))],
        IronhiveRequest::NeedsReboot => seq![("func"@, GJson::Str("needsreboot"@))],
        IronhiveRequest::SysInfo => seq![("func"@, GJson::Str("sysinfo"@))],
        IronhiveRequest::WMI => seq![("func"@, GJson::Str("wmi"@))],
        IronhiveRequest::CpuLoadAvg => seq![("func"@, GJson::Str("cpuloadavg"@))],
        IronhiveRequest::CpuUssage => seq![("func"@, GJson::Str("cpuussage"@))],
        IronhiveRequest::PublicIp => seq![("func"@, GJson::Str("publicip"@))],
        IronhiveRequest::InstallChoco => seq![("func"@, GJson::Str("installchoco"@))],
        IronhiveRequest::InstallWithChoco { choco_prog_name } => seq![
            ("func"@, GJson::Str("installwithchoco"@)),
            ("choco_prog_name"@, GJson::Str(choco_prog_name@)),
        ],
        IronhiveRequest::GetWinUpdates => seq![("func"@, GJson::Str("getwinupdates"@))],
        IronhiveRequest::InstallWinUpdates { update_guids } => seq![
            ("func"@, GJson::Str("installwinupdates"@)),
            ("update_guids"@, GJson::Arr(strvec_gj(update_guids))),
        ],
        IronhiveRequest::Checkin { mode } => seq![
            ("func"@, GJson::Str("checkin"@)),
            ("mode"@, GJson::Str(spec_mode_str(mode))),
        ],
    }
}

pub open spec fn req_gj(r: IronhiveRequest) -> GJson {
    GJson::Obj(req_fields(r))
}

impl IronhiveRequest {
    /// Write this request's members in canonical order.
    pub fn to_obj(&self) -> (r: Vec<(String, Json)>)
        ensures
            jview_obj(r, 0) =~= req_fields(*self),
    {
        let mut obj: Vec<(String, Json)> = Vec::new();
        match self {
            IronhiveRequest::Ping => {
                put(&mut obj, "func", jstr("ping"));
            },
            IronhiveRequest::PatchMgmt { patch_mgmnt } => {
                put(&mut obj, "func", jstr("patchmgmt"));
                put(&mut obj, "patch_mgmnt", Json::Bool(*patch_mgmnt));
            },
            IronhiveRequest::Procs => {
                put(&mut obj, "func", jstr("procs"));
            },
            IronhiveRequest::KillProc { proc_pid } => {
                put(&mut obj, "func", jstr("killproc"));
                put(&mut obj, "proc_pid", jnum_u64(*proc_pid as u64));
            },
            IronhiveRequest::RawCmd { shell, command, timeout } => {
                put(&mut obj, "func", jstr("rawcmd"));
                put(&mut obj, "shell", jstr(shell.as_str()));
                put(&mut obj, "command", jstr(command.as_str()));
                put(&mut obj, "timeout", jdur(*timeout));
            },
            IronhiveRequest::WinServices => {
                put(&mut obj, "func", jstr("winservices"));
            },
            IronhiveRequest::WinSvcDetail { name } => {
                put(&mut obj, "func", jstr("winsvcdetail"));
                put(&mut obj, "name", jstr(name.as_str()));
            },
            IronhiveRequest::WinSvcAction { name, action } => {
                put(&mut obj, "func", jstr("winsvcaction"));
                put(&mut obj, "name", jstr(name.as_str()));
                put(&mut obj, "action", jstr(action.as_str()));
            },
            IronhiveRequest::EditWinSvc { name, start_type } => {
                put(&mut obj, "func", jstr("editwinsvc"));
                put(&mut obj, "name", jstr(name.as_str()));
                put(&mut obj, "start_type", jstr(start_type.as_str()));
            },
            IronhiveRequest::RunScript { code, mode, script_args, timeout, env_vars, id } => {
                put(&mut obj, "func", jstr("runscript"));
                put(&mut obj, "code", jstr(code.as_str()));
                put(&mut obj, "mode", smode_to_json(mode));
                put(&mut obj, "script_args", Json::Arr(strvec_to_arr(script_args)));
                put(&mut obj, "timeout", jdur(*timeout));
                put(&mut obj, "env_vars", Json::Obj(env_to_obj(env_vars)));
                put(&mut obj, "id", jnum_i64(*id as i64));
            },
            IronhiveRequest::SoftwareList => {
                put(&mut obj, "func", jstr("softwarelist"));
            },
            IronhiveRequest::RebootNow => {
                put(&mut obj, "func", jstr("rebootnow"));
            },
            IronhiveRequest::NeedsReboot => {
                put(&mut obj, "func", jstr("needsreboot"));
            },
            IronhiveRequest::SysInfo => {
                put(&mut obj, "func", jstr("sysinfo"));
            },
            IronhiveRequest::WMI => {
                put(&mut obj, "func", jstr("wmi"));
            },
            IronhiveRequest::CpuLoadAvg => {
                put(&mut obj, "func", jstr("cpuloadavg"));
            },
            IronhiveRequest::CpuUssage => {
                put(&mut obj, "func", jstr("cpuussage"));
            },
            IronhiveRequest::PublicIp => {
                put(&mut obj, "func", jstr("publicip"));
            },
            IronhiveRequest::InstallChoco => {
                put(&mut obj, "func", jstr("installchoco"));
            },
            IronhiveRequest::InstallWithChoco { choco_prog_name } => {
                put(&mut obj, "func", jstr("installwithchoco"));
                put(&mut obj, "choco_prog_name", jstr(choco_prog_name.as_str()));
            },
            IronhiveRequest::GetWinUpdates => {
                put(&mut obj, "func", jstr("getwinupdates"));
            },
            IronhiveRequest::InstallWinUpdates { update_guids } => {
                put(&mut obj, "func", jstr("installwinupdates"));
                put(&mut obj, "update_guids", Json::Arr(strvec_to_arr(update_guids)));
            },
            IronhiveRequest::Checkin { mode } => {
                put(&mut obj, "func", jstr("checkin"));
                put(&mut obj, "mode", jstr(mode.mode_str()));
            },
        }
        proof {
            assert(jview_obj(obj, 0) =~= req_fields(*self));
        }
        obj
    }

    /// This request as a payload text, as a requesting client frames it.
    pub fn encode(&self) -> (r: String)
        ensures
            r@ == crate::json::spec_print(req_gj(*self)),
    {
        let obj = self.to_obj();
        let ghost og = obj;
        let j = Json::Obj(obj);
        proof {
            assert(jview_obj(og, 0) =~= req_fields(*self));
            assert(j@ == req_gj(*self));
        }
        crate::json::json_to_string(&j)
    }
}


/// Whether a request's duration members are well-formed spans.
pub open spec fn req_wf(r: IronhiveRequest) -> bool {
    match r {
        IronhiveRequest::RawCmd { timeout, .. } => timeout.wf(),
        IronhiveRequest::RunScript { timeout, .. } => timeout.wf(),
        _ => true,
    }
}

/// A script mode's canonical value is well formed and reads back as the
/// same mode.
proof fn lemma_smode_canonical(m: ScriptMode)
    ensures
        crate::json::wf(smode_gj(m)),
        smode_ok(smode_gj(m)),
        smode_rel(smode_gj(m), m),
{
    match m {
        ScriptMode::PowerShell => {}
        ScriptMode::Cmd => {}
        ScriptMode::Directly => {}
        ScriptMode::Binary { path, ext } => {
            reveal_strlit("Binary");
            reveal_strlit("path");
            reveal_strlit("ext");
            let inner = seq![("path"@, GJson::Str(path@)), ("ext"@, GJson::Str(ext@))];
            let outer = seq![("Binary"@, GJson::Obj(inner))];
            assert(outer[0].0 == "Binary"@);
            assert(glookup(outer, "Binary"@) == Some(GJson::Obj(inner)));
            assert(inner[0].0 == "path"@);
            assert(glookup(inner, "path"@) == Some(GJson::Str(path@)));
            assert("path"@.len() == 4);
            assert("ext"@.len() == 3);
            assert("path"@ != "ext"@);
            let tail = inner.skip(1);
            assert(tail.len() == 1);
            assert(tail[0] == ("ext"@, GJson::Str(ext@)));
            assert(glookup(inner, "ext"@) == glookup(tail, "ext"@));
            assert(glookup(tail, "ext"@) == Some(GJson::Str(ext@)));
            assert(forall|i: int| 0 <= i < inner.len() ==> crate::json::wf(
                #[trigger] inner[i].1,
            ));
            assert(crate::json::wf(GJson::Obj(inner)));
            assert(forall|i: int| 0 <= i < outer.len() ==> crate::json::wf(
                #[trigger] outer[i].1,
            ));
            assert(crate::json::wf(GJson::Obj(outer)));
            assert(smode_gj(m) == GJson::Obj(outer));
        }
    }
}

/// Writing any request and reading the text back yields the same
/// request, member for member: the canonical text parses to the
/// canonical document, and that document denotes exactly this request.
#[verifier::rlimit(100)]
#[verifier::spinoff_prover]
pub proof fn lemma_request_round_trip(r: IronhiveRequest)
    requires
        req_wf(r),
    ensures
        crate::json::wf(req_gj(r)),
        crate::json::spec_parse_json(crate::json::spec_print(req_gj(r))) == Some(req_gj(r)),
        req_ok(req_fields(r)),
        req_rel(req_fields(r), r),
{
    lemma_req_canonical(r);
    crate::json::lemma_json_round_trip(req_gj(r));
}

#[verifier::rlimit(100)]
#[verifier::spinoff_prover]
proof fn lemma_req_canonical(r: IronhiveRequest)
    requires
        req_wf(r),
    ensures
        crate::json::wf(req_gj(r)),
        req_ok(req_fields(r)),
        req_rel(req_fields(r), r),
{
    reveal_strlit("func");
    reveal_strlit("ping");
    reveal_strlit("procs");
    reveal_strlit("winservices");
    reveal_strlit("softwarelist");
    reveal_strlit("rebootnow");
    reveal_strlit("needsreboot");
    reveal_strlit("sysinfo");
    reveal_strlit("wmi");
    reveal_strlit("cpuloadavg");
    reveal_strlit("cpuussage");
    reveal_strlit("publicip");
    reveal_strlit("installchoco");
    reveal_strlit("getwinupdates");
    reveal_strlit("patchmgmt");
    reveal_strlit("killproc");
    reveal_strlit("rawcmd");
    reveal_strlit("winsvcdetail");
    reveal_strlit("winsvcaction");
    reveal_strlit("editwinsvc");
    reveal_strlit("runscript");
    reveal_strlit("installwithchoco");
    reveal_strlit("installwinupdates");
    reveal_strlit("checkin");
    assert("ping"@.len() == 4);
    assert("procs"@.len() == 5);
    assert("winservices"@.len() == 11);
    assert("softwarelist"@.len() == 12);
    assert("rebootnow"@.len() == 9);
    assert("needsreboot"@.len() == 11);
    assert("sysinfo"@.len() == 7);
    assert("wmi"@.len() == 3);
    assert("cpuloadavg"@.len() == 10);
    assert("cpuussage"@.len() == 9);
    assert("publicip"@.len() == 8);
    assert("installchoco"@.len() == 12);
    assert("getwinupdates"@.len() == 13);
    assert("patchmgmt"@.len() == 9);
    assert("killproc"@.len() == 8);
    assert("rawcmd"@.len() == 6);
    assert("winsvcdetail"@.len() == 12);
    assert("winsvcaction"@.len() == 12);
    assert("editwinsvc"@.len() == 10);
    assert("runscript"@.len() == 9);
    assert("installwithchoco"@.len() == 16);
    assert("installwinupdates"@.len() == 17);
    assert("checkin"@.len() == 7);
    assert("winservices"@[0] == 'w');
    assert("needsreboot"@[0] == 'n');
    assert("winservices"@ != "needsreboot"@);
    assert("softwarelist"@[0] == 's');
    assert("installchoco"@[0] == 'i');
    assert("softwarelist"@ != "installchoco"@);
    assert("winsvcdetail"@[0] == 'w');
    assert("softwarelist"@ != "winsvcdetail"@);
    assert("winsvcaction"@[0] == 'w');
    assert("softwarelist"@ != "winsvcaction"@);
    assert("rebootnow"@[0] == 'r');
    assert("cpuussage"@[0] == 'c');
    assert("rebootnow"@ != "cpuussage"@);
    assert("patchmgmt"@[0] == 'p');
    assert("rebootnow"@ != "patchmgmt"@);
    assert("rebootnow"@[1] == 'e');
    assert("runscript"@[1] == 'u');
    assert("rebootnow"@ != "runscript"@);
    assert("sysinfo"@[0] == 's');
    assert("checkin"@[0] == 'c');
    assert("sysinfo"@ != "checkin"@);
    assert("cpuloadavg"@[0] == 'c');
    assert("editwinsvc"@[0] == 'e');
    assert("cpuloadavg"@ != "editwinsvc"@);
    assert("cpuussage"@ != "patchmgmt"@);
    assert("runscript"@[0] == 'r');
    assert("cpuussage"@ != "runscript"@);
    assert("publicip"@[0] == 'p');
    assert("killproc"@[0] == 'k');
    assert("publicip"@ != "killproc"@);
    assert("installchoco"@ != "winsvcdetail"@);
    assert("installchoco"@ != "winsvcaction"@);
    assert("patchmgmt"@ != "runscript"@);
    assert("winsvcdetail"@[6] == 'd');
    assert("winsvcaction"@[6] == 'a');
    assert("winsvcdetail"@ != "winsvcaction"@);
    let fields = req_fields(r);
    match r {
        IronhiveRequest::Ping => {
            reveal_strlit("ping");
            assert(glookup(fields, "func"@) == Some(GJson::Str("ping"@)));
            assert forall|i: int| 0 <= i < fields.len() implies crate::json::wf((#[trigger] fields[i]).1) by {
                assert(crate::json::wf(fields[0].1));
            }
        },
        IronhiveRequest::PatchMgmt { patch_mgmnt } => {
            reveal_strlit("patchmgmt");
            assert(glookup(fields, "func"@) == Some(GJson::Str("patchmgmt"@)));
            reveal_strlit("patch_mgmnt");
            assert("func"@.len() == 4);
            assert("patch_mgmnt"@.len() == 11);
            assert("func"@ != "patch_mgmnt"@);
            assert forall|i: int| 0 <= i < 1 implies (#[trigger] fields[i]).0 != "patch_mgmnt"@ by {
                assert(fields[0].0 == "func"@);
            }
            lemma_glookup_skip(fields, "patch_mgmnt"@, 1);
            assert(fields.skip(1)[0] == fields[1]);
            assert(glookup(fields, "patch_mgmnt"@) == Some(fields[1].1));
            assert forall|i: int| 0 <= i < fields.len() implies crate::json::wf((#[trigger] fields[i]).1) by {
                assert(crate::json::wf(fields[0].1));
                assert(crate::json::wf(fields[1].1));
            }
        },
        IronhiveRequest::Procs => {
            reveal_strlit("procs");
            assert(glookup(fields, "func"@) == Some(GJson::Str("procs"@)));
            assert forall|i: int| 0 <= i < fields.len() implies crate::json::wf((#[trigger] fields[i]).1) by {
                assert(crate::json::wf(fields[0].1));
            }
        },
        IronhiveRequest::KillProc { proc_pid } => {
            reveal_strlit("killproc");
            assert(glookup(fields, "func"@) == Some(GJson::Str("killproc"@)));
            reveal_strlit("proc_pid");
            assert("func"@.len() == 4);
            assert("proc_pid"@.len() == 8);
            assert("func"@ != "proc_pid"@);
            assert forall|i: int| 0 <= i < 1 implies (#[trigger] fields[i]).0 != "proc_pid"@ by {
                assert(fields[0].0 == "func"@);
            }
            lemma_glookup_skip(fields, "proc_pid"@, 1);
            assert(fields.skip(1)[0] == fields[1]);
            assert(glookup(fields, "proc_pid"@) == Some(fields[1].1));
            crate::text::lemma_u64_digits_round_trip(proc_pid as u64);
            crate::messages::lemma_wf_num_u64(proc_pid as u64);
            assert forall|i: int| 0 <= i < fields.len() implies crate::json::wf((#[trigger] fields[i]).1) by {
                assert(crate::json::wf(fields[0].1));
                assert(crate::json::wf(fields[1].1));
            }
        },
        IronhiveRequest::RawCmd { shell, command, timeout } => {
            reveal_strlit("rawcmd");
            assert(glookup(fields, "func"@) == Some(GJson::Str("rawcmd"@)));
            reveal_strlit("shell");
            assert("func"@.len() == 4);
            assert("shell"@.len() == 5);
            assert("func"@ != "shell"@);
            assert forall|i: int| 0 <= i < 1 implies (#[trigger] fields[i]).0 != "shell"@ by {
                assert(fields[0].0 == "func"@);
            }
            lemma_glookup_skip(fields, "shell"@, 1);
            assert(fields.skip(1)[0] == fields[1]);
            assert(glookup(fields, "shell"@) == Some(fields[1].1));
            reveal_strlit("command");
            assert("command"@.len() == 7);
            assert("func"@ != "command"@);
            assert("shell"@ != "command"@);
            assert forall|i: int| 0 <= i < 2 implies (#[trigger] fields[i]).0 != "command"@ by {
                assert(fields[0].0 == "func"@);
                assert(fields[1].0 == "shell"@);
            }
            lemma_glookup_skip(fields, "command"@, 2);
            assert(fields.skip(2)[0] == fields[2]);
            assert(glookup(fields, "command"@) == Some(fields[2].1));
            reveal_strlit("timeout");
            assert("timeout"@.len() == 7);
            assert("func"@ != "timeout"@);
            assert("shell"@ != "timeout"@);
            assert("command"@[0] == 'c');
            assert("timeout"@[0] == 't');
            assert("command"@ != "timeout"@);
            assert forall|i: int| 0 <= i < 3 implies (#[trigger] fields[i]).0 != "timeout"@ by {
                assert(fields[0].0 == "func"@);
                assert(fields[1].0 == "shell"@);
                assert(fields[2].0 == "command"@);
            }
            lemma_glookup_skip(fields, "timeout"@, 3);
            assert(fields.skip(3)[0] == fields[3]);
            assert(glookup(fields, "timeout"@) == Some(fields[3].1));
            crate::dur::lemma_dur_round_trip(timeout);
            assert forall|i: int| 0 <= i < fields.len() implies crate::json::wf((#[trigger] fields[i]).1) by {
                assert(crate::json::wf(fields[0].1));
                assert(crate::json::wf(fields[1].1));
                assert(crate::json::wf(fields[2].1));
                assert(crate::json::wf(fields[3].1));
            }
        },
        IronhiveRequest::WinServices => {
            reveal_strlit("winservices");
            assert(glookup(fields, "func"@) == Some(GJson::Str("winservices"@)));
            assert forall|i: int| 0 <= i < fields.len() implies crate::json::wf((#[trigger] fields[i]).1) by {
                assert(crate::json::wf(fields[0].1));
            }
        },
        IronhiveRequest::WinSvcDetail { name } => {
            reveal_strlit("winsvcdetail");
            assert(glookup(fields, "func"@) == Some(GJson::Str("winsvcdetail"@)));
            reveal_strlit("name");
            assert("func"@[0] == 'f');
            assert("name"@[0] == 'n');
            assert("func"@ != "name"@);
            assert forall|i: int| 0 <= i < 1 implies (#[trigger] fields[i]).0 != "name"@ by {
                assert(fields[0].0 == "func"@);
            }
            lemma_glookup_skip(fields, "name"@, 1);
            assert(fields.skip(1)[0] == fields[1]);
            assert(glookup(fields, "name"@) == Some(fields[1].1));
            assert forall|i: int| 0 <= i < fields.len() implies crate::json::wf((#[trigger] fields[i]).1) by {
                assert(crate::json::wf(fields[0].1));
                assert(crate::json::wf(fields[1].1));
            }
        },
        IronhiveRequest::WinSvcAction { name, action } => {
            reveal_strlit("winsvcaction");
            assert(glookup(fields, "func"@) == Some(GJson::Str("winsvcaction"@)));
            reveal_strlit("name");
            assert("func"@[0] == 'f');
            assert("name"@[0] == 'n');
            assert("func"@ != "name"@);
            assert forall|i: int| 0 <= i < 1 implies (#[trigger] fields[i]).0 != "name"@ by {
                assert(fields[0].0 == "func"@);
            }
            lemma_glookup_skip(fields, "name"@, 1);
            assert(fields.skip(1)[0] == fields[1]);
            assert(glookup(fields, "name"@) == Some(fields[1].1));
            reveal_strlit("action");
            assert("func"@.len() == 4);
            assert("action"@.len() == 6);
            assert("func"@ != "action"@);
            assert("name"@.len() == 4);
            assert("name"@ != "action"@);
            assert forall|i: int| 0 <= i < 2 implies (#[trigger] fields[i]).0 != "action"@ by {
                assert(fields[0].0 == "func"@);
                assert(fields[1].0 == "name"@);
            }
            lemma_glookup_skip(fields, "action"@, 2);
            assert(fields.skip(2)[0] == fields[2]);
            assert(glookup(fields, "action"@) == Some(fields[2].1));
            assert forall|i: int| 0 <= i < fields.len() implies crate::json::wf((#[trigger] fields[i]).1) by {
                assert(crate::json::wf(fields[0].1));
                assert(crate::json::wf(fields[1].1));
                assert(crate::json::wf(fields[2].1));
            }
        },
        IronhiveRequest::EditWinSvc { name, start_type } => {
            reveal_strlit("editwinsvc");
            assert(glookup(fields, "func"@) == Some(GJson::Str("editwinsvc"@)));
            reveal_strlit("name");
            assert("func"@[0] == 'f');
            assert("name"@[0] == 'n');
            assert("func"@ != "name"@);
            assert forall|i: int| 0 <= i < 1 implies (#[trigger] fields[i]).0 != "name"@ by {
                assert(fields[0].0 == "func"@);
            }
            lemma_glookup_skip(fields, "name"@, 1);
            assert(fields.skip(1)[0] == fields[1]);
            assert(glookup(fields, "name"@) == Some(fields[1].1));
            reveal_strlit("start_type");
            assert("func"@.len() == 4);
            assert("start_type"@.len() == 10);
            assert("func"@ != "start_type"@);
            assert("name"@.len() == 4);
            assert("name"@ != "start_type"@);
            assert forall|i: int| 0 <= i < 2 implies (#[trigger] fields[i]).0 != "start_type"@ by {
                assert(fields[0].0 == "func"@);
                assert(fields[1].0 == "name"@);
            }
            lemma_glookup_skip(fields, "start_type"@, 2);
            assert(fields.skip(2)[0] == fields[2]);
            assert(glookup(fields, "start_type"@) == Some(fields[2].1));
            assert forall|i: int| 0 <= i < fields.len() implies crate::json::wf((#[trigger] fields[i]).1) by {
                assert(crate::json::wf(fields[0].1));
                assert(crate::json::wf(fields[1].1));
                assert(crate::json::wf(fields[2].1));
            }
        },
        IronhiveRequest::RunScript { code, mode, script_args, timeout, env_vars, id } => {
            reveal_strlit("runscript");
            assert(glookup(fields, "func"@) == Some(GJson::Str("runscript"@)));
            reveal_strlit("code");
            assert("func"@[0] == 'f');
            assert("code"@[0] == 'c');
            assert("func"@ != "code"@);
            assert forall|i: int| 0 <= i < 1 implies (#[trigger] fields[i]).0 != "code"@ by {
                assert(fields[0].0 == "func"@);
            }
            lemma_glookup_skip(fields, "code"@, 1);
            assert(fields.skip(1)[0] == fields[1]);
            assert(glookup(fields, "code"@) == Some(fields[1].1));
            reveal_strlit("mode");
            assert("mode"@[0] == 'm');
            assert("func"@ != "mode"@);
            assert("code"@ != "mode"@);
            assert forall|i: int| 0 <= i < 2 implies (#[trigger] fields[i]).0 != "mode"@ by {
                assert(fields[0].0 == "func"@);
                assert(fields[1].0 == "code"@);
            }
            lemma_glookup_skip(fields, "mode"@, 2);
            assert(fields.skip(2)[0] == fields[2]);
            assert(glookup(fields, "mode"@) == Some(fields[2].1));
            lemma_smode_canonical(mode);
            reveal_strlit("script_args");
            assert("func"@.len() == 4);
            assert("script_args"@.len() == 11);
            assert("func"@ != "script_args"@);
            assert("code"@.len() == 4);
            assert("code"@ != "script_args"@);
            assert("mode"@.len() == 4);
            assert("mode"@ != "script_args"@);
            assert forall|i: int| 0 <= i < 3 implies (#[trigger] fields[i]).0 != "script_args"@ by {
                assert(fields[0].0 == "func"@);
                assert(fields[1].0 == "code"@);
                assert(fields[2].0 == "mode"@);
            }
            lemma_glookup_skip(fields, "script_args"@, 3);
            assert(fields.skip(3)[0] == fields[3]);
            assert(glookup(fields, "script_args"@) == Some(fields[3].1));
            crate::codec::lemma_strvec_round(script_args);
            reveal_strlit("timeout");
            assert("timeout"@.len() == 7);
            assert("func"@ != "timeout"@);
            assert("code"@ != "timeout"@);
            assert("mode"@ != "timeout"@);
            assert("script_args"@ != "timeout"@);
            assert forall|i: int| 0 <= i < 4 implies (#[trigger] fields[i]).0 != "timeout"@ by {
                assert(fields[0].0 == "func"@);
                assert(fields[1].0 == "code"@);
                assert(fields[2].0 == "mode"@);
                assert(fields[3].0 == "script_args"@);
            }
            lemma_glookup_skip(fields, "timeout"@, 4);
            assert(fields.skip(4)[0] == fields[4]);
            assert(glookup(fields, "timeout"@) == Some(fields[4].1));
            crate::dur::lemma_dur_round_trip(timeout);
            reveal_strlit("env_vars");
            assert("env_vars"@.len() == 8);
            assert("func"@ != "env_vars"@);
            assert("code"@ != "env_vars"@);
            assert("mode"@ != "env_vars"@);
            assert("script_args"@ != "env_vars"@);
            assert("timeout"@ != "env_vars"@);
            assert forall|i: int| 0 <= i < 5 implies (#[trigger] fields[i]).0 != "env_vars"@ by {
                assert(fields[0].0 == "func"@);
                assert(fields[1].0 == "code"@);
                assert(fields[2].0 == "mode"@);
                assert(fields[3].0 == "script_args"@);
                assert(fields[4].0 == "timeout"@);
            }
            lemma_glookup_skip(fields, "env_vars"@, 5);
            assert(fields.skip(5)[0] == fields[5]);
            assert(glookup(fields, "env_vars"@) == Some(fields[5].1));
            crate::codec::lemma_env_round(env_vars);
            reveal_strlit("id");
            assert("id"@.len() == 2);
            assert("func"@ != "id"@);
            assert("code"@ != "id"@);
            assert("mode"@ != "id"@);
            assert("script_args"@ != "id"@);
            assert("timeout"@ != "id"@);
            assert("env_vars"@ != "id"@);
            assert forall|i: int| 0 <= i < 6 implies (#[trigger] fields[i]).0 != "id"@ by {
                assert(fields[0].0 == "func"@);
                assert(fields[1].0 == "code"@);
                assert(fields[2].0 == "mode"@);
                assert(fields[3].0 == "script_args"@);
                assert(fields[4].0 == "timeout"@);
                assert(fields[5].0 == "env_vars"@);
            }
            lemma_glookup_skip(fields, "id"@, 6);
            assert(fields.skip(6)[0] == fields[6]);
            assert(glookup(fields, "id"@) == Some(fields[6].1));
            crate::text::lemma_i64_digits_round_trip(id as i64);
            crate::messages::lemma_wf_num_i64(id as i64);
            assert forall|i: int| 0 <= i < fields.len() implies crate::json::wf((#[trigger] fields[i]).1) by {
                assert(crate::json::wf(fields[0].1));
                assert(crate::json::wf(fields[1].1));
                assert(crate::json::wf(fields[2].1));
                assert(crate::json::wf(fields[3].1));
                assert(crate::json::wf(fields[4].1));
                assert(crate::json::wf(fields[5].1));
                assert(crate::json::wf(fields[6].1));
            }
        },
        IronhiveRequest::SoftwareList => {
            reveal_strlit("softwarelist");
            assert(glookup(fields, "func"@) == Some(GJson::Str("softwarelist"@)));
            assert forall|i: int| 0 <= i < fields.len() implies crate::json::wf((#[trigger] fields[i]).1) by {
                assert(crate::json::wf(fields[0].1));
            }
        },
        IronhiveRequest::RebootNow => {
            reveal_strlit("rebootnow");
            assert(glookup(fields, "func"@) == Some(GJson::Str("rebootnow"@)));
            assert forall|i: int| 0 <= i < fields.len() implies crate::json::wf((#[trigger] fields[i]).1) by {
                assert(crate::json::wf(fields[0].1));
            }
        },
        IronhiveRequest::NeedsReboot => {
            reveal_strlit("needsreboot");
            assert(glookup(fields, "func"@) == Some(GJson::Str("needsreboot"@)));
            assert forall|i: int| 0 <= i < fields.len() implies crate::json::wf((#[trigger] fields[i]).1) by {
                assert(crate::json::wf(fields[0].1));
            }
        },
        IronhiveRequest::SysInfo => {
            reveal_strlit("sysinfo");
            assert(glookup(fields, "func"@) == Some(GJson::Str("sysinfo"@)));
            assert forall|i: int| 0 <= i < fields.len() implies crate::json::wf((#[trigger] fields[i]).1) by {
                assert(crate::json::wf(fields[0].1));
            }
        },
        IronhiveRequest::WMI => {
            reveal_strlit("wmi");
            assert(glookup(fields, "func"@) == Some(GJson::Str("wmi"@)));
            assert forall|i: int| 0 <= i < fields.len() implies crate::json::wf((#[trigger] fields[i]).1) by {
                assert(crate::json::wf(fields[0].1));
            }
        },
        IronhiveRequest::CpuLoadAvg => {
            reveal_strlit("cpuloadavg");
            assert(glookup(fields, "func"@) == Some(GJson::Str("cpuloadavg"@)));
            assert forall|i: int| 0 <= i < fields.len() implies crate::json::wf((#[trigger] fields[i]).1) by {
                assert(crate::json::wf(fields[0].1));
            }
        },
        IronhiveRequest::CpuUssage => {
            reveal_strlit("cpuussage");
            assert(glookup(fields, "func"@) == Some(GJson::Str("cpuussage"@)));
            assert forall|i: int| 0 <= i < fields.len() implies crate::json::wf((#[trigger] fields[i]).1) by {
                assert(crate::json::wf(fields[0].1));
            }
        },
        IronhiveRequest::PublicIp => {
            reveal_strlit("publicip");
            assert(glookup(fields, "func"@) == Some(GJson::Str("publicip"@)));
            assert forall|i: int| 0 <= i < fields.len() implies crate::json::wf((#[trigger] fields[i]).1) by {
                assert(crate::json::wf(fields[0].1));
            }
        },
        IronhiveRequest::InstallChoco => {
            reveal_strlit("installchoco");
            assert(glookup(fields, "func"@) == Some(GJson::Str("installchoco"@)));
            assert forall|i: int| 0 <= i < fields.len() implies crate::json::wf((#[trigger] fields[i]).1) by {
                assert(crate::json::wf(fields[0].1));
            }
        },
        IronhiveRequest::InstallWithChoco { choco_prog_name } => {
            reveal_strlit("installwithchoco");
            assert(glookup(fields, "func"@) == Some(GJson::Str("installwithchoco"@)));
            reveal_strlit("choco_prog_name");
            assert("func"@.len() == 4);
            assert("choco_prog_name"@.len() == 15);
            assert("func"@ != "choco_prog_name"@);
            assert forall|i: int| 0 <= i < 1 implies (#[trigger] fields[i]).0 != "choco_prog_name"@ by {
                assert(fields[0].0 == "func"@);
            }
            lemma_glookup_skip(fields, "choco_prog_name"@, 1);
            assert(fields.skip(1)[0] == fields[1]);
            assert(glookup(fields, "choco_prog_name"@) == Some(fields[1].1));
            assert forall|i: int| 0 <= i < fields.len() implies crate::json::wf((#[trigger] fields[i]).1) by {
                assert(crate::json::wf(fields[0].1));
                assert(crate::json::wf(fields[1].1));
            }
        },
        IronhiveRequest::GetWinUpdates => {
            reveal_strlit("getwinupdates");
            assert(glookup(fields, "func"@) == Some(GJson::Str("getwinupdates"@)));
            assert forall|i: int| 0 <= i < fields.len() implies crate::json::wf((#[trigger] fields[i]).1) by {
                assert(crate::json::wf(fields[0].1));
            }
        },
        IronhiveRequest::InstallWinUpdates { update_guids } => {
            reveal_strlit("installwinupdates");
            assert(glookup(fields, "func"@) == Some(GJson::Str("installwinupdates"@)));
            reveal_strlit("update_guids");
            assert("func"@.len() == 4);
            assert("update_guids"@.len() == 12);
            assert("func"@ != "update_guids"@);
            assert forall|i: int| 0 <= i < 1 implies (#[trigger] fields[i]).0 != "update_guids"@ by {
                assert(fields[0].0 == "func"@);
            }
            lemma_glookup_skip(fields, "update_guids"@, 1);
            assert(fields.skip(1)[0] == fields[1]);
            assert(glookup(fields, "update_guids"@) == Some(fields[1].1));
            crate::codec::lemma_strvec_round(update_guids);
            assert forall|i: int| 0 <= i < fields.len() implies crate::json::wf((#[trigger] fields[i]).1) by {
                assert(crate::json::wf(fields[0].1));
                assert(crate::json::wf(fields[1].1));
            }
        },
        IronhiveRequest::Checkin { mode } => {
            reveal_strlit("checkin");
            assert(glookup(fields, "func"@) == Some(GJson::Str("checkin"@)));
            reveal_strlit("mode");
            assert("func"@[0] == 'f');
            assert("mode"@[0] == 'm');
            assert("func"@ != "mode"@);
            assert forall|i: int| 0 <= i < 1 implies (#[trigger] fields[i]).0 != "mode"@ by {
                assert(fields[0].0 == "func"@);
            }
            lemma_glookup_skip(fields, "mode"@, 1);
            assert(fields.skip(1)[0] == fields[1]);
            assert(glookup(fields, "mode"@) == Some(fields[1].1));
            crate::mode::lemma_mode_string_bijection();
            assert forall|i: int| 0 <= i < fields.len() implies crate::json::wf((#[trigger] fields[i]).1) by {
                assert(crate::json::wf(fields[0].1));
                assert(crate::json::wf(fields[1].1));
            }
        },
    }
}

} // verus!
