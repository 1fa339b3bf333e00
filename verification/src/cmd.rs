//! Planning external commands: which program runs, with which argument
//! list, which raw tail, and under which timeout. The plans are computed
//! here and carried out by the unverified runner; the platform is an
//! explicit value so each platform's rules are stated and checked.
use vstd::prelude::*;

use crate::codec::{env_view, strs_view};
use crate::dur::Dur;
use crate::error::Error;
use crate::mode::ScriptMode;
use crate::text::{str_eq, string_of};

verus! {

broadcast use vstd::seq::group_seq_axioms;

/// The host family a plan is made for.
#[derive(Debug, Clone, Copy, PartialEq, Eq, Structural)]
pub enum Platform {
    Windows,
    Unix,
}

/// One resolved process invocation.
///
/// `program` names the binary as the platform resolves it; the runner may
/// substitute the platform's fallback path for `powershell.exe` and
/// `cmd.exe` when probing fails. `raw_tail` is appended unparsed after
/// `args`, preserving the caller's quoting.
#[derive(Debug, Clone)]
pub struct CmdOptions {
    /// Start the child in its own process group, detached from this one.
    pub detached: bool,
    pub program: String,
    pub args: Vec<String>,
    pub raw_tail: Option<String>,
    pub env_vars: Vec<(String, String)>,
    pub timeout: Dur,
}

/// A raw shell command: `{shell, command}` run under a timeout.
#[derive(Debug, Clone)]
pub struct CmdShell {
    pub shell: String,
    pub command: String,
    pub detached: bool,
    pub timeout: Dur,
}

impl CmdShell {
    /// The invocation this shell command denotes.
    ///
    /// On the Windows family, `cmd` runs `cmd /C` with the command as an
    /// unparsed tail, `powershell` runs non-interactively without a
    /// profile, and any other shell name is refused. On the Unix family
    /// every shell runs `<shell> -c <command>`.
    pub fn plan(&self, platform: Platform) -> (r: Result<CmdOptions, Error>)
        ensures
            platform is Unix ==> (r matches Ok(p) && p.program@ == self.shell@ && strs_view(
                p.args,
            ) =~= seq!["-c"@, self.command@] && p.raw_tail is None && p.detached
                == self.detached && p.timeout == self.timeout && p.env_vars@.len() == 0),
            platform is Windows && self.shell@ == "cmd"@ ==> (r matches Ok(p) && p.program@
                == self.shell@ && strs_view(p.args) =~= seq!["/C"@] && (p.raw_tail matches Some(t)
                && t@ == self.command@) && p.detached == self.detached && p.timeout
                == self.timeout && p.env_vars@.len() == 0),
            platform is Windows && self.shell@ == "powershell"@ ==> (r matches Ok(p)
                && p.program@ == self.shell@ && strs_view(p.args) =~= seq![
                "-NonInteractive"@,
                "-NoProfile"@,
                self.command@,
            ] && p.raw_tail is None && p.detached == self.detached && p.timeout == self.timeout
                && p.env_vars@.len() == 0),
            platform is Windows && self.shell@ != "cmd"@ && self.shell@ != "powershell"@ ==> (r
                matches Err(e) && e == Error::UnsupportedShell(self.shell)),
    {
        proof {
            reveal_strlit("cmd");
            reveal_strlit("powershell");
            assert("cmd"@.len() == 3);
            assert("powershell"@.len() == 10);
        }
        match platform {
            Platform::Windows => {
                if str_eq(self.shell.as_str(), "cmd") {
                    let mut args: Vec<String> = Vec::new();
                    args.push(string_of("/C"));
                    proof {
                        assert(strs_view(args) =~= seq!["/C"@]);
                    }
                    Ok(
                        CmdOptions {
                            detached: self.detached,
                            program: self.shell.clone(),
                            args,
                            raw_tail: Some(self.command.clone()),
                            env_vars: Vec::new(),
                            timeout: self.timeout,
                        },
                    )
                } else if str_eq(self.shell.as_str(), "powershell") {
                    let mut args: Vec<String> = Vec::new();
                    args.push(string_of("-NonInteractive"));
                    args.push(string_of("-NoProfile"));
                    args.push(self.command.clone());
                    proof {
                        assert(strs_view(args) =~= seq![
                            "-NonInteractive"@,
                            "-NoProfile"@,
                            self.command@,
                        ]);
                    }
                    let opts = CmdOptions {
                        detached: self.detached,
                        program: self.shell.clone(),
                        args,
                        raw_tail: None,
                        env_vars: Vec::new(),
                        timeout: self.timeout,
                    };
                    proof {
                        assert(strs_view(opts.args) =~= seq![
                            "-NonInteractive"@,
                            "-NoProfile"@,
                            self.command@,
                        ]);
                    }
                    Ok(opts)
                } else {
                    Err(Error::UnsupportedShell(self.shell.clone()))
                }
            },
            Platform::Unix => {
                let mut args: Vec<String> = Vec::new();
                args.push(string_of("-c"));
                args.push(self.command.clone());
                proof {
                    assert(strs_view(args) =~= seq!["-c"@, self.command@]);
                }
                Ok(
                    CmdOptions {
                        detached: self.detached,
                        program: self.shell.clone(),
                        args,
                        raw_tail: None,
                        env_vars: Vec::new(),
                        timeout: self.timeout,
                    },
                )
            },
        }
    }
}

/// A shell with an argument list instead of one command string.
#[derive(Debug, Clone)]
pub struct CmdArgs {
    pub shell: String,
    pub cmd_args: Vec<String>,
    pub detached: bool,
    pub timeout: Dur,
}

impl CmdArgs {
    /// The invocation this argument-list command denotes; the Windows
    /// family accepts only `cmd` and `powershell`, as `CmdShell` does.
    pub fn plan(&self, platform: Platform) -> (r: Result<CmdOptions, Error>)
        ensures
            platform is Unix ==> (r matches Ok(p) && p.program@ == self.shell@ && strs_view(
                p.args,
            ) =~= strs_view(self.cmd_args) && p.raw_tail is None && p.timeout == self.timeout),
            platform is Windows && self.shell@ == "cmd"@ ==> (r matches Ok(p) && p.program@
                == "cmd.exe"@ && strs_view(p.args) =~= seq!["/C"@] + strs_view(self.cmd_args)
                && p.raw_tail is None && p.timeout == self.timeout),
            platform is Windows && self.shell@ == "powershell"@ ==> (r matches Ok(p)
                && p.program@ == "powershell.exe"@ && strs_view(p.args) =~= seq![
                "-NonInteractive"@,
                "-NoProfile"@,
            ] + strs_view(self.cmd_args) && p.raw_tail is None && p.timeout == self.timeout),
            platform is Windows && self.shell@ != "cmd"@ && self.shell@ != "powershell"@ ==> (r
                matches Err(e) && e == Error::UnsupportedShell(self.shell)),
    {
        proof {
            reveal_strlit("cmd");
            reveal_strlit("powershell");
            assert("cmd"@.len() == 3);
            assert("powershell"@.len() == 10);
        }
        match platform {
            Platform::Windows => {
                if str_eq(self.shell.as_str(), "cmd") {
                    let mut args: Vec<String> = Vec::new();
                    args.push(string_of("/C"));
                    append_all(&mut args, &self.cmd_args);
                    proof {
                        assert(strs_view(args) =~= seq!["/C"@] + strs_view(self.cmd_args));
                    }
                    Ok(
                        CmdOptions {
                            detached: self.detached,
                            program: string_of("cmd.exe"),
                            args,
                            raw_tail: None,
                            env_vars: Vec::new(),
                            timeout: self.timeout,
                        },
                    )
                } else if str_eq(self.shell.as_str(), "powershell") {
                    let mut args: Vec<String> = Vec::new();
                    args.push(string_of("-NonInteractive"));
                    args.push(string_of("-NoProfile"));
                    append_all(&mut args, &self.cmd_args);
                    proof {
                        assert(strs_view(args) =~= seq!["-NonInteractive"@, "-NoProfile"@]
                            + strs_view(self.cmd_args));
                    }
                    let opts = CmdOptions {
                        detached: self.detached,
                        program: string_of("powershell.exe"),
                        args,
                        raw_tail: None,
                        env_vars: Vec::new(),
                        timeout: self.timeout,
                    };
                    proof {
                        assert(strs_view(opts.args) =~= seq!["-NonInteractive"@, "-NoProfile"@]
                            + strs_view(self.cmd_args));
                    }
                    Ok(opts)
                } else {
                    Err(Error::UnsupportedShell(self.shell.clone()))
                }
            },
            Platform::Unix => {
                let mut args: Vec<String> = Vec::new();
                append_all(&mut args, &self.cmd_args);
                proof {
                    assert(strs_view(args) =~= strs_view(self.cmd_args));
                }
                Ok(
                    CmdOptions {
                        detached: self.detached,
                        program: self.shell.clone(),
                        args,
                        raw_tail: None,
                        env_vars: Vec::new(),
                        timeout: self.timeout,
                    },
                )
            },
        }
    }
}

/// A plain binary with its arguments.
#[derive(Debug, Clone)]
pub struct CmdExe {
    pub exe: String,
    pub args: Vec<String>,
    pub detached: bool,
    pub timeout: Dur,
}

impl CmdExe {
    /// The invocation this denotes: the binary as given.
    pub fn plan(&self) -> (r: CmdOptions)
        ensures
            r.program@ == self.exe@,
            strs_view(r.args) =~= strs_view(self.args),
            r.raw_tail is None,
            r.detached == self.detached,
            r.timeout == self.timeout,
            r.env_vars@.len() == 0,
    {
        let mut args: Vec<String> = Vec::new();
        append_all(&mut args, &self.args);
        proof {
            assert(strs_view(args) =~= strs_view(self.args));
        }
        CmdOptions {
            detached: self.detached,
            program: self.exe.clone(),
            args,
            raw_tail: None,
            env_vars: Vec::new(),
            timeout: self.timeout,
        }
    }
}

/// A script body to materialize and run under a mode.
#[derive(Debug, Clone)]
pub struct CmdScript {
    pub code: String,
    pub mode: ScriptMode,
    pub args: Vec<String>,
    pub env_vars: Vec<(String, String)>,
    pub detached: bool,
    pub timeout: Dur,
}

/// The program a script mode invokes on each platform, given the
/// materialized temp-file path.
pub open spec fn spec_script_program(
    mode: ScriptMode,
    platform: Platform,
    temp: Seq<char>,
) -> Seq<char> {
    match platform {
        Platform::Windows => match mode {
            ScriptMode::PowerShell => "powershell.exe"@,
            ScriptMode::Binary { path, .. } => path@,
            ScriptMode::Cmd => "cmd.exe"@,
            ScriptMode::Directly => temp,
        },
        Platform::Unix => match mode {
            ScriptMode::Binary { path, .. } => path@,
            _ => temp,
        },
    }
}

/// The argument list a script mode invokes, before the caller's own
/// arguments.
pub open spec fn spec_script_prefix(
    mode: ScriptMode,
    platform: Platform,
    temp: Seq<char>,
) -> Seq<Seq<char>> {
    match platform {
        Platform::Windows => match mode {
            ScriptMode::PowerShell => seq![
                "-NonInteractive"@,
                "-NoProfile"@,
                "-ExecutionPolicy"@,
                "Bypass"@,
                temp,
            ],
            ScriptMode::Binary { .. } => seq![temp],
            ScriptMode::Cmd => Seq::empty(),
            ScriptMode::Directly => Seq::empty(),
        },
        Platform::Unix => match mode {
            ScriptMode::Binary { .. } => seq![temp],
            _ => Seq::empty(),
        },
    }
}

impl CmdScript {
    /// The invocation this script denotes once its body sits at `temp`:
    /// the mode's interpreter, the mode's fixed arguments, the temp file
    /// where the mode takes one, then the caller's arguments.
    pub fn plan(&self, platform: Platform, temp: &str) -> (r: CmdOptions)
        ensures
            r.program@ == spec_script_program(self.mode, platform, temp@),
            strs_view(r.args) =~= spec_script_prefix(self.mode, platform, temp@) + strs_view(
                self.args,
            ),
            r.raw_tail is None,
            r.detached == self.detached,
            r.timeout == self.timeout,
            env_view(r.env_vars) =~= env_view(self.env_vars),
    {
        let mut args: Vec<String> = Vec::new();
        let program: String = match platform {
            Platform::Windows => match &self.mode {
                ScriptMode::PowerShell => {
                    args.push(string_of("-NonInteractive"));
                    args.push(string_of("-NoProfile"));
                    args.push(string_of("-ExecutionPolicy"));
                    args.push(string_of("Bypass"));
                    args.push(string_of(temp));
                    string_of("powershell.exe")
                },
                ScriptMode::Binary { path, .. } => {
                    args.push(string_of(temp));
                    path.clone()
                },
                ScriptMode::Cmd => string_of("cmd.exe"),
                ScriptMode::Directly => string_of(temp),
            },
            Platform::Unix => match &self.mode {
                ScriptMode::Binary { path, .. } => {
                    args.push(string_of(temp));
                    path.clone()
                },
                _ => string_of(temp),
            },
        };
        proof {
            assert(strs_view(args) =~= spec_script_prefix(self.mode, platform, temp@));
        }
        append_all(&mut args, &self.args);
        proof {
            assert(strs_view(args) =~= spec_script_prefix(self.mode, platform, temp@)
                + strs_view(self.args));
        }
        let env_vars = clone_env(&self.env_vars);
        let opts = CmdOptions {
            detached: self.detached,
            program,
            args,
            raw_tail: None,
            env_vars,
            timeout: self.timeout,
        };
        proof {
            assert(strs_view(opts.args) =~= spec_script_prefix(self.mode, platform, temp@)
                + strs_view(self.args));
            assert(env_view(opts.env_vars) =~= env_view(self.env_vars));
        }
        opts
    }
}

/// A copy of a name/value list with the same views.
fn clone_env(src: &Vec<(String, String)>) -> (r: Vec<(String, String)>)
    ensures
        env_view(r) =~= env_view(*src),
{
    let mut out: Vec<(String, String)> = Vec::new();
    let mut i: usize = 0;
    while i < src.len()
        invariant
            0 <= i <= src@.len(),
            env_view(out) =~= env_view(*src).take(i as int),
        decreases src@.len() - i,
    {
        let ghost pre = out;
        out.push((src[i].0.clone(), src[i].1.clone()));
        proof {
            assert(env_view(out) =~= env_view(pre).push(env_view(*src)[i as int]));
            assert(env_view(*src).take(i + 1) =~= env_view(*src).take(i as int).push(
                env_view(*src)[i as int],
            ));
        }
        i = i + 1;
    }
    proof {
        assert(env_view(*src).take(src@.len() as int) =~= env_view(*src));
    }
    out
}

/// Append clones of every string in `src` to `dst`.
fn append_all(dst: &mut Vec<String>, src: &Vec<String>)
    ensures
        strs_view(*final(dst)) =~= strs_view(*old(dst)) + strs_view(*src),
{
    let mut i: usize = 0;
    while i < src.len()
        invariant
            0 <= i <= src@.len(),
            strs_view(*dst) =~= strs_view(*old(dst)) + strs_view(*src).take(i as int),
        decreases src@.len() - i,
    {
        let ghost pre = *dst;
        dst.push(src[i].clone());
        proof {
            assert(strs_view(*dst) =~= strs_view(pre).push(strs_view(*src)[i as int]));
            assert(strs_view(*src).take(i + 1) =~= strs_view(*src).take(i as int).push(
                strs_view(*src)[i as int],
            ));
            assert(strs_view(*dst) =~= strs_view(*old(dst)) + strs_view(*src).take(i + 1));
        }
        i = i + 1;
    }
    proof {
        assert(strs_view(*src).take(src@.len() as int) =~= strs_view(*src));
    }
}

} // verus!
