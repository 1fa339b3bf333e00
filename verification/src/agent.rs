//! The agent: its identity, its host snapshot, and the probe logic over
//! it. Host readings come in through narrow trusted wrappers around the
//! system-information crate and are processed by verified code.
use vstd::prelude::*;

use crate::codec::strs_view;
use crate::dur::Dur;
use crate::error::Error;
use crate::messages::{Disk, ProcessMsg};
use crate::text::{string_of, u64_string};

verus! {

broadcast use vstd::seq::group_seq_axioms;

#[verifier::external_type_specification]
#[verifier::external_body]
pub struct ExSystem(sysinfo::System);

#[verifier::external_type_specification]
#[verifier::external_body]
pub struct ExUsers(sysinfo::Users);

#[verifier::external_type_specification]
#[verifier::external_body]
pub struct ExUser(sysinfo::User);

/// One mounted filesystem as the host reports it.
#[derive(Debug, Clone)]
pub struct RawDisk {
    pub name: String,
    pub fstype: String,
    pub total: u64,
    pub avail: u64,
}

/// One process as the host reports it. `cpu_percent` arrives as the
/// probe's one-decimal percent text; the user fields are absent when the
/// owner is unknown.
#[derive(Debug, Clone)]
pub struct RawProc {
    pub pid: u32,
    pub name: String,
    pub membytes: u64,
    pub uid: Option<String>,
    pub username: Option<String>,
    pub cpu_percent: String,
}

// ------------------------------------------------------------------
// Trusted host readings.
// ------------------------------------------------------------------
/// Relies on `sysinfo::System::new_all`: a refreshed system snapshot.
#[verifier::external_body]
pub fn sys_new() -> sysinfo::System {
    sysinfo::System::new_all()
}

/// Relies on `sysinfo::Users::new_with_refreshed_list`: the user table.
#[verifier::external_body]
pub fn users_new() -> sysinfo::Users {
    sysinfo::Users::new_with_refreshed_list()
}

/// Relies on `sysinfo::Disks::new_with_refreshed_list` and the disk
/// accessors: each mounted disk's name, filesystem, total and free
/// space, converted to plain values.
#[verifier::external_body]
pub fn disks_snapshot() -> Vec<RawDisk> {
    sysinfo::Disks::new_with_refreshed_list()
        .iter()
        .map(|d| RawDisk {
            name: d.name().to_string_lossy().to_string(),
            fstype: d.file_system().to_string_lossy().to_string(),
            total: d.total_space(),
            avail: d.available_space(),
        })
        .collect()
}

/// Relies on `sysinfo::System::processes` and the process accessors:
/// each process's identifier, name, memory, owner and one-decimal
/// processor share, converted to plain values.
#[verifier::external_body]
pub fn procs_snapshot(s: &sysinfo::System, users: &sysinfo::Users) -> Vec<RawProc> {
    s.processes()
        .iter()
        .map(|(pid, p)| RawProc {
            pid: pid.as_u32(),
            name: p.name().to_string_lossy().to_string(),
            membytes: p.memory(),
            uid: p.user_id().map(|uid| format!("{}", **uid)),
            username: p
                .user_id()
                .and_then(|uid| users.get_user_by_id(uid))
                .map(|u| u.name().to_string()),
            cpu_percent: format!("{:.1}%", p.cpu_usage()),
        })
        .collect()
}

/// Relies on `sysinfo::System::global_cpu_usage`: the overall processor
/// share, printed as its shortest decimal text.
#[verifier::external_body]
pub fn cpu_usage_text(s: &sysinfo::System) -> String {
    format!("{}", s.global_cpu_usage())
}

/// Relies on `sysinfo::System::load_average`: the one, five and fifteen
/// minute load figures, printed as their shortest decimal texts.
#[verifier::external_body]
pub fn load_avg_texts() -> (String, String, String) {
    let l = sysinfo::System::load_average();
    (format!("{}", l.one), format!("{}", l.five), format!("{}", l.fifteen))
}

/// Relies on `sysinfo::System::total_memory`.
#[verifier::external_body]
pub fn total_memory(s: &sysinfo::System) -> u64 {
    s.total_memory()
}

/// Relies on `sysinfo::System::boot_time`.
#[verifier::external_body]
pub fn boot_time() -> u64 {
    sysinfo::System::boot_time()
}

/// Relies on `sysinfo::System::host_name`; empty when unknown.
#[verifier::external_body]
pub fn host_name_text() -> String {
    sysinfo::System::host_name().unwrap_or_default()
}

/// Relies on `sysinfo::System::long_os_version`; empty when unknown.
#[verifier::external_body]
pub fn long_os_version_text() -> String {
    sysinfo::System::long_os_version().unwrap_or_default()
}

/// Relies on `sysinfo::System::kernel_version`; empty when unknown.
#[verifier::external_body]
pub fn kernel_version_text() -> String {
    sysinfo::System::kernel_version().unwrap_or_default()
}

/// Relies on `sysinfo::System::process` presence: whether the host
/// knows a process under this identifier.
#[verifier::external_body]
pub fn process_exists(s: &sysinfo::System, pid: u32) -> bool {
    s.process(sysinfo::Pid::from_u32(pid)).is_some()
}

/// Relies on `sysinfo::Process::kill`: ask the host to terminate the
/// process; whether the request was accepted.
#[verifier::external_body]
pub fn kill_process(s: &sysinfo::System, pid: u32) -> bool {
    s.process(sysinfo::Pid::from_u32(pid)).map(|p| p.kill()).unwrap_or(false)
}

/// Relies on `whoami::username`: the user logged on at the console;
/// empty when the host cannot say.
#[verifier::external_body]
pub fn logged_on_user() -> String {
    whoami::username().unwrap_or_default()
}

/// The decimal-unit size text of `n` bytes.
pub uninterp spec fn human_size_decimal(n: u64) -> Seq<char>;

/// Relies on `humansize::format_size` with decimal units: the size text
/// depends on the byte count alone.
#[verifier::external_body]
pub fn format_size_decimal(n: u64) -> (r: String)
    ensures
        r@ == human_size_decimal(n),
{
    humansize::format_size(n, humansize::DECIMAL)
}

/// The Windows-unit size text of `n` bytes.
pub uninterp spec fn human_size_windows(n: u64) -> Seq<char>;

/// Relies on `humansize::format_size` with Windows units: the size text
/// depends on the byte count alone.
#[verifier::external_body]
pub fn format_size_windows(n: u64) -> (r: String)
    ensures
        r@ == human_size_windows(n),
{
    humansize::format_size(n, humansize::WINDOWS)
}

// ------------------------------------------------------------------
// The agent.
// ------------------------------------------------------------------
/// The agent's stable identity and its host handle.
pub struct Agent {
    /// The forty-character identity; also the request subject.
    pub agent_id: String,
    pub version: String,
    pub host_name: String,
    pub nats_servers: Vec<String>,
    /// The platform name the build reports, as the caller read it.
    pub plat: String,
    /// The machine architecture the build reports, as the caller read it.
    pub arch: String,
    pub system: sysinfo::System,
    pub users: sysinfo::Users,
}

impl Agent {
    /// A fresh agent under the given identity and broker addresses; the
    /// platform and architecture names come from the caller's build.
    ///
    /// The addresses are kept verbatim, as the contract states: parsing
    /// them is deferred to the broker connector, so a malformed address
    /// surfaces there instead of being silently skipped here. This is a
    /// deliberate remodel of the address handling.
    pub fn with_servers(
        agent_id: String,
        version: String,
        nats_servers: Vec<String>,
        plat: String,
        arch: String,
    ) -> (r: Agent)
        ensures
            r.agent_id@ == agent_id@,
            r.version@ == version@,
            strs_view(r.nats_servers) =~= strs_view(nats_servers),
            r.plat@ == plat@,
            r.arch@ == arch@,
    {
        let system = sys_new();
        let users = users_new();
        let host_name = host_name_text();
        Agent { agent_id, version, host_name, nats_servers, plat, arch, system, users }
    }

    pub fn version(&self) -> (r: &str)
        ensures
            r@ == self.version@,
    {
        self.version.as_str()
    }

    pub fn host_name(&self) -> (r: &str)
        ensures
            r@ == self.host_name@,
    {
        self.host_name.as_str()
    }

    /// The overall processor share: the probe's text when it is a
    /// number lexeme, else zero. The reading itself carries no promise,
    /// so the result is pinned as the guard's image of some probe text.
    pub fn get_cpu_usage(&self) -> (r: String)
        ensures
            crate::json::wf_num(r@),
            exists|t: Seq<char>| r@ == #[trigger] spec_lexeme_or_zero(t),
    {
        let t = cpu_usage_text(&self.system);
        let ghost tv = t@;
        let r = lexeme_or_zero(t);
        proof {
            assert(r@ == spec_lexeme_or_zero(tv));
        }
        r
    }

    /// The three load figures: each the probe's text when it is a
    /// number lexeme, else zero.
    pub fn get_load_avg(&self) -> (r: (String, String, String))
        ensures
            crate::json::wf_num(r.0@),
            crate::json::wf_num(r.1@),
            crate::json::wf_num(r.2@),
            exists|t: Seq<char>| r.0@ == #[trigger] spec_lexeme_or_zero(t),
            exists|t: Seq<char>| r.1@ == #[trigger] spec_lexeme_or_zero(t),
            exists|t: Seq<char>| r.2@ == #[trigger] spec_lexeme_or_zero(t),
    {
        let (a, b, c) = load_avg_texts();
        let ghost (av, bv, cv) = (a@, b@, c@);
        let ra = lexeme_or_zero(a);
        let rb = lexeme_or_zero(b);
        let rc = lexeme_or_zero(c);
        proof {
            assert(ra@ == spec_lexeme_or_zero(av));
            assert(rb@ == spec_lexeme_or_zero(bv));
            assert(rc@ == spec_lexeme_or_zero(cv));
        }
        (ra, rb, rc)
    }

    /// The mounted disks as wire records; on the Unix family, loop and
    /// device-filesystem mounts are left out. The reading itself carries
    /// no promise, so the result is pinned as `disks_msg` of some raw
    /// list, which also bounds every used share to whole percent.
    pub fn get_disks(&self, platform: crate::cmd::Platform) -> (r: Vec<Disk>)
        ensures
            exists|raw: Seq<RawDisk>| #[trigger] disks_filter_rel(raw, r@, platform),
            forall|k: int| 0 <= k < r@.len() ==> 0 <= (#[trigger] r@[k]).percent <= 100,
    {
        let raw = disks_snapshot();
        let r = disks_msg(&raw, platform);
        proof {
            assert(disks_filter_rel(raw@, r@, platform));
            lemma_disks_percent_bounds(raw@, r@, platform);
        }
        r
    }

    /// The `"<long os version> <arch> <kernel version>"` text: the two
    /// host readings joined around this agent's architecture by single
    /// spaces. The readings carry no promise, so the result is pinned
    /// as the join of some pair of them.
    pub fn os_string(&self) -> (r: String)
        ensures
            exists|os: Seq<char>, kern: Seq<char>|
                r@ == #[trigger] spec_os_string(os, self.arch@, kern),
    {
        let os = long_os_version_text();
        let kern = kernel_version_text();
        let ghost (ov, kv) = (os@, kern@);
        let r = join_os_string(os.as_str(), self.arch.as_str(), kern.as_str());
        proof {
            assert(r@ == spec_os_string(ov, self.arch@, kv));
        }
        r
    }

    /// The process table as wire records, the idle process left out.
    pub fn get_procs_rpc(&self) -> (r: Vec<ProcessMsg>)
        ensures
            forall|k: int| 0 <= k < r@.len() ==> (#[trigger] r@[k]).pid != 0,
    {
        let raw = procs_snapshot(&self.system, &self.users);
        procs_msg(&raw)
    }

    /// Ask the host to end a process. The idle process is never a
    /// target: identifier zero reports as not found. For any other
    /// identifier the verdict is `kill_decision` over the two probe
    /// outcomes, so the only possible answers are success or an error
    /// carrying this identifier.
    pub fn kill_proc(&self, pid: u32) -> (r: Result<(), Error>)
        ensures
            pid == 0 ==> r == Err::<(), Error>(Error::NotFoundProcess(0u32)),
            pid != 0 ==> (r is Ok || r == Err::<(), Error>(Error::NotFoundProcess(pid)) || r
                == Err::<(), Error>(Error::KillProcessFailed(pid))),
    {
        let present = process_exists(&self.system, pid);
        let accepted = if present {
            kill_process(&self.system, pid)
        } else {
            false
        };
        kill_decision(pid, present, accepted)
    }
}

/// The kill verdict over the probe outcomes: the idle process and any
/// absent process are not found; a present process whose termination
/// request was refused failed; otherwise the kill succeeded.
pub fn kill_decision(pid: u32, present: bool, accepted: bool) -> (r: Result<(), Error>)
    ensures
        pid == 0 ==> r == Err::<(), Error>(Error::NotFoundProcess(0u32)),
        pid != 0 && !present ==> r == Err::<(), Error>(Error::NotFoundProcess(pid)),
        pid != 0 && present && !accepted ==> r == Err::<(), Error>(
            Error::KillProcessFailed(pid),
        ),
        pid != 0 && present && accepted ==> r is Ok,
{
    if pid == 0 {
        Err(Error::NotFoundProcess(0))
    } else if !present {
        Err(Error::NotFoundProcess(pid))
    } else if !accepted {
        Err(Error::KillProcessFailed(pid))
    } else {
        Ok(())
    }
}

/// Whether a number lexeme stands in `s`.
pub fn is_num_lexeme(s: &str) -> (r: bool)
    ensures
        r == crate::json::wf_num(s@),
{
    let cs = crate::text::str_chars(s);
    if cs.len() == 0 {
        return false;
    }
    let c0 = cs[0];
    if !(('0' <= c0 && c0 <= '9') || c0 == '-') {
        return false;
    }
    let mut i: usize = 0;
    while i < cs.len()
        invariant
            cs@ == s@,
            0 <= i <= cs@.len(),
            forall|k: int| 0 <= k < i ==> crate::json::num_char(#[trigger] cs@[k]),
        decreases cs@.len() - i,
    {
        let c = cs[i];
        if !(('0' <= c && c <= '9') || c == '-' || c == '+' || c == '.' || c == 'e' || c == 'E') {
            return false;
        }
        i = i + 1;
    }
    true
}

/// The guard's image: a number lexeme passes through unchanged,
/// anything else becomes zero.
pub open spec fn spec_lexeme_or_zero(t: Seq<char>) -> Seq<char> {
    if crate::json::wf_num(t) {
        t
    } else {
        "0"@
    }
}

/// Keep a probe text only if it is a number lexeme; substitute zero
/// otherwise.
pub fn lexeme_or_zero(t: String) -> (r: String)
    ensures
        r@ == spec_lexeme_or_zero(t@),
        crate::json::wf_num(r@),
{
    proof {
        reveal_strlit("0");
        assert(crate::json::wf_num("0"@)) by {
            assert("0"@[0] == '0');
        }
    }
    if is_num_lexeme(t.as_str()) {
        t
    } else {
        string_of("0")
    }
}

/// The `"<os> <arch> <kernel>"` join, each part as given.
pub open spec fn spec_os_string(os: Seq<char>, arch: Seq<char>, kern: Seq<char>) -> Seq<char> {
    os + seq![' '] + arch + seq![' '] + kern
}

/// Join the three readings around single spaces.
pub fn join_os_string(os: &str, arch: &str, kern: &str) -> (r: String)
    ensures
        r@ == spec_os_string(os@, arch@, kern@),
{
    let mut out: Vec<char> = Vec::new();
    crate::json::push_str_chars(&mut out, os);
    out.push(' ');
    crate::json::push_str_chars(&mut out, arch);
    out.push(' ');
    crate::json::push_str_chars(&mut out, kern);
    proof {
        assert(out@ =~= spec_os_string(os@, arch@, kern@));
    }
    crate::text::string_from_chars(&out)
}

/// The used share of a disk in whole percent: used times one hundred
/// over total, zero for an empty or inconsistent reading.
pub open spec fn spec_disk_percent(total: u64, avail: u64) -> int {
    if total == 0 || avail > total {
        0
    } else {
        ((total - avail) * 100) / (total as int)
    }
}

pub fn disk_percent(total: u64, avail: u64) -> (r: i32)
    ensures
        r == spec_disk_percent(total, avail),
        0 <= r <= 100,
{
    if total == 0 || avail > total {
        0
    } else {
        let used: u64 = total - avail;
        let p: u128 = (used as u128) * 100 / (total as u128);
        proof {
            assert((used as int) * 100 / (total as int) <= 100) by (nonlinear_arith)
                requires
                    0 < total <= u64::MAX,
                    0 <= used <= total,
            ;
            assert((used as int) * 100 >= 0) by (nonlinear_arith)
                requires
                    used >= 0,
            ;
            assert((used as int) * 100 / (total as int) >= 0);
        }
        p as i32
    }
}

/// How one raw disk determines its wire record: sizes in decimal human
/// form, the used share in whole percent.
pub open spec fn disk_matches(rd: RawDisk, d: Disk) -> bool {
    &&& d.device@ == rd.name@
    &&& d.fstype@ == rd.fstype@
    &&& d.total@ == human_size_decimal(rd.total)
    &&& d.used@ == human_size_decimal(
        if rd.avail <= rd.total {
            (rd.total - rd.avail) as u64
        } else {
            0u64
        },
    )
    &&& d.free@ == human_size_decimal(rd.avail)
    &&& d.percent == spec_disk_percent(rd.total, rd.avail)
}

/// Whether a disk is reported on this platform: the Windows family
/// reports all, the Unix family leaves out loop and device mounts.
pub open spec fn disk_kept(rd: RawDisk, platform: crate::cmd::Platform) -> bool {
    match platform {
        crate::cmd::Platform::Windows => true,
        crate::cmd::Platform::Unix => !crate::text::spec_contains(rd.name@, "dev/loop"@)
            && !crate::text::spec_contains(rd.name@, "devfs"@),
    }
}

/// The kept disks map in order to the output.
pub open spec fn disks_filter_rel(
    raw: Seq<RawDisk>,
    out: Seq<Disk>,
    platform: crate::cmd::Platform,
) -> bool
    decreases raw.len(),
{
    if raw.len() == 0 {
        out.len() == 0
    } else if !disk_kept(raw.last(), platform) {
        disks_filter_rel(raw.drop_last(), out, platform)
    } else {
        out.len() >= 1 && disk_matches(raw.last(), out.last()) && disks_filter_rel(
            raw.drop_last(),
            out.drop_last(),
            platform,
        )
    }
}

/// Every record the filter relation admits has a whole-percent share.
pub proof fn lemma_disks_percent_bounds(
    raw: Seq<RawDisk>,
    out: Seq<Disk>,
    platform: crate::cmd::Platform,
)
    requires
        disks_filter_rel(raw, out, platform),
    ensures
        forall|k: int| 0 <= k < out.len() ==> 0 <= (#[trigger] out[k]).percent <= 100,
    decreases raw.len(),
{
    if raw.len() == 0 {
    } else if !disk_kept(raw.last(), platform) {
        lemma_disks_percent_bounds(raw.drop_last(), out, platform);
    } else {
        lemma_disks_percent_bounds(raw.drop_last(), out.drop_last(), platform);
        let rd = raw.last();
        assert(out.last().percent == spec_disk_percent(rd.total, rd.avail));
        if !(rd.total == 0 || rd.avail > rd.total) {
            let used = rd.total - rd.avail;
            assert(used * 100 / (rd.total as int) <= 100) by (nonlinear_arith)
                requires
                    0 < rd.total,
                    0 <= used <= rd.total,
            ;
            assert(used * 100 >= 0) by (nonlinear_arith)
                requires
                    used >= 0,
            ;
        }
        assert forall|k: int| 0 <= k < out.len() implies 0 <= (#[trigger] out[k]).percent
            <= 100 by {
            if k < out.len() - 1 {
                assert(out[k] == out.drop_last()[k]);
            }
        }
    }
}

/// The wire records of a raw disk list.
pub fn disks_msg(raw: &Vec<RawDisk>, platform: crate::cmd::Platform) -> (r: Vec<Disk>)
    ensures
        disks_filter_rel(raw@, r@, platform),
{
    let mut out: Vec<Disk> = Vec::new();
    let mut i: usize = 0;
    while i < raw.len()
        invariant
            0 <= i <= raw@.len(),
            disks_filter_rel(raw@.take(i as int), out@, platform),
        decreases raw@.len() - i,
    {
        let rd = &raw[i];
        let ghost out0 = out@;
        let kept = match platform {
            crate::cmd::Platform::Windows => true,
            crate::cmd::Platform::Unix => {
                !crate::text::contains_sub(rd.name.as_str(), "dev/loop")
                    && !crate::text::contains_sub(rd.name.as_str(), "devfs")
            },
        };
        if kept {
            let used: u64 = if rd.avail <= rd.total {
                rd.total - rd.avail
            } else {
                0
            };
            let d = Disk {
                device: rd.name.clone(),
                fstype: rd.fstype.clone(),
                total: format_size_decimal(rd.total),
                used: format_size_decimal(used),
                free: format_size_decimal(rd.avail),
                percent: disk_percent(rd.total, rd.avail),
            };
            proof {
                assert(disk_matches(raw@[i as int], d));
            }
            out.push(d);
        }
        proof {
            assert(raw@.take(i + 1).drop_last() =~= raw@.take(i as int));
            assert(raw@.take(i + 1).last() == raw@[i as int]);
            assert(kept == disk_kept(raw@[i as int], platform));
            if kept {
                assert(out@.drop_last() =~= out0);
            }
            assert(disks_filter_rel(raw@.take(i + 1), out@, platform));
        }
        i = i + 1;
    }
    proof {
        assert(raw@.take(raw@.len() as int) =~= raw@);
    }
    out
}

/// How one raw process determines its wire record: missing user fields
/// become empty text.
pub open spec fn proc_matches(rp: RawProc, m: ProcessMsg) -> bool {
    &&& m.name@ == rp.name@
    &&& m.pid == rp.pid
    &&& m.membytes == rp.membytes
    &&& m.username@ == (match rp.username {
        Some(u) => u@,
        None => Seq::empty(),
    })
    &&& m.id@ == (match rp.uid {
        Some(u) => u@,
        None => Seq::empty(),
    })
    &&& m.cpu_percent@ == rp.cpu_percent@
}

/// Processes other than the idle process map in order to the output.
pub open spec fn procs_filter_rel(raw: Seq<RawProc>, out: Seq<ProcessMsg>) -> bool
    decreases raw.len(),
{
    if raw.len() == 0 {
        out.len() == 0
    } else if raw.last().pid == 0 {
        procs_filter_rel(raw.drop_last(), out)
    } else {
        out.len() >= 1 && proc_matches(raw.last(), out.last()) && procs_filter_rel(
            raw.drop_last(),
            out.drop_last(),
        )
    }
}

/// The wire records of a raw process list, the idle process left out.
pub fn procs_msg(raw: &Vec<RawProc>) -> (r: Vec<ProcessMsg>)
    ensures
        procs_filter_rel(raw@, r@),
        forall|k: int| 0 <= k < r@.len() ==> (#[trigger] r@[k]).pid != 0,
{
    let mut out: Vec<ProcessMsg> = Vec::new();
    let mut i: usize = 0;
    while i < raw.len()
        invariant
            0 <= i <= raw@.len(),
            procs_filter_rel(raw@.take(i as int), out@),
            forall|k: int| 0 <= k < out@.len() ==> (#[trigger] out@[k]).pid != 0,
        decreases raw@.len() - i,
    {
        let rp = &raw[i];
        let ghost out0 = out@;
        if rp.pid != 0 {
            let m = ProcessMsg {
                name: rp.name.clone(),
                pid: rp.pid,
                membytes: rp.membytes,
                username: match &rp.username {
                    Some(u) => u.clone(),
                    None => string_of(""),
                },
                id: match &rp.uid {
                    Some(u) => u.clone(),
                    None => string_of(""),
                },
                cpu_percent: rp.cpu_percent.clone(),
            };
            proof {
                reveal_strlit("");
                assert(""@ =~= Seq::<char>::empty());
                assert(proc_matches(raw@[i as int], m));
            }
            out.push(m);
        }
        proof {
            assert(raw@.take(i + 1).drop_last() =~= raw@.take(i as int));
            assert(raw@.take(i + 1).last() == raw@[i as int]);
            if raw@[i as int].pid != 0 {
                assert(out@.drop_last() =~= out0);
            }
            assert(procs_filter_rel(raw@.take(i + 1), out@));
        }
        i = i + 1;
    }
    proof {
        assert(raw@.take(raw@.len() as int) =~= raw@);
    }
    out
}

/// Whether the host needs a restart, from the probes the runner made:
/// a marker file, or any successful restart-probe run.
pub fn system_reboot_required(marker_present: bool, probe_successes: &Vec<bool>) -> (r: bool)
    ensures
        r == (marker_present || exists|i: int|
            0 <= i < probe_successes@.len() && #[trigger] probe_successes@[i]),
{
    if marker_present {
        return true;
    }
    let mut i: usize = 0;
    while i < probe_successes.len()
        invariant
            0 <= i <= probe_successes@.len(),
            forall|k: int| 0 <= k < i ==> !(#[trigger] probe_successes@[k]),
        decreases probe_successes@.len() - i,
    {
        if probe_successes[i] {
            return true;
        }
        i = i + 1;
    }
    false
}


/// The restart invocation per platform: the forced five-second restart
/// on the Windows family, the plain restart binary elsewhere, both
/// bounded by fifteen seconds.
pub fn reboot_command(platform: crate::cmd::Platform) -> (r: crate::cmd::CmdExe)
    ensures
        platform is Windows ==> r.exe@ == "shutdown.exe"@ && crate::codec::strs_view(r.args)
            =~= seq!["/r"@, "/t"@, "5"@, "/f"@],
        platform is Unix ==> r.exe@ == "reboot"@ && r.args@.len() == 0,
        !r.detached,
        r.timeout == (Dur { secs: 15u64, nanos: 0u32 }),
{
    match platform {
        crate::cmd::Platform::Windows => {
            let mut args: Vec<String> = Vec::new();
            args.push(string_of("/r"));
            args.push(string_of("/t"));
            args.push(string_of("5"));
            args.push(string_of("/f"));
            proof {
                assert(crate::codec::strs_view(args) =~= seq!["/r"@, "/t"@, "5"@, "/f"@]);
            }
            crate::cmd::CmdExe {
                exe: string_of("shutdown.exe"),
                args,
                detached: false,
                timeout: Dur { secs: 15, nanos: 0 },
            }
        },
        crate::cmd::Platform::Unix => crate::cmd::CmdExe {
            exe: string_of("reboot"),
            args: Vec::new(),
            detached: false,
            timeout: Dur { secs: 15, nanos: 0 },
        },
    }
}

/// The automatic-update registry value a patch-management request
/// writes: one to enable, zero to disable.
pub fn patch_mgmt_value(enable: bool) -> (r: u64)
    ensures
        r == (if enable {
            1u64
        } else {
            0u64
        }),
{
    if enable {
        1
    } else {
        0
    }
}

} // verus!
