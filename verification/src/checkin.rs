//! Check-in frames: the unsolicited snapshots the agent publishes on its
//! own subject, one frame per mode, the mode tag as the reply subject.
use vstd::prelude::*;

use crate::agent::Agent;
use crate::json::{spec_print, GJson, Json};
use crate::messages::{
    agent_info_fields, agent_info_gj, check_in_fields, check_in_gj, disk_vec_gj,
    public_ip_msg_fields, public_ip_msg_gj, win_disks_fields, win_disks_gj, win_service_fields,
    win_service_gj, win_service_vec_gj, win_svc_fields, win_svc_gj, win_wmi_fields, win_wmi_gj,
    AgentInfoNats, CheckInNats, Disk, PublicIPNats, WinDisksNats, WinSvcNats, WinWMINats,
    WindowsService, disk_fields, disk_gj,
};
use crate::mode::{spec_mode_str, AgentMode};

verus! {

broadcast use vstd::seq::group_seq_axioms;

/// One frame to publish: destination, reply subject, payload text.
#[derive(Debug, Clone)]
pub struct CheckinFrame {
    pub subject: String,
    pub reply: String,
    pub payload: String,
}

/// The host readings a snapshot may draw on; the runner gathers them
/// before the frame is built.
pub struct CheckinContext {
    /// The user at the console.
    pub username: String,
    /// Whether the host wants a restart.
    pub reboot_needed: bool,
    /// The `"<os> <arch> <kernel>"` text.
    pub os: String,
    pub total_ram: u64,
    pub boot_time: u64,
    /// The platform services; empty off the Windows family.
    pub services: Vec<WindowsService>,
    /// The inventory report tree; null where no collector runs.
    pub wmi: Json,
    pub disks: Vec<Disk>,
    pub public_ip: String,
}

/// What the payload of each mode's snapshot is, over the agent's
/// identity and the gathered readings.
pub open spec fn spec_checkin_payload(a: Agent, mode: AgentMode, ctx: CheckinContext) -> Seq<
    char,
> {
    match mode {
        AgentMode::Hello => spec_print(
            GJson::Obj(
                seq![
                    ("agent_id"@, GJson::Str(a.agent_id@)),
                    ("version"@, GJson::Str(a.version@)),
                ],
            ),
        ),
        AgentMode::WinSvc => spec_print(
            GJson::Obj(
                seq![
                    ("agent_id"@, GJson::Str(a.agent_id@)),
                    ("services"@, GJson::Arr(win_service_vec_gj(ctx.services))),
                ],
            ),
        ),
        AgentMode::AgentInfo => spec_print(
            GJson::Obj(
                seq![
                    ("agent_id"@, GJson::Str(a.agent_id@)),
                    ("logged_in_username"@, GJson::Str(ctx.username@)),
                    ("hostname"@, GJson::Str(a.host_name@)),
                    ("operating_system"@, GJson::Str(ctx.os@)),
                    ("plat"@, GJson::Str(a.plat@)),
                    ("total_ram"@, GJson::Num(crate::text::dec_digits(ctx.total_ram as nat))),
                    ("boot_time"@, GJson::Num(crate::text::dec_digits(ctx.boot_time as nat))),
                    ("needs_reboot"@, GJson::Bool(ctx.reboot_needed)),
                    ("arch"@, GJson::Str(a.arch@)),
                ],
            ),
        ),
        AgentMode::WMI => spec_print(
            GJson::Obj(
                seq![("agent_id"@, GJson::Str(a.agent_id@)), ("wmi"@, ctx.wmi@)],
            ),
        ),
        AgentMode::Disks => spec_print(
            GJson::Obj(
                seq![
                    ("agent_id"@, GJson::Str(a.agent_id@)),
                    ("disks"@, GJson::Arr(disk_vec_gj(ctx.disks))),
                ],
            ),
        ),
        AgentMode::PublicIp => spec_print(
            GJson::Obj(
                seq![
                    ("agent_id"@, GJson::Str(a.agent_id@)),
                    ("public_ip"@, GJson::Str(ctx.public_ip@)),
                ],
            ),
        ),
    }
}

impl Agent {
    /// The one frame a mode's check-in publishes: on the agent's own
    /// subject, with the mode tag as the reply subject, carrying that
    /// mode's snapshot.
    pub fn nats_message(&self, mode: AgentMode, ctx: &CheckinContext) -> (r: CheckinFrame)
        ensures
            r.subject@ == self.agent_id@,
            r.reply@ == spec_mode_str(mode),
            r.payload@ == spec_checkin_payload(*self, mode, *ctx),
    {
        let payload: String = match mode {
            AgentMode::Hello => {
                let m = CheckInNats {
                    agent_id: self.agent_id.clone(),
                    version: self.version.clone(),
                };
                let p = m.encode();
                proof {
                    assert(check_in_fields(m) =~= seq![
                        ("agent_id"@, GJson::Str(self.agent_id@)),
                        ("version"@, GJson::Str(self.version@)),
                    ]);
                }
                p
            },
            AgentMode::WinSvc => {
                let m = WinSvcNats {
                    agent_id: self.agent_id.clone(),
                    win_svcs: svc_clone(&ctx.services),
                };
                let p = m.encode();
                proof {
                    assert(win_svc_fields(m) =~= seq![
                        ("agent_id"@, GJson::Str(self.agent_id@)),
                        ("services"@, GJson::Arr(win_service_vec_gj(ctx.services))),
                    ]);
                }
                p
            },
            AgentMode::AgentInfo => {
                let m = AgentInfoNats {
                    agent_id: self.agent_id.clone(),
                    username: ctx.username.clone(),
                    hostname: self.host_name.clone(),
                    os: ctx.os.clone(),
                    plat: self.plat.clone(),
                    total_ram: ctx.total_ram,
                    boot_time: ctx.boot_time,
                    reboot_needed: ctx.reboot_needed,
                    arch: self.arch.clone(),
                };
                let p = m.encode();
                proof {
                    assert(agent_info_fields(m) =~= seq![
                        ("agent_id"@, GJson::Str(self.agent_id@)),
                        ("logged_in_username"@, GJson::Str(ctx.username@)),
                        ("hostname"@, GJson::Str(self.host_name@)),
                        ("operating_system"@, GJson::Str(ctx.os@)),
                        ("plat"@, GJson::Str(self.plat@)),
                        (
                            "total_ram"@,
                            GJson::Num(crate::text::dec_digits(ctx.total_ram as nat)),
                        ),
                        (
                            "boot_time"@,
                            GJson::Num(crate::text::dec_digits(ctx.boot_time as nat)),
                        ),
                        ("needs_reboot"@, GJson::Bool(ctx.reboot_needed)),
                        ("arch"@, GJson::Str(self.arch@)),
                    ]);
                }
                p
            },
            AgentMode::WMI => {
                let m = WinWMINats { agent_id: self.agent_id.clone(), wmi: ctx.wmi.deep_clone() };
                let p = m.encode();
                proof {
                    assert(win_wmi_fields(m) =~= seq![
                        ("agent_id"@, GJson::Str(self.agent_id@)),
                        ("wmi"@, ctx.wmi@),
                    ]);
                }
                p
            },
            AgentMode::Disks => {
                let m = WinDisksNats {
                    agent_id: self.agent_id.clone(),
                    disks: disks_clone(&ctx.disks),
                };
                let p = m.encode();
                proof {
                    assert(win_disks_fields(m) =~= seq![
                        ("agent_id"@, GJson::Str(self.agent_id@)),
                        ("disks"@, GJson::Arr(disk_vec_gj(ctx.disks))),
                    ]);
                }
                p
            },
            AgentMode::PublicIp => {
                let m = PublicIPNats {
                    agent_id: self.agent_id.clone(),
                    public_ip: ctx.public_ip.clone(),
                };
                let p = m.encode();
                proof {
                    assert(public_ip_msg_fields(m) =~= seq![
                        ("agent_id"@, GJson::Str(self.agent_id@)),
                        ("public_ip"@, GJson::Str(ctx.public_ip@)),
                    ]);
                }
                p
            },
        };
        CheckinFrame { subject: self.agent_id.clone(), reply: mode_string(mode), payload }
    }
}

fn mode_string(mode: AgentMode) -> (r: String)
    ensures
        r@ == spec_mode_str(mode),
{
    crate::text::string_of(mode.mode_str())
}

/// A copy of a service list denoting the same records.
fn svc_clone(v: &Vec<WindowsService>) -> (r: Vec<WindowsService>)
    ensures
        win_service_vec_gj(r) =~= win_service_vec_gj(*v),
{
    let mut out: Vec<WindowsService> = Vec::new();
    let mut i: usize = 0;
    while i < v.len()
        invariant
            0 <= i <= v@.len(),
            out@.len() == i,
            forall|k: int|
                0 <= k < i ==> win_service_gj(#[trigger] out@[k]) == win_service_gj(v@[k]),
        decreases v@.len() - i,
    {
        let w = WindowsService {
            name: v[i].name.clone(),
            status: v[i].status.clone(),
            display_name: v[i].display_name.clone(),
            bin_path: v[i].bin_path.clone(),
            description: v[i].description.clone(),
            username: v[i].username.clone(),
            pid: v[i].pid,
            start_type: v[i].start_type.clone(),
            delayed_auto_start: v[i].delayed_auto_start,
        };
        proof {
            assert(win_service_fields(w) =~= win_service_fields(v@[i as int]));
        }
        out.push(w);
        i = i + 1;
    }
    proof {
        assert(win_service_vec_gj(out) =~= win_service_vec_gj(*v));
    }
    out
}

/// A copy of a disk list denoting the same records.
fn disks_clone(v: &Vec<Disk>) -> (r: Vec<Disk>)
    ensures
        disk_vec_gj(r) =~= disk_vec_gj(*v),
{
    let mut out: Vec<Disk> = Vec::new();
    let mut i: usize = 0;
    while i < v.len()
        invariant
            0 <= i <= v@.len(),
            out@.len() == i,
            forall|k: int| 0 <= k < i ==> disk_gj(#[trigger] out@[k]) == disk_gj(v@[k]),
        decreases v@.len() - i,
    {
        let d = Disk {
            device: v[i].device.clone(),
            fstype: v[i].fstype.clone(),
            total: v[i].total.clone(),
            used: v[i].used.clone(),
            free: v[i].free.clone(),
            percent: v[i].percent,
        };
        proof {
            assert(disk_fields(d) =~= disk_fields(v@[i as int]));
        }
        out.push(d);
        i = i + 1;
    }
    proof {
        assert(disk_vec_gj(out) =~= disk_vec_gj(*v));
    }
    out
}

} // verus!
