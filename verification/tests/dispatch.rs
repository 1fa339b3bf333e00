//! The dispatcher's reply discipline, command planning, host-probe
//! mappings and platform rules, on concrete values.
use ironhive::agent::{disks_msg, join_os_string, kill_decision, lexeme_or_zero, patch_mgmt_value, procs_msg, reboot_command, RawDisk, RawProc};
use ironhive::cmd::{CmdExe, CmdShell, Platform};
use ironhive::rpc::{raw_cmd_response, reply_plan, run_script_response, win_update_gate, ExecOutput, ReplyAction};
use ironhive::svc::{
    control_service, edit_service, format_install_date, get_service_detail, get_services,
    installed_software_list, service_start_type, service_status_text, RegSwEntry, SvcControl,
    SvcEdit, SvcRow,
};
use ironhive::{AgentMode, Dur, Error, NatsResp};

#[test]
fn reply_needs_a_subject() {
    // No reply subject: nothing is published, whatever the outcome.
    let out: Result<NatsResp, Error> = Ok(NatsResp::Pong);
    assert!(matches!(reply_plan(None, &out), ReplyAction::NoReply));
    let out: Result<NatsResp, Error> = Err(Error::NoReplySubject);
    assert!(matches!(reply_plan(None, &out), ReplyAction::NoReply));
}

#[test]
fn reply_publishes_exactly_one_frame() {
    let out: Result<NatsResp, Error> = Ok(NatsResp::Pong);
    match reply_plan(Some("r1".into()), &out) {
        ReplyAction::Publish { subject, payload } => {
            assert_eq!(subject, "r1");
            assert_eq!(payload, r#"{"resp":"pong"}"#);
        }
        other => panic!("expected a publish: {other:?}"),
    }
}

#[test]
fn failed_handler_publishes_error_headers() {
    let out: Result<NatsResp, Error> = Err(Error::UnsupportedShell("bash".into()));
    match reply_plan(Some("bash".into()), &out) {
        ReplyAction::PublishError { subject, error_text, error_code } => {
            assert_eq!(subject, "bash");
            assert!(error_text.contains("unsupported shell"));
            assert_eq!(error_code, 0);
        }
        other => panic!("expected an error frame: {other:?}"),
    }
}

#[test]
fn windows_refuses_unknown_shells() {
    let cmd = CmdShell {
        shell: "bash".into(),
        command: "echo hi".into(),
        detached: false,
        timeout: Dur::from_secs(2),
    };
    match cmd.plan(Platform::Windows) {
        Err(Error::UnsupportedShell(s)) => assert_eq!(s, "bash"),
        other => panic!("expected an unsupported shell: {other:?}"),
    }
    // The same shell is fine on the Unix family.
    let plan = cmd.plan(Platform::Unix).unwrap();
    assert_eq!(plan.program, "bash");
    assert_eq!(plan.args, vec!["-c".to_string(), "echo hi".to_string()]);
}

#[test]
fn windows_cmd_keeps_the_raw_tail() {
    let cmd = CmdShell {
        shell: "cmd".into(),
        command: "echo \"a b\"".into(),
        detached: false,
        timeout: Dur::from_secs(2),
    };
    let plan = cmd.plan(Platform::Windows).unwrap();
    assert_eq!(plan.program, "cmd");
    assert_eq!(plan.args, vec!["/C".to_string()]);
    assert_eq!(plan.raw_tail.as_deref(), Some("echo \"a b\""));
}

#[test]
fn exe_plan_is_verbatim() {
    let exe = CmdExe {
        exe: "shutdown.exe".into(),
        args: vec!["/r".into(), "/t".into(), "5".into(), "/f".into()],
        detached: false,
        timeout: Dur::from_secs(15),
    };
    let plan = exe.plan();
    assert_eq!(plan.program, "shutdown.exe");
    assert_eq!(plan.args.len(), 4);
}

#[test]
fn retcode_is_exit_code_or_eighty_five() {
    let out = ExecOutput { stdout: "o".into(), stderr: "e".into(), code: Some(3) };
    match run_script_response(&out, 7, Dur::from_secs(1)) {
        NatsResp::RunScriptResp { retcode, id, .. } => {
            assert_eq!(retcode, 3);
            assert_eq!(id, 7);
        }
        other => panic!("wrong variant: {other:?}"),
    }
    let out = ExecOutput { stdout: "o".into(), stderr: "e".into(), code: None };
    match run_script_response(&out, 7, Dur::from_secs(1)) {
        NatsResp::RunScriptResp { retcode, .. } => assert_eq!(retcode, 85),
        other => panic!("wrong variant: {other:?}"),
    }
}

#[test]
fn raw_cmd_prefers_the_error_stream() {
    let out = ExecOutput { stdout: "good".into(), stderr: "".into(), code: Some(0) };
    match raw_cmd_response(&out) {
        NatsResp::RawCMDResp { results } => assert_eq!(results, "good"),
        other => panic!("wrong variant: {other:?}"),
    }
    let out = ExecOutput { stdout: "good".into(), stderr: "bad".into(), code: Some(1) };
    match raw_cmd_response(&out) {
        NatsResp::RawCMDResp { results } => assert_eq!(results, "bad"),
        other => panic!("wrong variant: {other:?}"),
    }
}

#[test]
fn update_operations_are_mutually_exclusive() {
    assert!(win_update_gate(true).is_ok());
    match win_update_gate(false) {
        Err(Error::ContendedUpdateOp) => {}
        other => panic!("expected contention: {other:?}"),
    }
    assert!(Error::ContendedUpdateOp
        .err_text()
        .contains("Already installing or checking for windows updates"));
}

#[test]
fn kill_of_the_idle_process_is_not_found() {
    let agent = ironhive::Agent::with_servers(
        "agent-under-test".into(),
        "0.1.0".into(),
        vec![],
        "linux".into(),
        "x86_64".into(),
    );
    match agent.kill_proc(0) {
        Err(Error::NotFoundProcess(0)) => {}
        other => panic!("expected not-found for the idle process: {other:?}"),
    }
}

#[test]
fn procs_mapping_excludes_the_idle_process() {
    let raw = vec![
        RawProc {
            pid: 0,
            name: "idle".into(),
            membytes: 0,
            uid: None,
            username: None,
            cpu_percent: "0.0%".into(),
        },
        RawProc {
            pid: 42,
            name: "worker".into(),
            membytes: 1024,
            uid: Some("1000".into()),
            username: Some("user".into()),
            cpu_percent: "1.5%".into(),
        },
    ];
    let msgs = procs_msg(&raw);
    assert_eq!(msgs.len(), 1);
    assert_eq!(msgs[0].pid, 42);
    assert_eq!(msgs[0].name, "worker");
    assert_eq!(msgs[0].username, "user");
    assert_eq!(msgs[0].id, "1000");
    assert_eq!(msgs[0].cpu_percent, "1.5%");
}

#[test]
fn disks_mapping_filters_unix_loop_mounts() {
    let raw = vec![
        RawDisk { name: "/dev/loop3".into(), fstype: "squashfs".into(), total: 100, avail: 0 },
        RawDisk { name: "/dev/sda1".into(), fstype: "ext4".into(), total: 1000, avail: 250 },
    ];
    let unix = disks_msg(&raw, Platform::Unix);
    assert_eq!(unix.len(), 1);
    assert_eq!(unix[0].device, "/dev/sda1");
    assert_eq!(unix[0].percent, 75);
    assert_eq!(unix[0].total, humansize::format_size(1000u64, humansize::DECIMAL));
    let windows = disks_msg(&raw, Platform::Windows);
    assert_eq!(windows.len(), 2);
}

#[test]
fn service_texts_follow_the_tables() {
    assert_eq!(service_status_text(1), "stopped");
    assert_eq!(service_status_text(4), "running");
    assert_eq!(service_status_text(9), "unknown");
    assert_eq!(service_start_type(0), "Boot");
    assert_eq!(service_start_type(2), "Automatic");
    assert_eq!(service_start_type(4), "Disabled");
    assert_eq!(service_start_type(77), "unknown");
}

fn sample_rows() -> Vec<SvcRow> {
    vec![SvcRow {
        name: "spooler".into(),
        display_name: "Print Spooler".into(),
        bin_path: "C:/spool.exe".into(),
        description: "queues".into(),
        username: "LocalSystem".into(),
        state: 4,
        pid: 880,
        start_type: 2,
        delayed_auto_start: false,
    }]
}

#[test]
fn test_get_service() {
    let service = get_services(&sample_rows());
    assert!(service.is_ok());
    let list = service.unwrap();
    assert_eq!(list.len(), 1);
    assert_eq!(list[0].name, "spooler");
    assert_eq!(list[0].status, "running");
    assert_eq!(list[0].start_type, "Automatic");
}

#[test]
fn service_detail_reports_misses() {
    let rows = sample_rows();
    let found = get_service_detail(&rows, "spooler").unwrap();
    assert_eq!(found.pid, 880);
    match get_service_detail(&rows, "absent") {
        Err(Error::WindowsError(msg)) => assert!(msg.contains("absent")),
        other => panic!("expected a miss: {other:?}"),
    }
}

#[test]
fn edit_and_control_follow_the_action_tables() {
    assert_eq!(
        edit_service("auto").unwrap(),
        SvcEdit { start_type: 2, set_delayed_auto_start: Some(false) }
    );
    assert_eq!(
        edit_service("autodelay").unwrap(),
        SvcEdit { start_type: 2, set_delayed_auto_start: Some(true) }
    );
    assert_eq!(edit_service("manual").unwrap(), SvcEdit { start_type: 3, set_delayed_auto_start: None });
    assert_eq!(edit_service("disabled").unwrap(), SvcEdit { start_type: 4, set_delayed_auto_start: None });
    assert!(edit_service("sometimes").is_err());
    assert_eq!(control_service("start").unwrap(), SvcControl::Start);
    assert_eq!(
        control_service("stop").unwrap(),
        SvcControl::Stop { poll_millis: 500, timeout_secs: 30 }
    );
    assert!(control_service("restart").is_err());
}

#[test]
fn test_installed_software_list() {
    let entries = vec![
        RegSwEntry {
            display_name: Some("Software1".into()),
            version: Some("1.0".into()),
            publisher: Some("Publisher1".into()),
            install_date: Some("20220101".into()),
            size_kib: Some(100),
            source: Some("Source1".into()),
            location: Some("Location1".into()),
            uninstall: Some("Uninstall1".into()),
        },
        RegSwEntry {
            display_name: None,
            version: Some("9".into()),
            publisher: None,
            install_date: None,
            size_kib: None,
            source: None,
            location: None,
            uninstall: None,
        },
    ];
    let res = installed_software_list(&entries);
    println!("{res:?}");
    assert!(res.is_ok());
    let list = res.unwrap();
    assert_eq!(list.len(), 1);
    assert_eq!(list[0].name, "Software1");
    assert_eq!(list[0].install_date, "2022-01-01");
    assert_eq!(list[0].size, humansize::format_size(100u64 * 1024, humansize::WINDOWS));
}

#[test]
fn install_dates_are_validated() {
    assert_eq!(format_install_date("20220101"), "2022-01-01");
    assert_eq!(format_install_date("20200229"), "2020-02-29");
    assert_eq!(format_install_date("20210229"), "");
    assert_eq!(format_install_date("20221301"), "");
    assert_eq!(format_install_date("2022010"), "");
    assert_eq!(format_install_date("2022010a"), "");
}

#[test]
fn test_updates() {
    assert!(ironhive::wua::get_win_updates(None).is_ok());
    assert_eq!(ironhive::wua::get_win_updates(None).unwrap().len(), 0);
    assert_eq!(
        ironhive::wua::wua_search_query(),
        "IsInstalled=1 or IsInstalled=0 and Type='Software' and IsHidden=0"
    );
    assert_eq!(ironhive::wua::update_search_query("abc-123"), "UpdateID=abc-123");
}

#[test]
fn checkin_frames_reply_with_the_mode_tag() {
    let agent = ironhive::Agent::with_servers(
        "agent42".into(),
        "0.1.0".into(),
        vec![],
        "linux".into(),
        "x86_64".into(),
    );
    let ctx = ironhive::CheckinContext {
        username: "user".into(),
        reboot_needed: false,
        os: "linux x86_64 6.0".into(),
        total_ram: 8,
        boot_time: 1633947600,
        services: vec![],
        wmi: ironhive::json::Json::Null,
        disks: vec![],
        public_ip: "1.2.3.4".into(),
    };
    let frame = agent.nats_message(AgentMode::Hello, &ctx);
    assert_eq!(frame.subject, "agent42");
    assert_eq!(frame.reply, "agent-hello");
    assert_eq!(frame.payload, r#"{"agent_id":"agent42","version":"0.1.0"}"#);
    let frame = agent.nats_message(AgentMode::WMI, &ctx);
    assert_eq!(frame.reply, "agent-wmi");
    assert_eq!(frame.payload, r#"{"agent_id":"agent42","wmi":null}"#);
}

#[test]
fn sysinfo_request_walks_four_modes() {
    let modes = ironhive::rpc::sysinfo_modes();
    assert_eq!(
        modes,
        [AgentMode::AgentInfo, AgentMode::Disks, AgentMode::WMI, AgentMode::PublicIp]
    );
}

#[test]
fn test_agent() {
    let agent = ironhive::Agent::with_servers(
        "agent_id".into(),
        "version".into(),
        vec!["nats_server".into()],
        "linux".into(),
        "x86_64".into(),
    );
    println!("{}", agent.get_cpu_usage());
    println!("{:?}", agent.get_load_avg());
    println!("{:?}", agent.get_disks(Platform::Unix));
    println!("{}", ironhive::agent::logged_on_user());
    println!("{}", agent.os_string());
    println!("{:?}", agent.get_procs_rpc());
}

#[test]
fn kill_verdict_follows_the_probe_outcomes() {
    assert!(matches!(kill_decision(0, true, true), Err(Error::NotFoundProcess(0))));
    assert!(matches!(kill_decision(7, false, false), Err(Error::NotFoundProcess(7))));
    assert!(matches!(kill_decision(7, true, false), Err(Error::KillProcessFailed(7))));
    assert!(kill_decision(7, true, true).is_ok());
}

#[test]
fn lexeme_guard_passes_numbers_and_substitutes_zero() {
    assert_eq!(lexeme_or_zero("12.5".to_string()), "12.5");
    assert_eq!(lexeme_or_zero("0".to_string()), "0");
    assert_eq!(lexeme_or_zero("NaN".to_string()), "0");
    assert_eq!(lexeme_or_zero("".to_string()), "0");
}

#[test]
fn os_text_joins_the_readings_with_spaces() {
    assert_eq!(
        join_os_string("Ubuntu 24.04", "x86_64", "6.8.0"),
        "Ubuntu 24.04 x86_64 6.8.0"
    );
    let agent = ironhive::Agent::with_servers(
        "a".into(),
        "v".into(),
        vec![],
        "linux".into(),
        "x86_64".into(),
    );
    let text = agent.os_string();
    assert!(text.contains(" x86_64 "));
}

#[test]
fn reboot_plans_follow_the_platform() {
    let win = reboot_command(Platform::Windows);
    assert_eq!(win.exe, "shutdown.exe");
    assert_eq!(win.args, vec!["/r".to_string(), "/t".into(), "5".into(), "/f".into()]);
    assert_eq!(win.timeout, Dur::from_secs(15));
    let unix = reboot_command(Platform::Unix);
    assert_eq!(unix.exe, "reboot");
    assert!(unix.args.is_empty());
}

#[test]
fn patch_management_values_are_one_and_zero() {
    assert_eq!(patch_mgmt_value(true), 1);
    assert_eq!(patch_mgmt_value(false), 0);
}

#[test]
fn init_sets_nothing_implicitly() {
    let c = ironhive::IronhiveConfig::init(vec!["nats://localhost:4222".into()], "id".into());
    assert_eq!(c.addrs, vec!["nats://localhost:4222".to_string()]);
    assert_eq!(c.agent_id, "id");
    assert!(c.exe_path.is_empty());
    assert!(c.pass.is_none());
    assert!(c.token.is_none());
    assert!(c.nkey.is_none());
    assert!(c.credentials_file.is_none());
    assert!(c.root_certificates.is_none());
    assert!(c.client_certificate_cert.is_none());
    assert!(c.client_certificate_key.is_none());
    assert!(c.require_tls.is_none());
    assert!(c.ping_interval.is_none());
    assert!(c.no_echo.is_none());
    assert!(c.subscription_capacity.is_none());
    assert!(c.connection_timeout.is_none());
    assert!(c.client_capacity.is_none());
    assert!(c.ignore_discovered_servers.is_none());
    assert!(c.retain_servers_order.is_none());
    assert!(c.read_buffer_capacity.is_none());
}
