//! Wire-codec behavior: the snapshot records decode from their JSON
//! texts, responses encode to theirs, and encode-then-decode returns
//! every field unchanged.
use ironhive::json::Json;
use ironhive::{
    AgentInfoNats, CheckInNats, Disk, IronhiveRequest, NatsResp, ProcessMsg, PublicIPNats,
    WinDisksNats, WinSoftwareList, WinSoftwareNats, WinSvcNats, WinWMINats,
};

#[test]
fn test_check_in_nats_deserialization() {
    let json = r#"{
            "agent_id": "agent123",
            "version": "1.0"
        }"#;

    let deserialized: CheckInNats = CheckInNats::decode(json).unwrap();

    assert_eq!(deserialized.agent_id, "agent123");
    assert_eq!(deserialized.version, "1.0");
}

#[test]
fn test_agent_info_nats_deserialization() {
    let json = r#"{
            "agent_id": "agent123",
            "logged_in_username": "user123",
            "hostname": "localhost",
            "operating_system": "Windows",
            "plat": "x86_64",
            "total_ram": 8,
            "boot_time": 1633947600,
            "needs_reboot": false,
            "arch": "x86_64"
        }"#;

    let deserialized: AgentInfoNats = AgentInfoNats::decode(json).unwrap();

    assert_eq!(deserialized.agent_id, "agent123");
    assert_eq!(deserialized.username, "user123");
    assert_eq!(deserialized.hostname, "localhost");
    assert_eq!(deserialized.os, "Windows");
    assert_eq!(deserialized.plat, "x86_64");
    assert_eq!(deserialized.total_ram, 8);
    assert_eq!(deserialized.boot_time, 1633947600);
    assert_eq!(deserialized.reboot_needed, false);
    assert_eq!(deserialized.arch, "x86_64");
}

#[test]
fn test_win_svc_nats_deserialization() {
    let json = r#"{
            "agent_id": "agent123",
            "services": [
                {
                    "name": "Service1",
                    "status": "Running",
                    "display_name": "Display Name 1",
                    "binpath": "Bin Path 1",
                    "description": "Description 1",
                    "username": "User1",
                    "pid": 1234,
                    "start_type": "Automatic",
                    "autodelay": true
                },
                {
                    "name": "Service2",
                    "status": "Stopped",
                    "display_name": "Display Name 2",
                    "binpath": "Bin Path 2",
                    "description": "Description 2",
                    "username": "User2",
                    "pid": 5678,
                    "start_type": "Manual",
                    "autodelay": false
                }
            ]
        }"#;

    let deserialized: WinSvcNats = WinSvcNats::decode(json).unwrap();

    assert_eq!(deserialized.agent_id, "agent123");
    assert_eq!(deserialized.win_svcs.len(), 2);

    let service1 = &deserialized.win_svcs[0];
    assert_eq!(service1.name, "Service1");
    assert_eq!(service1.status, "Running");
    assert_eq!(service1.display_name, "Display Name 1");
    assert_eq!(service1.bin_path, "Bin Path 1");
    assert_eq!(service1.description, "Description 1");
    assert_eq!(service1.username, "User1");
    assert_eq!(service1.pid, 1234);
    assert_eq!(service1.start_type, "Automatic");
    assert_eq!(service1.delayed_auto_start, true);

    let service2 = &deserialized.win_svcs[1];
    assert_eq!(service2.name, "Service2");
    assert_eq!(service2.status, "Stopped");
    assert_eq!(service2.display_name, "Display Name 2");
    assert_eq!(service2.bin_path, "Bin Path 2");
    assert_eq!(service2.description, "Description 2");
    assert_eq!(service2.username, "User2");
    assert_eq!(service2.pid, 5678);
    assert_eq!(service2.start_type, "Manual");
    assert_eq!(service2.delayed_auto_start, false);
}

#[test]
fn test_win_wmi_nats_deserialization() {
    let json = r#"{
            "agent_id": "agent123",
            "wmi": {
                "property1": "value1",
                "property2": "value2"
            }
        }"#;

    let deserialized: WinWMINats = WinWMINats::decode(json).unwrap();

    assert_eq!(deserialized.agent_id, "agent123");
    match &deserialized.wmi {
        Json::Obj(members) => {
            assert_eq!(members.len(), 2);
            assert_eq!(members[0].0, "property1");
            assert!(matches!(&members[0].1, Json::Str(v) if v == "value1"));
            assert_eq!(members[1].0, "property2");
            assert!(matches!(&members[1].1, Json::Str(v) if v == "value2"));
        }
        other => panic!("wmi member is not an object: {other:?}"),
    }
}

#[test]
fn test_win_disks_nats_deserialization() {
    let json = r#"{
            "agent_id": "agent123",
            "disks": [
                {
                    "device": "/dev/sda",
                    "fstype": "ext4",
                    "total": "100GB",
                    "used": "50GB",
                    "free": "50GB",
                    "percent": 50
                },
                {
                    "device": "/dev/sdb",
                    "fstype": "ntfs",
                    "total": "200GB",
                    "used": "100GB",
                    "free": "100GB",
                    "percent": 50
                }
            ]
        }"#;

    let deserialized: WinDisksNats = WinDisksNats::decode(json).unwrap();

    assert_eq!(deserialized.agent_id, "agent123");
    assert_eq!(deserialized.disks.len(), 2);

    let disk1 = &deserialized.disks[0];
    assert_eq!(disk1.device, "/dev/sda");
    assert_eq!(disk1.fstype, "ext4");
    assert_eq!(disk1.total, "100GB");
    assert_eq!(disk1.used, "50GB");
    assert_eq!(disk1.free, "50GB");
    assert_eq!(disk1.percent, 50);

    let disk2 = &deserialized.disks[1];
    assert_eq!(disk2.device, "/dev/sdb");
    assert_eq!(disk2.fstype, "ntfs");
    assert_eq!(disk2.total, "200GB");
    assert_eq!(disk2.used, "100GB");
    assert_eq!(disk2.free, "100GB");
    assert_eq!(disk2.percent, 50);
}

#[test]
fn test_public_ip_nats_deserialization() {
    let json = r#"{
            "agent_id": "agent123",
            "public_ip": "192.168.0.1"
        }"#;

    let deserialized: PublicIPNats = PublicIPNats::decode(json).unwrap();

    assert_eq!(deserialized.agent_id, "agent123");
    assert_eq!(deserialized.public_ip, "192.168.0.1");
}

#[test]
fn test_win_software_list_deserialization() {
    let json = r#"{
            "name": "Software1",
            "version": "1.0",
            "publisher": "Publisher1",
            "install_date": "2022-01-01",
            "size": "100MB",
            "source": "Source1",
            "location": "Location1",
            "uninstall": "Uninstall1"
        }"#;

    let deserialized: WinSoftwareList = WinSoftwareList::decode(json).unwrap();

    assert_eq!(deserialized.name, "Software1");
    assert_eq!(deserialized.version, "1.0");
    assert_eq!(deserialized.publisher, "Publisher1");
    assert_eq!(deserialized.install_date, "2022-01-01");
    assert_eq!(deserialized.size, "100MB");
    assert_eq!(deserialized.source, "Source1");
    assert_eq!(deserialized.location, "Location1");
    assert_eq!(deserialized.uninstall, "Uninstall1");
}

#[test]
fn test_win_software_nats_deserialization() {
    let json = r#"{
            "agent_id": "agent123",
            "software": [
                {
                    "name": "Software1",
                    "version": "1.0",
                    "publisher": "Publisher1",
                    "install_date": "2022-01-01",
                    "size": "100MB",
                    "source": "Source1",
                    "location": "Location1",
                    "uninstall": "Uninstall1"
                },
                {
                    "name": "Software2",
                    "version": "2.0",
                    "publisher": "Publisher2",
                    "install_date": "2022-02-01",
                    "size": "200MB",
                    "source": "Source2",
                    "location": "Location2",
                    "uninstall": "Uninstall2"
                }
            ]
        }"#;

    let deserialized: WinSoftwareNats = WinSoftwareNats::decode(json).unwrap();

    assert_eq!(deserialized.agent_id, "agent123");
    assert_eq!(deserialized.software.len(), 2);

    let software1 = &deserialized.software[0];
    assert_eq!(software1.name, "Software1");
    assert_eq!(software1.version, "1.0");
    assert_eq!(software1.publisher, "Publisher1");
    assert_eq!(software1.install_date, "2022-01-01");
    assert_eq!(software1.size, "100MB");
    assert_eq!(software1.source, "Source1");
    assert_eq!(software1.location, "Location1");
    assert_eq!(software1.uninstall, "Uninstall1");

    let software2 = &deserialized.software[1];
    assert_eq!(software2.name, "Software2");
    assert_eq!(software2.version, "2.0");
    assert_eq!(software2.publisher, "Publisher2");
    assert_eq!(software2.install_date, "2022-02-01");
    assert_eq!(software2.size, "200MB");
    assert_eq!(software2.source, "Source2");
    assert_eq!(software2.location, "Location2");
    assert_eq!(software2.uninstall, "Uninstall2");
}

#[test]
fn test_serialize_nats_resp() {
    let resp = NatsResp::Pong;
    println!("{}", resp.encode());
    let process_msg = NatsResp::ProcessMsg {
        msgs: vec![
            ProcessMsg {
                name: "cupnfish".into(),
                pid: 1023,
                membytes: 12345743,
                username: "Cupnfish".into(),
                id: "76".into(),
                cpu_percent: "7%".into(),
            },
            ProcessMsg {
                name: "cupnfish1".into(),
                pid: 1023,
                membytes: 12345743,
                username: "Cupnfish".into(),
                id: "76".into(),
                cpu_percent: "27%".into(),
            },
        ],
    };
    println!("{}", process_msg.encode());
}

#[test]
fn encode_agrees_with_reference_parser() {
    // The canonical encoder's output must be JSON that a mainstream
    // parser reads back with the same members.
    let resp = NatsResp::RawCMDResp { results: "hello \"quoted\"\npath\\x".into() };
    let text = resp.encode();
    let v: serde_json::Value = serde_json::from_str(&text).unwrap();
    assert_eq!(v["resp"], serde_json::Value::String("rawcmdresp".into()));
    assert_eq!(
        v["results"],
        serde_json::Value::String("hello \"quoted\"\npath\\x".into())
    );
}

#[test]
fn request_round_trip_is_identity() {
    let req = IronhiveRequest::RawCmd {
        shell: "bash".into(),
        command: "echo \"hi\"".into(),
        timeout: ironhive::Dur { secs: 2, nanos: 0 },
    };
    let text = req.encode();
    match IronhiveRequest::decode(&text).unwrap() {
        IronhiveRequest::RawCmd { shell, command, timeout } => {
            assert_eq!(shell, "bash");
            assert_eq!(command, "echo \"hi\"");
            assert_eq!(timeout, ironhive::Dur { secs: 2, nanos: 0 });
        }
        other => panic!("wrong variant: {other:?}"),
    }

    let req = IronhiveRequest::RunScript {
        code: "print(\"hi from ironhive!\")".into(),
        mode: ironhive::ScriptMode::Binary { path: "python3".into(), ext: ".py".into() },
        script_args: vec!["a".into(), "b".into()],
        timeout: ironhive::Dur { secs: 3, nanos: 0 },
        env_vars: vec![("K".into(), "V".into())],
        id: 1,
    };
    let text = req.encode();
    match IronhiveRequest::decode(&text).unwrap() {
        IronhiveRequest::RunScript { code, mode, script_args, timeout, env_vars, id } => {
            assert_eq!(code, "print(\"hi from ironhive!\")");
            match mode {
                ironhive::ScriptMode::Binary { path, ext } => {
                    assert_eq!(path, "python3");
                    assert_eq!(ext, ".py");
                }
                other => panic!("wrong mode: {other:?}"),
            }
            assert_eq!(script_args, vec!["a".to_string(), "b".to_string()]);
            assert_eq!(timeout, ironhive::Dur { secs: 3, nanos: 0 });
            assert_eq!(env_vars, vec![("K".to_string(), "V".to_string())]);
            assert_eq!(id, 1);
        }
        other => panic!("wrong variant: {other:?}"),
    }
}

#[test]
fn response_round_trip_is_identity() {
    let resp = NatsResp::RunScriptResp {
        stdout: "out".into(),
        stderr: "err".into(),
        retcode: -7,
        execution_time: ironhive::Dur { secs: 1, nanos: 500_000_000 },
        id: 42,
    };
    let text = resp.encode();
    match NatsResp::decode(&text).unwrap() {
        NatsResp::RunScriptResp { stdout, stderr, retcode, execution_time, id } => {
            assert_eq!(stdout, "out");
            assert_eq!(stderr, "err");
            assert_eq!(retcode, -7);
            assert_eq!(execution_time, ironhive::Dur { secs: 1, nanos: 500_000_000 });
            assert_eq!(id, 42);
        }
        other => panic!("wrong variant: {other:?}"),
    }

    let resp = NatsResp::CpuLoadAvg { one: "0.53".into(), five: "1.25".into(), fifteen: "0".into() };
    let text = resp.encode();
    let v: serde_json::Value = serde_json::from_str(&text).unwrap();
    assert!(v["one"].is_number());
    match NatsResp::decode(&text).unwrap() {
        NatsResp::CpuLoadAvg { one, five, fifteen } => {
            assert_eq!(one, "0.53");
            assert_eq!(five, "1.25");
            assert_eq!(fifteen, "0");
        }
        other => panic!("wrong variant: {other:?}"),
    }
}

#[test]
fn decode_tolerates_member_order_and_unknown_members() {
    let text = r#"{"timeout":"2s","command":"echo hi","func":"rawcmd","shell":"bash","run_as_user":false}"#;
    match IronhiveRequest::decode(text).unwrap() {
        IronhiveRequest::RawCmd { shell, command, timeout } => {
            assert_eq!(shell, "bash");
            assert_eq!(command, "echo hi");
            assert_eq!(timeout, ironhive::Dur { secs: 2, nanos: 0 });
        }
        other => panic!("wrong variant: {other:?}"),
    }
}

#[test]
fn decode_applies_defaults() {
    let text = r#"{"func":"runscript","code":"x","id":9}"#;
    match IronhiveRequest::decode(text).unwrap() {
        IronhiveRequest::RunScript { code, mode, script_args, timeout, env_vars, id } => {
            assert_eq!(code, "x");
            assert!(matches!(mode, ironhive::ScriptMode::Directly));
            assert!(script_args.is_empty());
            assert_eq!(timeout, ironhive::Dur { secs: 15, nanos: 0 });
            assert!(env_vars.is_empty());
            assert_eq!(id, 9);
        }
        other => panic!("wrong variant: {other:?}"),
    }
}

#[test]
fn decode_of_unknown_function_is_dropped() {
    assert!(IronhiveRequest::decode(r#"{"func": "unknown"}"#).is_none());
    assert!(IronhiveRequest::decode(r#"{"other": 1}"#).is_none());
    assert!(IronhiveRequest::decode("not json at all").is_none());
}

#[test]
fn checkin_request_carries_its_mode() {
    let text = r#"{"func":"checkin","mode":"agent-hello"}"#;
    match IronhiveRequest::decode(text).unwrap() {
        IronhiveRequest::Checkin { mode } => assert_eq!(mode, ironhive::AgentMode::Hello),
        other => panic!("wrong variant: {other:?}"),
    }
    assert!(IronhiveRequest::decode(r#"{"func":"checkin","mode":"nonsense"}"#).is_none());
}

#[test]
fn string_escapes_round_trip() {
    let tricky = "tab\t newline\n quote\" backslash\\ control\u{1} unicode\u{263A}";
    let resp = NatsResp::PublicIp { ip: tricky.into() };
    let text = resp.encode();
    let v: serde_json::Value = serde_json::from_str(&text).unwrap();
    assert_eq!(v["ip"], serde_json::Value::String(tricky.into()));
    match NatsResp::decode(&text).unwrap() {
        NatsResp::PublicIp { ip } => assert_eq!(ip, tricky),
        other => panic!("wrong variant: {other:?}"),
    }
}

#[test]
fn disk_message_round_trip() {
    let msg = WinDisksNats {
        agent_id: "a".into(),
        disks: vec![Disk {
            device: "/dev/sda".into(),
            fstype: "ext4".into(),
            total: "100 GB".into(),
            used: "50 GB".into(),
            free: "50 GB".into(),
            percent: 50,
        }],
    };
    let text = msg.encode();
    let back = WinDisksNats::decode(&text).unwrap();
    assert_eq!(back.agent_id, "a");
    assert_eq!(back.disks.len(), 1);
    assert_eq!(back.disks[0].device, "/dev/sda");
    assert_eq!(back.disks[0].percent, 50);
}
