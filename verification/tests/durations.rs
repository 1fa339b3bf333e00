//! The duration wire form against the reference implementation, the
//! mode-tag bijection, identity generation and temp-file naming.
use ironhive::dur::{fmt_dur, parse_dur};
use ironhive::{AgentMode, Dur, Error};
use ironhive::json::Json;
use std::time::Duration;

#[test]
fn duration_formatting_matches_the_reference() {
    for (secs, nanos) in [
        (0u64, 0u32),
        (15, 0),
        (1, 500_000_000),
        (90, 0),
        (86_400, 0),
        (31_557_600 + 2_630_016 + 86_400 + 3_661, 1_002_003),
    ] {
        let mine = fmt_dur(Dur { secs, nanos });
        let reference = humantime::format_duration(Duration::new(secs, nanos)).to_string();
        assert_eq!(mine, reference, "for {secs}s {nanos}ns");
    }
}

#[test]
fn duration_parsing_matches_the_reference() {
    for text in ["15s", "2s 500ms", "3ms", "1h 30m", "2days 4h", "10s", "1year 2months"] {
        let mine = parse_dur(text).unwrap();
        let reference = humantime::parse_duration(text).unwrap();
        assert_eq!(mine.secs, reference.as_secs(), "for {text}");
        assert_eq!(mine.nanos, reference.subsec_nanos(), "for {text}");
    }
    assert!(parse_dur("").is_none());
    assert!(parse_dur("fast").is_none());
    assert!(parse_dur("12").is_none());
}

#[test]
fn duration_round_trips_through_its_text() {
    for (secs, nanos) in [(0u64, 0u32), (15, 0), (2, 500_000_000), (3600, 1), (u64::MAX, 999_999_999)] {
        let d = Dur { secs, nanos };
        assert_eq!(parse_dur(&fmt_dur(d)), Some(d), "for {secs}s {nanos}ns");
    }
}

#[test]
fn mode_tags_are_a_bijection() {
    let mut seen = Vec::new();
    for mode in AgentMode::all() {
        let tag = mode.mode_str();
        assert_eq!(AgentMode::parse_mode(tag), Some(mode));
        assert!(!seen.contains(&tag));
        seen.push(tag);
    }
    assert_eq!(seen.len(), 6);
    assert_eq!(AgentMode::parse_mode("agent-wmi"), Some(AgentMode::WMI));
    assert_eq!(AgentMode::parse_mode("agent-hello"), Some(AgentMode::Hello));
    assert_eq!(AgentMode::parse_mode("agent-goodbye"), None);
}

#[test]
fn generated_identities_are_forty_letters() {
    let id = ironhive::config::generate_agent_id();
    assert_eq!(id.len(), 40);
    assert!(id.chars().all(|c| c.is_ascii_alphabetic()));
    let other = ironhive::config::generate_agent_id();
    assert_eq!(other.len(), 40);
}

#[test]
fn test_serialize_config() {
    let config = ironhive::IronhiveConfig {
        agent_id: ironhive::config::generate_agent_id(),
        ..Default::default()
    };
    assert_eq!(config.agent_id.len(), 40);
    assert!(config.addrs.is_empty());
    assert!(config.require_tls.is_none());
}

#[test]
fn temp_file_names_are_counter_unique() {
    let a = ironhive::TempFile::unique_name(0, ".py");
    let b = ironhive::TempFile::unique_name(1, ".py");
    assert_eq!(a, "ironhive-tmp-file-0.py");
    assert_eq!(b, "ironhive-tmp-file-1.py");
    assert_ne!(a, b);
    assert_eq!(ironhive::TempFile::unique_name(7, ""), "ironhive-tmp-file-7");
}

#[test]
fn error_texts_name_their_cause() {
    assert_eq!(Error::UnsupportedShell("bash".into()).err_text(), "unsupported shell: bash");
    assert_eq!(Error::IoError("broken".into()).err_text(), "io error: broken");
    assert_eq!(Error::Elapsed(Dur::from_secs(3)).err_text(), "timeout: 3s");
    assert_eq!(Error::NotFoundProcess(12).err_text(), "not found process: 12");
    assert_eq!(Error::NoReplySubject.err_text(), "No reply subject to reply to");
}

#[test]
fn size_texts_come_from_the_size_crate() {
    // The trusted size formatter must agree with its crate, not echo
    // its argument.
    assert_eq!(
        ironhive::agent::format_size_decimal(1_000_000),
        humansize::format_size(1_000_000u64, humansize::DECIMAL)
    );
    assert_ne!(ironhive::agent::format_size_decimal(1_000_000), "1000000");
    assert_eq!(
        ironhive::agent::format_size_windows(2048),
        humansize::format_size(2048u64, humansize::WINDOWS)
    );
}

#[test]
fn inventory_reports_lay_sections_out_in_order() {
    let names = ironhive::wmi::wmi_section_names();
    assert_eq!(names.len(), 13);
    assert_eq!(names[0], "comp_sys_prod");
    assert_eq!(names[12], "graphics");
    let mut report = ironhive::WMI::new();
    report.push_section("cpu", Json::Null);
    report.push_section("mem", Json::Arr(vec![]));
    match report.report() {
        Json::Obj(sections) => {
            assert_eq!(sections.len(), 2);
            assert_eq!(sections[0].0, "cpu");
            assert_eq!(sections[1].0, "mem");
        }
        other => panic!("report is not an object: {other:?}"),
    }
}

#[test]
fn install_needs_a_broker_address() {
    let bare = ironhive::Installer {
        nats_servers: vec![],
        exe_path: "/usr/bin/agent".into(),
        overwrite_config: false,
    };
    assert!(bare.build_config().is_err());
    let ok = ironhive::Installer {
        nats_servers: vec!["nats://127.0.0.1:4222".into()],
        exe_path: "/usr/bin/agent".into(),
        overwrite_config: false,
    };
    let config = ok.build_config().unwrap();
    assert_eq!(config.addrs.len(), 1);
    assert_eq!(config.agent_id.len(), 40);
    assert_eq!(config.exe_path, "/usr/bin/agent");
}

#[test]
fn fractional_durations_match_the_reference() {
    for text in ["4.2s", "0.5m", "1.5h", "2.25d", "1.5ms", "12.5us", "0.001s"] {
        let mine = parse_dur(text).unwrap();
        let reference = humantime::parse_duration(text).unwrap();
        assert_eq!(mine.secs, reference.as_secs(), "for {text}");
        assert_eq!(mine.nanos, reference.subsec_nanos(), "for {text}");
    }
    // The bare zero is the zero span, as the reference reads it.
    assert_eq!(parse_dur("0"), Some(Dur { secs: 0, nanos: 0 }));
    assert_eq!(humantime::parse_duration("0").unwrap(), Duration::ZERO);
    // Both readers refuse a dangling point, a fractional nanosecond
    // count, and an inexact fraction.
    for text in ["1.s", "1.", "0.5ns", "0.0000000001s"] {
        assert!(parse_dur(text).is_none(), "for {text}");
        assert!(humantime::parse_duration(text).is_err(), "for {text}");
    }
}

#[test]
fn reconnect_delays_stay_in_their_band() {
    let d = ironhive::config::reconnect_delay(2000, 1);
    assert_eq!((d.secs, d.nanos), (2, 0));
    let d = ironhive::config::reconnect_delay(3999, 2);
    assert_eq!((d.secs, d.nanos), (7, 998_000_000));
    for attempt in [0u64, 1, 2, 5] {
        let d = ironhive::config::reconnect_delay_draw(attempt);
        let millis = d.secs * 1000 + (d.nanos / 1_000_000) as u64;
        assert!(millis >= 2000 * attempt && millis < 4000 * attempt || attempt == 0 && millis == 0);
    }
}
