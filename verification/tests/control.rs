//! Starting and stopping the service, and what else the program does by itself.

use wf::backup::{backup_report, backup_snapshot, snapshot_args};
use wf::clock::{chrono_now, utc_offset};
use wf::command::Ran;
use wf::service::{is_pid, start, stop, stop_targets, Event, Process, Starting, Stopping};
use wf::watch::{is_source, latest_source_mtime, Watch};

fn said(s: Starting) -> String {
    match s {
        Starting::Done(m) => m,
        other => panic!("not over: {other:?}"),
    }
}

fn ended(s: Stopping) -> String {
    match s {
        Stopping::Done(m) => m,
        other => panic!("not over: {other:?}"),
    }
}

#[test]
fn starts_and_waits() {
    let s = start(Starting::Probe, &Event::Health(false));
    let s = start(s, &Event::Program(true));
    let s = start(s, &Event::Launched(None));
    let s = start(s, &Event::Health(false));
    assert!(matches!(s, Starting::Wait(1)));
    let s = start(s, &Event::Health(true));
    let s = start(s, &Event::Version(Some("0.8.4".into())));
    assert_eq!(
        said(s),
        "started — listening on http://127.0.0.1:8888 (v0.8.4); log: /tmp/hindsight-api.log"
    );
}

#[test]
fn starts_without_version() {
    assert_eq!(
        said(start(Starting::AskVersion, &Event::Version(None))),
        "started — listening on http://127.0.0.1:8888 (v); log: /tmp/hindsight-api.log"
    );
}

#[test]
fn starts_that_fail() {
    assert_eq!(said(start(Starting::Probe, &Event::Health(true))), "hindsight-api already running");
    assert_eq!(
        said(start(Starting::Locate, &Event::Program(false))),
        "hindsight-api not found at /home/nayem/Projects/hindsight/.venv/bin/hindsight-api"
    );
    assert_eq!(
        said(start(Starting::Launch, &Event::Launched(Some("denied".into())))),
        "failed to launch hindsight-api: denied"
    );
    let mut s = Starting::Wait(0);
    let mut polls = 0;
    while !matches!(s, Starting::Done(_)) {
        s = start(s, &Event::Health(false));
        polls += 1;
    }
    assert_eq!(polls, 45);
    assert_eq!(said(s), "launched but not responding after 45s; check /tmp/hindsight-api.log");
}

#[test]
fn stops_and_waits() {
    let s = stop(Stopping::Probe, &Event::Health(true));
    let s = stop(s, &Event::Killed(2));
    let s = stop(s, &Event::Health(true));
    assert!(matches!(s, Stopping::Wait(2, 1)));
    assert_eq!(ended(stop(s, &Event::Health(false))), "stopped (2 process killed)");
}

#[test]
fn stops_that_fail() {
    assert_eq!(ended(stop(Stopping::Probe, &Event::Health(false))), "hindsight-api not running");
    assert_eq!(
        ended(stop(Stopping::Kill, &Event::Killed(0))),
        "could not find hindsight-api process to stop"
    );
    let mut s = Stopping::Wait(1, 0);
    let mut polls = 0;
    while !matches!(s, Stopping::Done(_)) {
        s = stop(s, &Event::Health(true));
        polls += 1;
    }
    assert_eq!(polls, 20);
    assert_eq!(ended(s), "sent stop signal but API still responding; may need manual kill");
}

#[test]
fn other_news_change_nothing() {
    assert!(matches!(start(Starting::Launch, &Event::Health(true)), Starting::Launch));
    assert!(matches!(stop(Stopping::Kill, &Event::Health(false)), Stopping::Kill));
}

#[test]
fn only_the_service_is_ended() {
    let process = |name: &str, cmdline: &str| Process {
        name: name.into(),
        cmdline: cmdline.into(),
    };
    assert_eq!(
        stop_targets(&vec![
            process("1", "/sbin/init"),
            process(
                "42",
                "/usr/bin/python3\0/home/nayem/Projects/hindsight/.venv/bin/hindsight-api\0"
            ),
            process("self", "/home/nayem/Projects/hindsight/.venv/bin/hindsight-api"),
            process("43", "wf"),
            process("44", "/home/nayem/Projects/hindsight/.venv/bin/hindsight-api"),
        ]),
        vec!["42", "44"]
    );
    assert!(is_pid("123"));
    assert!(!is_pid("12a"));
}

#[test]
fn times_of_day() {
    assert_eq!(chrono_now(0, 0), "00:00:00");
    assert_eq!(chrono_now(86399, 0), "23:59:59");
    assert_eq!(chrono_now(1_700_000_000, 0), "22:13:20");
    assert_eq!(chrono_now(1_700_000_000, utc_offset("+0600\n")), "04:13:20");
    assert_eq!(chrono_now(1_700_000_000, utc_offset("-0330")), "18:43:20");
    assert_eq!(chrono_now(u64::MAX, u64::MAX).len(), 8);
}

#[test]
fn offsets_from_greenwich() {
    assert_eq!(utc_offset("+0000"), 0);
    assert_eq!(utc_offset("+0545"), 20700);
    assert_eq!(utc_offset("-0100"), 82800);
    assert_eq!(utc_offset("-0000"), 0);
    for text in ["", "UTC", "0600", "+600", "+06:00", "+06000", "+06x0"] {
        assert_eq!(utc_offset(text), 0, "{text}");
    }
}

#[test]
fn seconds_are_told_apart() {
    for s in [0u64, 59, 60, 3599, 3600, 86398] {
        assert_ne!(chrono_now(s, 0), chrono_now(s + 1, 0));
        assert_eq!(chrono_now(s, 0), chrono_now(s + 86400, 0));
    }
}

#[test]
fn backups_listed() {
    let list = |success: bool| Ran::Done {
        success,
        stdout: "\ntotal 4\nx\n".into(),
        stderr: "e".into(),
    };
    assert_eq!(backup_snapshot(&list(true)), "total 4\nx");
    assert_eq!(backup_snapshot(&list(false)), "total 4\nx");
    assert_eq!(backup_snapshot(&Ran::Failed("no bash".into())), "(backup dir unreadable)");
    assert_eq!(
        snapshot_args(),
        vec!["-c", "ls -lt /home/nayem/Projects/Backups 2>/dev/null | head -8"]
    );
}

#[test]
fn backups_reported() {
    let ran = |out: &str, err: &str| Ran::Done {
        success: true,
        stdout: out.into(),
        stderr: err.into(),
    };
    assert_eq!(backup_report(&ran("a\n", "b\n")), "a\nb\n");
    assert_eq!(backup_report(&ran(" \n", "")), "done (no output)");
    assert_eq!(backup_report(&Ran::Failed("no bash".into())), "failed to run backup.sh: no bash");
}

#[test]
fn builds_when_sources_change() {
    let mut w = Watch::new(latest_source_mtime(&vec![Some(5), None, Some(9), Some(7)]));
    assert_eq!(w.last_built, 9);
    assert!(!w.look(9));
    assert!(w.look(10));
    assert!(!w.look(11));
    assert!(w.finish(11, true));
    assert!(!w.look(11));
    assert!(w.look(12));
    assert!(w.finish(12, false));
    assert!(!w.look(12));
    assert_eq!(latest_source_mtime(&vec![]), 0);
    assert_eq!(latest_source_mtime(&vec![None]), 0);
}

#[test]
fn only_a_good_build_reloads() {
    let mut w = Watch::new(5);
    assert!(!w.finish(9, true));
    assert_eq!(w, Watch::new(5));
    assert!(w.look(6));
    assert!(!w.finish(6, false));
    assert!(!w.reload);
    assert!(w.look(7));
    assert!(w.finish(7, true));
    assert!(w.look(8));
    assert!(w.reload);
    w.finish(8, false);
    assert!(w.reload);
}

#[test]
fn sources_by_name() {
    assert!(is_source("main.rs"));
    assert!(!is_source("main.rs.bak"));
    assert!(!is_source("notes.txt"));
}
