//! The dashboard: keys, news, and what is printed without it.

use wf::dashboard::{
    gather, next_tab, prev_tab, scan_all, Action, App, Key, ScanData, Surroundings, Tab, ASK_STOP,
    ASK_SWEEP, HELP, STARTING,
};
use wf::git::{Repo, RepoPath};
use wf::headless::{headless_hindsight, headless_list, headless_secrets, mode_of, Mode};
use wf::hindsight::BankInfo;
use wf::metrics::parse_metrics;
use wf::secrets::Finding;
use wf::theme::Config;

const HERE: Surroundings = Surroundings { dev: false, rebuilt: false, cargo_toml: false };

fn repo(name: &str) -> Repo {
    Repo {
        path: RepoPath { parts: vec![name.as_bytes().to_vec()] },
        name: name.into(),
        branch: "main".into(),
        ahead: 1,
        behind: 2,
        dirty: false,
        last_commit: String::new(),
        has_makefile: false,
        has_cargo_toml: false,
    }
}

fn finding(file: &str) -> Finding {
    Finding { repo: "r".into(), file: file.into(), reason: "why".into() }
}

fn data(names: &[&str], stamp: &str) -> ScanData {
    ScanData {
        repos: names.iter().map(|n| repo(n)).collect(),
        secrets: vec![finding("a"), finding("b")],
        hindsight: BankInfo::default(),
        metrics: None,
        models: None,
        backup_list: "list".into(),
        stamp: stamp.into(),
    }
}

fn app(names: &[&str]) -> App {
    App::new(data(names, "1"), Config::default())
}

fn press(app: &mut App, c: char) -> Action {
    app.handle_key(Key::Char(c), HERE)
}

#[test]
fn begins_with_help() {
    let a = app(&["x"]);
    assert_eq!(a.status, HELP);
    assert_eq!(a.tab, Tab::Projects);
    assert_eq!(a.last_scan, "1");
    assert_eq!(a.backup_list, "list");
    assert!(!a.confirm_stop && !a.confirm_sweep);
}

#[test]
fn tabs_by_digit_and_arrow() {
    let mut a = app(&[]);
    for (c, tab) in [('2', Tab::Secrets), ('4', Tab::Backup), ('3', Tab::Hindsight), ('1', Tab::Projects)] {
        assert_eq!(press(&mut a, c), Action::Nothing);
        assert_eq!(a.tab, tab);
    }
    a.handle_key(Key::Left, HERE);
    assert_eq!(a.tab, Tab::Backup);
    a.handle_key(Key::Right, HERE);
    assert_eq!(a.tab, Tab::Projects);
    press(&mut a, 'l');
    assert_eq!(a.tab, Tab::Secrets);
    press(&mut a, 'h');
    assert_eq!(a.tab, Tab::Projects);
}

#[test]
fn tabs_turn() {
    for t in [Tab::Projects, Tab::Secrets, Tab::Hindsight, Tab::Backup] {
        assert_eq!(prev_tab(&next_tab(&t)), t);
        assert_eq!(next_tab(&prev_tab(&t)), t);
        assert_eq!(next_tab(&next_tab(&next_tab(&next_tab(&t)))), t);
    }
}

#[test]
fn selection_moves_within_rows() {
    let mut a = app(&["x", "y"]);
    a.handle_key(Key::Up, HERE);
    assert_eq!(a.selected, 0);
    a.handle_key(Key::Down, HERE);
    assert_eq!(a.selected, 1);
    a.handle_key(Key::Down, HERE);
    assert_eq!(a.selected, 1);
    a.handle_key(Key::Up, HERE);
    assert_eq!(a.selected, 0);
    a.tab = Tab::Backup;
    a.handle_key(Key::Down, HERE);
    assert_eq!(a.selected, 0);
    let mut none = app(&[]);
    none.handle_key(Key::Down, HERE);
    assert_eq!(none.selected, 0);
}

#[test]
fn stop_takes_two_keys() {
    let mut a = app(&[]);
    assert_eq!(press(&mut a, 's'), Action::Nothing);
    assert!(!a.confirm_stop);
    press(&mut a, '3');
    press(&mut a, 'S');
    assert!(a.confirm_stop);
    assert_eq!(a.status, ASK_STOP);
    assert_eq!(press(&mut a, 'y'), Action::StopService);
    assert!(!a.confirm_stop);
    assert_eq!(press(&mut a, 'Y'), Action::Nothing);
}

#[test]
fn sweep_takes_two_keys() {
    let mut a = app(&[]);
    a.tab = Tab::Hindsight;
    a.hindsight.running = true;
    assert_eq!(a.handle_key(Key::Enter, HERE), Action::Nothing);
    assert!(a.confirm_sweep);
    assert_eq!(a.status, ASK_SWEEP);
    assert_eq!(press(&mut a, 'Y'), Action::Sweep);
    assert!(!a.confirm_sweep);
}

#[test]
fn any_key_cancels() {
    for key in [
        Key::Char('x'),
        Key::Char('1'),
        Key::Char('r'),
        Key::Char('t'),
        Key::Char('v'),
        Key::Char('R'),
        Key::Left,
        Key::Right,
        Key::Up,
        Key::Down,
        Key::Other,
    ] {
        let mut a = app(&["x", "y"]);
        a.tab = Tab::Hindsight;
        a.hindsight.running = true;
        a.handle_key(Key::Char('S'), HERE);
        a.handle_key(key, HERE);
        assert!(!a.confirm_stop && !a.confirm_sweep, "{key:?}");
        a.tab = Tab::Hindsight;
        a.handle_key(Key::Enter, HERE);
        assert!(a.confirm_sweep);
        a.handle_key(key, HERE);
        assert!(!a.confirm_stop && !a.confirm_sweep, "{key:?}");
    }
    let mut a = app(&[]);
    a.tab = Tab::Hindsight;
    a.hindsight.running = true;
    press(&mut a, 's');
    a.handle_key(Key::Enter, HERE);
    assert!(!a.confirm_stop && a.confirm_sweep);
    press(&mut a, 's');
    assert!(a.confirm_stop && !a.confirm_sweep);
}

#[test]
fn enter_alone_cancels() {
    for tab in [Tab::Projects, Tab::Secrets, Tab::Hindsight, Tab::Backup] {
        let mut a = app(&["x"]);
        a.tab = tab;
        a.confirm_stop = true;
        a.confirm_sweep = true;
        a.handle_enter(true);
        assert!(!a.confirm_stop && !a.confirm_sweep, "{tab:?}");
    }
}

#[test]
fn enter_on_projects() {
    let mut a = app(&["x"]);
    assert_eq!(a.handle_enter(false), Action::Nothing);
    assert_eq!(a.status, "x: no Makefile/Cargo.toml");
    assert_eq!(a.handle_enter(true), Action::Check);
    assert_eq!(a.status, "running make check in x …");
    assert!(a.check.running);
    a.check_finished("ok".into());
    assert!(!a.check.running);
    assert_eq!(a.check.output, "ok");
    a.repos[0].has_makefile = true;
    assert_eq!(a.handle_enter(false), Action::Check);
    assert_eq!(a.check.output, "");
    let mut none = app(&[]);
    assert_eq!(none.handle_enter(true), Action::Nothing);
    assert_eq!(none.status, HELP);
}

#[test]
fn enter_elsewhere() {
    let mut a = app(&[]);
    a.tab = Tab::Secrets;
    assert_eq!(a.handle_enter(false), Action::Nothing);
    assert_eq!(a.status, "2 secret finding(s) — review; fix by gitignoring/removing");
    a.tab = Tab::Hindsight;
    assert_eq!(a.handle_enter(false), Action::StartService);
    assert_eq!(a.service_msg, "starting hindsight-api…");
    assert_eq!(a.status, STARTING);
    a.tab = Tab::Backup;
    assert_eq!(a.handle_enter(false), Action::Backup);
    assert!(a.backup.running);
    assert_eq!(a.status, "running backup.sh (pulls cs/ss -> ~/Projects/Backups)…");
    a.backup_wrote("one\n");
    a.backup_wrote("two\n");
    assert!(a.backup.running);
    assert_eq!(a.backup.output, "one\ntwo\n");
    a.backup_finished("done".into());
    a.backup_wrote("late");
    assert!(!a.backup.running);
    assert_eq!(a.backup.output, "done");
}

#[test]
fn news_of_the_service() {
    let mut a = app(&[]);
    let up = || BankInfo { running: true, ..Default::default() };
    a.service_started("started".into(), up());
    assert_eq!((a.service_msg.as_str(), a.status.as_str()), ("started", "started"));
    assert!(a.hindsight.running);
    a.run_hindsight_stop("stopped".into(), BankInfo::default());
    assert_eq!((a.service_msg.as_str(), a.status.as_str()), ("stopped", "stopped"));
    assert!(!a.hindsight.running);
    a.apply_sweep(3, 1, up());
    assert_eq!(a.sweep_status, "sweep applied: invalidated=3 failed=1");
    assert_eq!(a.status, "hindsight sweep applied (invalidated=3, failed=1)");
    assert!(a.hindsight.running);
}

#[test]
fn scans_are_taken_over_once() {
    let mut a = app(&["x", "y", "z"]);
    a.selected = 2;
    a.status = "as it was".into();
    a.absorb(data(&["q"], "1"));
    assert_eq!(a.repos.len(), 3);
    let mut news = data(&["q", "w"], "2");
    news.metrics = Some(parse_metrics("hindsight_db_pool_size 3"));
    a.confirm_stop = true;
    a.absorb(news);
    assert_eq!(a.repos.len(), 2);
    assert_eq!(a.selected, 1);
    assert_eq!(a.status, "as it was");
    assert_eq!(a.last_scan, "2");
    assert_eq!(a.metrics.map(|m| m.db_pool), Some(3));
    assert!(a.earlier.is_none());
    assert!(a.confirm_stop);
    a.refresh(data(&[], "2"));
    assert_eq!(a.status, "refreshed");
    assert_eq!(a.selected, 0);
    assert_eq!(a.earlier.map(|m| m.db_pool), Some(3));
}

#[test]
fn settings_keys() {
    let mut a = app(&[]);
    assert_eq!(press(&mut a, 't'), Action::SaveConfig);
    assert_eq!(a.config.theme.name, "nord");
    assert_eq!(press(&mut a, 'v'), Action::SaveConfig);
    assert!(a.config.verbose);
    assert_eq!(press(&mut a, 'v'), Action::SaveConfig);
    assert!(!a.config.verbose);
    for name in ["high-contrast", "mono", "dark"] {
        press(&mut a, 't');
        assert_eq!(a.config.theme.name, name);
    }
}

#[test]
fn other_actions() {
    let mut a = app(&[]);
    assert_eq!(press(&mut a, 'q'), Action::Quit);
    assert_eq!(press(&mut a, 'r'), Action::Rescan);
    assert_eq!(press(&mut a, 'R'), Action::Nothing);
    let dev = Surroundings { dev: true, rebuilt: false, cargo_toml: false };
    assert_eq!(a.handle_key(Key::Char('R'), dev), Action::Rebuild);
    let fresh = Surroundings { dev: true, rebuilt: true, cargo_toml: false };
    assert_eq!(a.handle_key(Key::Other, fresh), Action::Reload);
    assert_eq!(a.handle_key(Key::Char('q'), fresh), Action::Reload);
}

#[test]
fn scans_are_assembled() {
    let mut dirty = repo("z");
    dirty.dirty = true;
    let d = scan_all(
        vec![repo("b"), repo("a"), dirty],
        vec![vec![finding("1")], vec![], vec![finding("2"), finding("3")]],
        BankInfo::default(),
        None,
        None,
        "list".into(),
        "12:00:00".into(),
    );
    assert_eq!(d.repos.iter().map(|r| r.name.as_str()).collect::<Vec<_>>(), vec!["z", "a", "b"]);
    assert_eq!(d.secrets.iter().map(|f| f.file.as_str()).collect::<Vec<_>>(), vec!["1", "2", "3"]);
    assert_eq!((d.backup_list.as_str(), d.stamp.as_str()), ("list", "12:00:00"));
    assert!(gather(vec![]).is_empty());
}

#[test]
fn modes() {
    let args = |v: &[&str]| v.iter().map(|s| s.to_string()).collect::<Vec<String>>();
    assert_eq!(mode_of(&args(&["wf"])), Mode::Screen);
    assert_eq!(mode_of(&args(&["wf", "--list"])), Mode::List);
    assert_eq!(mode_of(&args(&["wf", "--hindsight", "--secrets"])), Mode::Secrets);
    assert_eq!(mode_of(&args(&["wf", "--hindsight"])), Mode::Hindsight);
    assert_eq!(mode_of(&args(&["wf", "--lists"])), Mode::Screen);
}

#[test]
fn printed_repositories() {
    let mut dirty = repo("z");
    dirty.dirty = true;
    dirty.has_makefile = true;
    dirty.has_cargo_toml = true;
    let mut rust = repo("c");
    rust.has_cargo_toml = true;
    assert_eq!(
        headless_list(&vec![repo("a"), dirty, rust]),
        vec![
            "a\tmain\t↑1/↓2\tclean\t-",
            "z\tmain\t↑1/↓2\tdirty\tmake",
            "c\tmain\t↑1/↓2\tclean\tcargo"
        ]
    );
}

#[test]
fn printed_findings() {
    let (lines, total) = headless_secrets(&vec![finding("a"), finding("b")]);
    assert_eq!(lines, vec!["r\ta\twhy", "r\tb\twhy"]);
    assert_eq!(total, "total secret findings: 2");
}

#[test]
fn printed_bank() {
    let b = BankInfo {
        running: true,
        version: "0.8.4".into(),
        total_memories: 1,
        total_links: 2,
        total_documents: 3,
        fact_world: 4,
        fact_experience: 5,
        fact_observation: 6,
        observations_mission: "watch".into(),
        stale_candidates: 7,
    };
    assert_eq!(
        headless_hindsight(&b),
        vec![
            "running: true",
            "version: 0.8.4",
            "total_memories: 1",
            "total_links: 2",
            "total_documents: 3",
            "by_type: world=4 experience=5 observation=6",
            "stale_candidates_dry_run: 7",
            "observations_mission: watch",
        ]
    );
    assert_eq!(headless_hindsight(&BankInfo::default())[0], "running: false");
}
