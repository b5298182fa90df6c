//! The dashboard: what it shows, and what keys and news do to it.

use vstd::prelude::*;
use crate::git::{key_order, keys, load_repos, with_key, Repo, RepoKey};
use crate::hindsight::BankInfo;
use crate::metrics::Metrics;
use crate::models::Models;
use crate::order::sorted;
use crate::secrets::Finding;
use crate::text::{chars_of, decimal, push_decimal, same};
use crate::theme::{
    built_in, dark_theme, high_contrast_theme, mono_theme, nord_theme, theme_after, Config,
};

verus! {

broadcast use vstd::string::group_string_axioms;

/// A tab of the dashboard.
#[derive(Debug, Clone, Copy, PartialEq, Eq, Structural)]
pub enum Tab {
    Projects,
    Secrets,
    Hindsight,
    Backup,
}

/// The tab to the left; the first is to the right of the last.
pub open spec fn tab_before(t: Tab) -> Tab {
    match t {
        Tab::Projects => Tab::Backup,
        Tab::Secrets => Tab::Projects,
        Tab::Hindsight => Tab::Secrets,
        Tab::Backup => Tab::Hindsight,
    }
}

/// The tab to the right; the last is to the left of the first.
pub open spec fn tab_after(t: Tab) -> Tab {
    match t {
        Tab::Projects => Tab::Secrets,
        Tab::Secrets => Tab::Hindsight,
        Tab::Hindsight => Tab::Backup,
        Tab::Backup => Tab::Projects,
    }
}

/// The tab to the left.
pub fn prev_tab(t: &Tab) -> (r: Tab)
    ensures
        r == tab_before(*t),
{
    match t {
        Tab::Projects => Tab::Backup,
        Tab::Secrets => Tab::Projects,
        Tab::Hindsight => Tab::Secrets,
        Tab::Backup => Tab::Hindsight,
    }
}

/// The tab to the right.
pub fn next_tab(t: &Tab) -> (r: Tab)
    ensures
        r == tab_after(*t),
{
    match t {
        Tab::Projects => Tab::Secrets,
        Tab::Secrets => Tab::Hindsight,
        Tab::Hindsight => Tab::Backup,
        Tab::Backup => Tab::Projects,
    }
}

/// A key.
#[derive(Debug, Clone, Copy, PartialEq, Eq, Structural)]
pub enum Key {
    Char(char),
    Left,
    Right,
    Up,
    Down,
    Enter,
    Other,
}

/// A command that was asked for: whether it runs, and what it wrote.
#[derive(Debug, Clone)]
pub struct CheckState {
    pub running: bool,
    pub output: String,
}

/// A command that was asked for, by its texts.
pub struct CheckView {
    pub running: bool,
    pub output: Seq<char>,
}

impl View for CheckState {
    type V = CheckView;

    open spec fn view(&self) -> CheckView {
        CheckView { running: self.running, output: self.output@ }
    }
}

impl Default for CheckState {
    fn default() -> (r: CheckState)
        ensures
            r@ == (CheckView { running: false, output: Seq::empty() }),
    {
        CheckState { running: false, output: String::new() }
    }
}

/// What a scan of everything found, and when.
#[derive(Debug, Clone)]
pub struct ScanData {
    pub repos: Vec<Repo>,
    pub secrets: Vec<Finding>,
    pub hindsight: BankInfo,
    /// The live metrics, if the service gave them.
    pub metrics: Option<Metrics>,
    /// The work of the local models, if the log tells of it.
    pub models: Option<Models>,
    pub backup_list: String,
    pub stamp: String,
}

/// The dashboard.
#[derive(Debug)]
pub struct App {
    pub tab: Tab,
    pub repos: Vec<Repo>,
    pub selected: usize,
    /// The check of a repository.
    pub check: CheckState,
    pub secrets: Vec<Finding>,
    pub hindsight: BankInfo,
    /// The live metrics of the last scan.
    pub metrics: Option<Metrics>,
    /// The live metrics of the scan before.
    pub earlier: Option<Metrics>,
    /// The work of the local models at the last scan.
    pub models: Option<Models>,
    /// The work of the local models at the scan before.
    pub earlier_models: Option<Models>,
    pub sweep_status: String,
    /// The run of the backup.
    pub backup: CheckState,
    pub backup_list: String,
    /// Whether a sweep waits to be confirmed.
    pub confirm_sweep: bool,
    /// Whether a stop of the service waits to be confirmed.
    pub confirm_stop: bool,
    pub status: String,
    /// What came of starting or stopping the service.
    pub service_msg: String,
    /// When the last scan was.
    pub last_scan: String,
    pub config: Config,
}

/// The dashboard, by its texts.
pub struct AppView {
    pub tab: Tab,
    pub repos: Seq<Repo>,
    pub selected: usize,
    pub check: CheckView,
    pub secrets: Seq<Finding>,
    pub hindsight: BankInfo,
    pub metrics: Option<Metrics>,
    pub earlier: Option<Metrics>,
    pub models: Option<Models>,
    pub earlier_models: Option<Models>,
    pub sweep_status: Seq<char>,
    pub backup: CheckView,
    pub backup_list: Seq<char>,
    pub confirm_sweep: bool,
    pub confirm_stop: bool,
    pub status: Seq<char>,
    pub service_msg: Seq<char>,
    pub last_scan: Seq<char>,
    pub config: Config,
}

impl View for App {
    type V = AppView;

    open spec fn view(&self) -> AppView {
        AppView {
            tab: self.tab,
            repos: self.repos@,
            selected: self.selected,
            check: self.check@,
            secrets: self.secrets@,
            hindsight: self.hindsight,
            metrics: self.metrics,
            earlier: self.earlier,
            models: self.models,
            earlier_models: self.earlier_models,
            sweep_status: self.sweep_status@,
            backup: self.backup@,
            backup_list: self.backup_list@,
            confirm_sweep: self.confirm_sweep,
            confirm_stop: self.confirm_stop,
            status: self.status@,
            service_msg: self.service_msg@,
            last_scan: self.last_scan@,
            config: self.config,
        }
    }
}

/// What the program is to do.
#[derive(Debug, Clone, Copy, PartialEq, Eq, Structural)]
pub enum Action {
    Nothing,
    Quit,
    /// Scan everything, and hand the result to `refresh`.
    Rescan,
    /// Build the program anew, and run it in place of this one.
    Rebuild,
    /// Run the program that was built meanwhile in place of this one.
    Reload,
    /// Check the selected repository.
    Check,
    /// Start the service.
    StartService,
    /// Stop the service.
    StopService,
    /// Invalidate the stale memories.
    Sweep,
    /// Run the backup.
    Backup,
    /// Write the settings.
    SaveConfig,
}

/// What a key may depend on besides the dashboard.
#[derive(Debug, Clone, Copy, PartialEq, Eq, Structural)]
pub struct Surroundings {
    /// Whether the program can rebuild itself.
    pub dev: bool,
    /// Whether the program was built anew meanwhile.
    pub rebuilt: bool,
    /// Whether the selected repository holds a `Cargo.toml`.
    pub cargo_toml: bool,
}

/// What the status line says at the beginning.
pub const HELP: &'static str =
    "1/2/3/4 tabs | ↑↓ select | Enter action | r refresh | R rebuild+restart | q quit | Hindsight: Enter start / S stop";

/// The status line of a key that asks to stop the service.
pub const ASK_STOP: &'static str = "Press Y to STOP hindsight-api; any other key cancels";

/// The status line of a key that asks for the sweep.
pub const ASK_SWEEP: &'static str =
    "Press Y to APPLY sweep (invalidates stale memories); any other key cancels";

/// The status line of a start of the service.
pub const STARTING: &'static str = "starting hindsight-api (this can take ~30s)";

/// The status line of a run of the backup.
pub const BACKING_UP: &'static str = "running backup.sh (pulls cs/ss -> ~/Projects/Backups)…";

/// The dashboard at the beginning, with what the first scan found.
pub open spec fn first_view(data: ScanData, config: Config) -> AppView {
    AppView {
        tab: Tab::Projects,
        repos: data.repos@,
        selected: 0,
        check: CheckView { running: false, output: Seq::empty() },
        secrets: data.secrets@,
        hindsight: data.hindsight,
        metrics: data.metrics,
        earlier: None,
        models: data.models,
        earlier_models: None,
        sweep_status: Seq::empty(),
        backup: CheckView { running: false, output: Seq::empty() },
        backup_list: data.backup_list@,
        confirm_sweep: false,
        confirm_stop: false,
        status: HELP@,
        service_msg: Seq::empty(),
        last_scan: data.stamp@,
        config,
    }
}

/// How many rows can be selected.
pub open spec fn rows(a: AppView) -> nat {
    match a.tab {
        Tab::Projects => a.repos.len(),
        Tab::Secrets => a.secrets.len(),
        Tab::Hindsight => 1,
        Tab::Backup => 1,
    }
}

/// A command that wrote something more. What comes after its end is not kept.
pub open spec fn written(c: CheckView, text: Seq<char>) -> CheckView {
    if c.running {
        CheckView { output: c.output + text, ..c }
    } else {
        c
    }
}

/// A selection, moved up where there are fewer repositories.
pub open spec fn clamped(selected: usize, repos: nat) -> usize {
    if selected < repos {
        selected
    } else if repos > 0 {
        (repos - 1) as usize
    } else {
        0
    }
}

/// The dashboard with the results of a scan.
pub open spec fn scanned(a: AppView, data: ScanData) -> AppView {
    AppView {
        repos: data.repos@,
        selected: clamped(a.selected, data.repos@.len()),
        secrets: data.secrets@,
        hindsight: data.hindsight,
        metrics: data.metrics,
        earlier: a.metrics,
        models: data.models,
        earlier_models: a.models,
        backup_list: data.backup_list@,
        last_scan: data.stamp@,
        ..a
    }
}

/// The dashboard with nothing left to confirm.
pub open spec fn cancelled(a: AppView) -> AppView {
    AppView { confirm_sweep: false, confirm_stop: false, ..a }
}

/// What Enter does. Like any key that confirms nothing, it first cancels what
/// waits to be confirmed.
pub open spec fn enter_step(before: AppView, cargo_toml: bool) -> (AppView, Action) {
    let a = cancelled(before);
    match a.tab {
        Tab::Projects => if a.selected < a.repos.len() {
            let repo = a.repos[a.selected as int];
            if repo.has_makefile || cargo_toml {
                (
                    AppView {
                        check: CheckView { running: true, output: Seq::empty() },
                        status: "running make check in "@ + repo.name@ + " …"@,
                        ..a
                    },
                    Action::Check,
                )
            } else {
                (
                    AppView { status: repo.name@ + ": no Makefile/Cargo.toml"@, ..a },
                    Action::Nothing,
                )
            }
        } else {
            (a, Action::Nothing)
        },
        Tab::Secrets => (
            AppView {
                status: decimal(a.secrets.len())
                    + " secret finding(s) — review; fix by gitignoring/removing"@,
                ..a
            },
            Action::Nothing,
        ),
        Tab::Hindsight => if a.hindsight.running {
            (AppView { confirm_sweep: true, status: ASK_SWEEP@, ..a }, Action::Nothing)
        } else {
            (
                AppView {
                    service_msg: "starting hindsight-api…"@,
                    status: STARTING@,
                    ..a
                },
                Action::StartService,
            )
        },
        Tab::Backup => (
            AppView {
                backup: CheckView { running: true, output: Seq::empty() },
                status: BACKING_UP@,
                ..a
            },
            Action::Backup,
        ),
    }
}

/// What a key does. A key that follows a rebuild runs the new program. Any
/// other key cancels what waits to be confirmed, but that `y` has it done, and
/// the keys that ask for a confirmation leave their own waiting.
pub open spec fn key_step(a: AppView, k: Key, s: Surroundings) -> (AppView, Action) {
    let b = cancelled(a);
    if s.dev && s.rebuilt {
        (a, Action::Reload)
    } else {
        match k {
            Key::Left => (AppView { tab: tab_before(a.tab), ..b }, Action::Nothing),
            Key::Right => (AppView { tab: tab_after(a.tab), ..b }, Action::Nothing),
            Key::Up => (
                AppView {
                    selected: if a.selected > 0 {
                        (a.selected - 1) as usize
                    } else {
                        0
                    },
                    ..b
                },
                Action::Nothing,
            ),
            Key::Down => (
                AppView {
                    selected: if a.selected + 1 < rows(a) {
                        (a.selected + 1) as usize
                    } else {
                        a.selected
                    },
                    ..b
                },
                Action::Nothing,
            ),
            Key::Enter => enter_step(a, s.cargo_toml),
            Key::Other => (b, Action::Nothing),
            Key::Char(c) => if c == 'q' {
                (b, Action::Quit)
            } else if c == '1' {
                (AppView { tab: Tab::Projects, ..b }, Action::Nothing)
            } else if c == '2' {
                (AppView { tab: Tab::Secrets, ..b }, Action::Nothing)
            } else if c == '3' {
                (AppView { tab: Tab::Hindsight, ..b }, Action::Nothing)
            } else if c == '4' {
                (AppView { tab: Tab::Backup, ..b }, Action::Nothing)
            } else if c == 'h' {
                (AppView { tab: tab_before(a.tab), ..b }, Action::Nothing)
            } else if c == 'l' {
                (AppView { tab: tab_after(a.tab), ..b }, Action::Nothing)
            } else if c == 'r' {
                (b, Action::Rescan)
            } else if c == 'R' && s.dev {
                (b, Action::Rebuild)
            } else if c == 's' || c == 'S' {
                if a.tab == Tab::Hindsight {
                    (AppView { confirm_stop: true, status: ASK_STOP@, ..b }, Action::Nothing)
                } else {
                    (b, Action::Nothing)
                }
            } else if c == 'y' || c == 'Y' {
                if a.confirm_stop {
                    (b, Action::StopService)
                } else if a.confirm_sweep {
                    (b, Action::Sweep)
                } else {
                    (b, Action::Nothing)
                }
            } else if c == 't' {
                (
                    AppView {
                        config: Config { theme: theme_after(a.config.theme.name@), ..a.config },
                        ..b
                    },
                    Action::SaveConfig,
                )
            } else if c == 'v' {
                (
                    AppView {
                        config: Config { verbose: !a.config.verbose, ..a.config },
                        ..b
                    },
                    Action::SaveConfig,
                )
            } else {
                (b, Action::Nothing)
            },
        }
    }
}

impl App {
    /// The dashboard at the beginning, with what the first scan found.
    pub fn new(data: ScanData, config: Config) -> (r: App)
        ensures
            r@ == first_view(data, config),
    {
        App {
            tab: Tab::Projects,
            repos: data.repos,
            selected: 0,
            check: CheckState::default(),
            secrets: data.secrets,
            hindsight: data.hindsight,
            metrics: data.metrics,
            earlier: None,
            models: data.models,
            earlier_models: None,
            sweep_status: String::new(),
            backup: CheckState::default(),
            backup_list: data.backup_list,
            confirm_sweep: false,
            confirm_stop: false,
            status: HELP.to_owned(),
            service_msg: String::new(),
            last_scan: data.stamp,
            config,
        }
    }

    /// Takes over the results of a scan.
    fn take_over(&mut self, data: ScanData)
        ensures
            final(self)@ == scanned(old(self)@, data),
    {
        self.repos = data.repos;
        if self.selected >= self.repos.len() {
            self.selected = if self.repos.len() > 0 {
                self.repos.len() - 1
            } else {
                0
            };
        }
        self.secrets = data.secrets;
        self.hindsight = data.hindsight;
        self.earlier = self.metrics;
        self.metrics = data.metrics;
        self.earlier_models = self.models;
        self.models = data.models;
        self.backup_list = data.backup_list;
        self.last_scan = data.stamp;
    }

    /// Takes over the results of a scan in the background, if they are new.
    pub fn absorb(&mut self, data: ScanData)
        ensures
            data.stamp@ == old(self)@.last_scan ==> final(self)@ == old(self)@,
            data.stamp@ != old(self)@.last_scan ==> final(self)@ == scanned(old(self)@, data),
    {
        if same(&chars_of(data.stamp.as_str()), self.last_scan.as_str()) {
            return ;
        }
        self.take_over(data);
    }

    /// Takes over the results of a scan that was asked for.
    pub fn refresh(&mut self, data: ScanData)
        ensures
            final(self)@ == (AppView { status: "refreshed"@, ..scanned(old(self)@, data) }),
    {
        self.take_over(data);
        self.status = "refreshed".to_owned();
    }

    /// The service was told to start, and this came of it.
    pub fn service_started(&mut self, msg: String, info: BankInfo)
        ensures
            final(self)@ == (AppView {
                service_msg: msg@,
                status: msg@,
                hindsight: info,
                ..old(self)@
            }),
    {
        self.service_msg = msg.clone();
        self.status = msg;
        self.hindsight = info;
    }

    /// The service was told to stop, and this came of it.
    pub fn run_hindsight_stop(&mut self, msg: String, info: BankInfo)
        ensures
            final(self)@ == (AppView {
                service_msg: msg@,
                status: msg@,
                hindsight: info,
                ..old(self)@
            }),
    {
        self.service_msg = msg.clone();
        self.hindsight = info;
        self.status = msg;
    }

    /// The sweep is over: so many memories were invalidated, so many were not.
    pub fn apply_sweep(&mut self, ok: usize, failed: usize, info: BankInfo)
        ensures
            final(self)@ == (AppView {
                sweep_status: "sweep applied: invalidated="@ + decimal(ok as nat) + " failed="@
                    + decimal(failed as nat),
                hindsight: info,
                status: "hindsight sweep applied (invalidated="@ + decimal(ok as nat)
                    + ", failed="@ + decimal(failed as nat) + ")"@,
                ..old(self)@
            }),
    {
        let mut sweep = "sweep applied: invalidated=".to_owned();
        push_decimal(&mut sweep, ok as u64);
        sweep.append(" failed=");
        push_decimal(&mut sweep, failed as u64);
        let mut status = "hindsight sweep applied (invalidated=".to_owned();
        push_decimal(&mut status, ok as u64);
        status.append(", failed=");
        push_decimal(&mut status, failed as u64);
        status.append(")");
        self.sweep_status = sweep;
        self.hindsight = info;
        self.status = status;
    }

    /// The check is over, and this is what it wrote.
    pub fn check_finished(&mut self, output: String)
        ensures
            final(self)@ == (AppView {
                check: CheckView { running: false, output: output@ },
                ..old(self)@
            }),
    {
        self.check = CheckState { running: false, output };
    }

    /// The backup wrote this while it runs.
    pub fn backup_wrote(&mut self, text: &str)
        ensures
            final(self)@ == (AppView { backup: written(old(self)@.backup, text@), ..old(self)@ }),
    {
        if self.backup.running {
            self.backup.output.append(text);
        }
    }

    /// The backup is over, and this is what it wrote.
    pub fn backup_finished(&mut self, output: String)
        ensures
            final(self)@ == (AppView {
                backup: CheckView { running: false, output: output@ },
                ..old(self)@
            }),
    {
        self.backup = CheckState { running: false, output };
    }

    /// Starts the service.
    fn run_hindsight_start(&mut self)
        ensures
            final(self)@ == (AppView {
                confirm_sweep: false,
                confirm_stop: false,
                service_msg: "starting hindsight-api…"@,
                status: STARTING@,
                ..old(self)@
            }),
    {
        self.confirm_sweep = false;
        self.confirm_stop = false;
        self.service_msg = "starting hindsight-api…".to_owned();
        self.status = STARTING.to_owned();
    }

    /// Does what Enter asks for.
    pub fn handle_enter(&mut self, cargo_toml: bool) -> (r: Action)
        ensures
            (final(self)@, r) == enter_step(old(self)@, cargo_toml),
    {
        self.confirm_stop = false;
        self.confirm_sweep = false;
        match self.tab {
            Tab::Projects => {
                if self.selected >= self.repos.len() {
                    return Action::Nothing;
                }
                let repo = &self.repos[self.selected];
                if repo.has_makefile || cargo_toml {
                    let mut status = "running make check in ".to_owned();
                    status.append(repo.name.as_str());
                    status.append(" …");
                    self.check = CheckState { running: true, output: String::new() };
                    self.status = status;
                    Action::Check
                } else {
                    let mut status = repo.name.clone();
                    status.append(": no Makefile/Cargo.toml");
                    self.status = status;
                    Action::Nothing
                }
            },
            Tab::Secrets => {
                let mut status = String::new();
                push_decimal(&mut status, self.secrets.len() as u64);
                status.append(" secret finding(s) — review; fix by gitignoring/removing");
                assert(status@ =~= decimal(self.secrets@.len())
                    + " secret finding(s) — review; fix by gitignoring/removing"@);
                self.status = status;
                Action::Nothing
            },
            Tab::Hindsight => {
                if self.hindsight.running {
                    self.confirm_sweep = true;
                    self.status = ASK_SWEEP.to_owned();
                    Action::Nothing
                } else {
                    self.run_hindsight_start();
                    Action::StartService
                }
            },
            Tab::Backup => {
                self.backup = CheckState { running: true, output: String::new() };
                self.status = BACKING_UP.to_owned();
                Action::Backup
            },
        }
    }

    /// Does what a key asks for.
    pub fn handle_key(&mut self, key: Key, s: Surroundings) -> (r: Action)
        ensures
            (final(self)@, r) == key_step(old(self)@, key, s),
    {
        if s.dev && s.rebuilt {
            return Action::Reload;
        }
        let stop = self.confirm_stop;
        let sweep = self.confirm_sweep;
        self.confirm_stop = false;
        self.confirm_sweep = false;
        match key {
            Key::Left => {
                self.tab = prev_tab(&self.tab);
                Action::Nothing
            },
            Key::Right => {
                self.tab = next_tab(&self.tab);
                Action::Nothing
            },
            Key::Up => {
                if self.selected > 0 {
                    self.selected = self.selected - 1;
                }
                Action::Nothing
            },
            Key::Down => {
                let n = match self.tab {
                    Tab::Projects => self.repos.len(),
                    Tab::Secrets => self.secrets.len(),
                    Tab::Hindsight => 1,
                    Tab::Backup => 1,
                };
                if n > 0 && self.selected < n - 1 {
                    self.selected = self.selected + 1;
                }
                Action::Nothing
            },
            Key::Enter => self.handle_enter(s.cargo_toml),
            Key::Other => Action::Nothing,
            Key::Char(c) => {
                if c == 'q' {
                    Action::Quit
                } else if c == '1' {
                    self.tab = Tab::Projects;
                    Action::Nothing
                } else if c == '2' {
                    self.tab = Tab::Secrets;
                    Action::Nothing
                } else if c == '3' {
                    self.tab = Tab::Hindsight;
                    Action::Nothing
                } else if c == '4' {
                    self.tab = Tab::Backup;
                    Action::Nothing
                } else if c == 'h' {
                    self.tab = prev_tab(&self.tab);
                    Action::Nothing
                } else if c == 'l' {
                    self.tab = next_tab(&self.tab);
                    Action::Nothing
                } else if c == 'r' {
                    Action::Rescan
                } else if c == 'R' && s.dev {
                    Action::Rebuild
                } else if c == 's' || c == 'S' {
                    if self.tab == Tab::Hindsight {
                        self.confirm_stop = true;
                        self.status = ASK_STOP.to_owned();
                    }
                    Action::Nothing
                } else if c == 'y' || c == 'Y' {
                    if stop {
                        Action::StopService
                    } else if sweep {
                        Action::Sweep
                    } else {
                        Action::Nothing
                    }
                } else if c == 't' {
                    self.config = Config {
                        theme: self.config.theme.next(),
                        verbose: self.config.verbose,
                    };
                    Action::SaveConfig
                } else if c == 'v' {
                    self.config = Config {
                        theme: self.config.theme,
                        verbose: !self.config.verbose,
                    };
                    Action::SaveConfig
                } else {
                    Action::Nothing
                }
            },
        }
    }
}

/// The findings of all repositories, one after another.
pub open spec fn all_findings(found: Seq<Vec<Finding>>) -> Seq<Finding>
    decreases found.len(),
{
    if found.len() == 0 {
        Seq::empty()
    } else {
        found.first()@ + all_findings(found.drop_first())
    }
}

/// The findings of all repositories, one after another.
pub fn gather(found: Vec<Vec<Finding>>) -> (r: Vec<Finding>)
    ensures
        r@ == all_findings(found@),
{
    let ghost all = found@;
    let mut left = found;
    let mut r: Vec<Finding> = Vec::new();
    assert(r@ + all_findings(left@) =~= all_findings(all));
    while left.len() > 0
        invariant
            r@ + all_findings(left@) == all_findings(all),
        decreases left.len(),
    {
        let ghost left0 = left@;
        let ghost done = r@;
        let mut next = left.remove(0);
        assert(left@ =~= left0.drop_first());
        r.append(&mut next);
        assert(r@ + all_findings(left@) =~= done + all_findings(left0));
    }
    assert(r@ + all_findings(left@) =~= r@);
    r
}

/// What a scan of everything found: the repositories in their order, the
/// findings of all of them, the state of the service and of the backups.
pub fn scan_all(
    repos: Vec<Repo>,
    found: Vec<Vec<Finding>>,
    hindsight: BankInfo,
    metrics: Option<Metrics>,
    models: Option<Models>,
    backup_list: String,
    stamp: String,
) -> (r: ScanData)
    ensures
        sorted(keys(r.repos@), key_order()),
        forall|k: RepoKey| #[trigger]
            r.repos@.filter(with_key(k)) == repos@.filter(with_key(k)),
        r.repos@.to_multiset() == repos@.to_multiset(),
        forall|i: int, j: int|
            #![trigger r.repos@[i], r.repos@[j]]
            0 <= i < j < r.repos@.len() ==> {
                &&& r.repos@[j].dirty ==> r.repos@[i].dirty
                &&& r.repos@[i].dirty == r.repos@[j].dirty ==> r.repos@[i].behind
                    >= r.repos@[j].behind
                &&& r.repos@[i].dirty == r.repos@[j].dirty && r.repos@[i].behind
                    == r.repos@[j].behind ==> r.repos@[i].ahead >= r.repos@[j].ahead
            },
        r.secrets@ == all_findings(found@),
        r.hindsight == hindsight,
        r.metrics == metrics,
        r.models == models,
        r.backup_list@ == backup_list@,
        r.stamp@ == stamp@,
{
    ScanData {
        repos: load_repos(repos),
        secrets: gather(found),
        hindsight,
        metrics,
        models,
        backup_list,
        stamp,
    }
}

/// The tabs go round: right undoes left, left undoes right, and four steps to
/// the right come back.
pub proof fn tabs_go_round(t: Tab)
    ensures
        tab_after(tab_before(t)) == t,
        tab_before(tab_after(t)) == t,
        tab_after(tab_after(tab_after(tab_after(t)))) == t,
        tab_after(t) != t,
        tab_after(tab_after(t)) != t,
{
}

/// Whether a key confirms.
pub open spec fn confirms(k: Key) -> bool {
    k == Key::Char('y') || k == Key::Char('Y')
}

/// Whether a key asks to stop the service.
pub open spec fn asks_stop(a: AppView, k: Key) -> bool {
    a.tab == Tab::Hindsight && (k == Key::Char('s') || k == Key::Char('S'))
}

/// Whether a key asks for the sweep.
pub open spec fn asks_sweep(a: AppView, k: Key) -> bool {
    a.tab == Tab::Hindsight && a.hindsight.running && k == Key::Enter
}

/// The service is stopped, and memories are swept, only by a key that confirms
/// while exactly that waits to be confirmed.
pub proof fn only_the_confirmed_is_done(a: AppView, k: Key, s: Surroundings)
    ensures
        key_step(a, k, s).1 == Action::StopService ==> confirms(k) && a.confirm_stop,
        key_step(a, k, s).1 == Action::Sweep ==> confirms(k) && a.confirm_sweep
            && !a.confirm_stop,
{
}

/// The confirming key does what was asked for, unless the program is about to
/// be replaced.
pub proof fn the_confirmed_is_done(a: AppView, k: Key, s: Surroundings)
    requires
        confirms(k),
        !(s.dev && s.rebuilt),
    ensures
        a.confirm_stop ==> key_step(a, k, s).1 == Action::StopService,
        !a.confirm_stop && a.confirm_sweep ==> key_step(a, k, s).1 == Action::Sweep,
        !a.confirm_stop && !a.confirm_sweep ==> key_step(a, k, s) == (a, Action::Nothing),
{
}

/// After a key, a confirmation is pending only where that very key asked for
/// it: any other key cancels, and never do both pend.
pub proof fn any_other_key_cancels(a: AppView, k: Key, s: Surroundings)
    requires
        !(s.dev && s.rebuilt),
    ensures
        key_step(a, k, s).0.confirm_stop == asks_stop(a, k),
        key_step(a, k, s).0.confirm_sweep == asks_sweep(a, k),
        !(key_step(a, k, s).0.confirm_stop && key_step(a, k, s).0.confirm_sweep),
{
}

/// Of two keys in a row, the second stops the service only where the first
/// asked for it, on the tab of the service, and the second confirms; and
/// likewise for the sweep.
pub proof fn two_keys_to_destroy(
    a: AppView,
    first: Key,
    s: Surroundings,
    second: Key,
    t: Surroundings,
)
    requires
        !(s.dev && s.rebuilt),
    ensures
        key_step(key_step(a, first, s).0, second, t).1 == Action::StopService ==> asks_stop(
            a,
            first,
        ) && confirms(second),
        key_step(key_step(a, first, s).0, second, t).1 == Action::Sweep ==> asks_sweep(a, first)
            && confirms(second),
{
    any_other_key_cancels(a, first, s);
    only_the_confirmed_is_done(key_step(a, first, s).0, second, t);
}

/// What comes from a scan neither asks for a confirmation nor cancels one, and
/// leaves the tab as it is.
pub proof fn scans_confirm_nothing(a: AppView, data: ScanData)
    ensures
        scanned(a, data).confirm_stop == a.confirm_stop,
        scanned(a, data).confirm_sweep == a.confirm_sweep,
        scanned(a, data).tab == a.tab,
        scanned(a, data).status == a.status,
        scanned(a, data).config == a.config,
{
}

/// After a scan the selection is on a repository, if there is one; it stays
/// where it was as long as there is a repository there.
pub proof fn selection_stays_on_a_repository(a: AppView, data: ScanData)
    ensures
        data.repos@.len() > 0 ==> scanned(a, data).selected < data.repos@.len(),
        data.repos@.len() == 0 ==> scanned(a, data).selected == 0,
        a.selected < data.repos@.len() ==> scanned(a, data).selected == a.selected,
{
    // The length of a vector fits its type, so that the cast keeps it.
    assert(data.repos@.len() == data.repos.len());
}

/// A selection on a row stays on a row of its tab, whichever way it is moved.
pub proof fn moves_stay_on_rows(a: AppView, k: Key, s: Surroundings)
    requires
        k == Key::Up || k == Key::Down,
        a.selected < rows(a),
        rows(a) <= usize::MAX,
    ensures
        key_step(a, k, s).0.selected < rows(key_step(a, k, s).0),
        key_step(a, k, s).0.tab == a.tab,
{
}

/// Where there is a row below, up undoes down.
pub proof fn up_undoes_down(a: AppView, s: Surroundings)
    requires
        a.selected + 1 < rows(a),
        rows(a) <= usize::MAX,
        !(s.dev && s.rebuilt),
    ensures
        key_step(key_step(a, Key::Down, s).0, Key::Up, s).0 == cancelled(a),
{
}

/// A key of the settings is written at once: the theme goes on by one, to a
/// built-in theme, or the captions are switched, and nothing else of the
/// settings changes.
pub proof fn settings_are_saved(a: AppView, s: Surroundings)
    requires
        !(s.dev && s.rebuilt),
    ensures
        key_step(a, Key::Char('t'), s).1 == Action::SaveConfig,
        key_step(a, Key::Char('t'), s).0.config.theme == theme_after(a.config.theme.name@),
        built_in().contains(key_step(a, Key::Char('t'), s).0.config.theme),
        key_step(a, Key::Char('t'), s).0.config.verbose == a.config.verbose,
        key_step(a, Key::Char('v'), s).1 == Action::SaveConfig,
        key_step(a, Key::Char('v'), s).0.config == (Config {
            verbose: !a.config.verbose,
            ..a.config
        }),
        key_step(key_step(a, Key::Char('v'), s).0, Key::Char('v'), s).0.config == a.config,
{
    assert(built_in()[0] == dark_theme());
    assert(built_in()[1] == nord_theme());
    assert(built_in()[2] == high_contrast_theme());
    assert(built_in()[3] == mono_theme());
}

/// What takes time or touches the disk is done only on demand: a check by Enter
/// on a repository, a start by Enter while the service is down, a backup by
/// Enter on its tab, a scan by its key.
pub proof fn work_is_done_on_demand(a: AppView, k: Key, s: Surroundings)
    ensures
        key_step(a, k, s).1 == Action::Check ==> k == Key::Enter && a.tab == Tab::Projects
            && a.selected < a.repos.len() && (a.repos[a.selected as int].has_makefile
            || s.cargo_toml),
        key_step(a, k, s).1 == Action::StartService ==> k == Key::Enter && a.tab == Tab::Hindsight
            && !a.hindsight.running,
        key_step(a, k, s).1 == Action::Backup ==> k == Key::Enter && a.tab == Tab::Backup,
        key_step(a, k, s).1 == Action::Rescan ==> k == Key::Char('r'),
{
}

/// Only a key of the settings changes them.
pub proof fn other_keys_keep_settings(a: AppView, k: Key, s: Surroundings)
    requires
        k != Key::Char('t'),
        k != Key::Char('v'),
    ensures
        key_step(a, k, s).0.config == a.config,
        key_step(a, k, s).1 != Action::SaveConfig,
{
}

/// The program rebuilds or replaces itself only where it can.
pub proof fn only_dev_programs_restart(a: AppView, k: Key, s: Surroundings)
    ensures
        key_step(a, k, s).1 == Action::Reload <==> s.dev && s.rebuilt,
        key_step(a, k, s).1 == Action::Rebuild ==> s.dev && k == Key::Char('R'),
{
}

/// What a command writes while it runs adds up, however it is cut into pieces,
/// and the command goes on running.
pub proof fn written_adds_up(c: CheckView, a: Seq<char>, b: Seq<char>)
    ensures
        written(written(c, a), b) == written(c, a + b),
        written(c, a).running == c.running,
        c.running ==> written(c, a).output == c.output + a,
{
    if c.running {
        assert(c.output + a + b =~= c.output + (a + b));
    }
}

/// The findings of all repositories are those of the first ones and those of
/// the rest, none lost and none twice.
pub proof fn findings_add_up(a: Seq<Vec<Finding>>, b: Seq<Vec<Finding>>)
    ensures
        all_findings(a + b) == all_findings(a) + all_findings(b),
    decreases a.len(),
{
    if a.len() == 0 {
        assert(a + b =~= b);
        assert(all_findings(a) + all_findings(b) =~= all_findings(b));
    } else {
        assert((a + b).drop_first() =~= a.drop_first() + b);
        findings_add_up(a.drop_first(), b);
        assert(all_findings(a + b) =~= all_findings(a) + all_findings(b));
    }
}

} // verus!
