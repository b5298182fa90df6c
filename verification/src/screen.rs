//! What the screen shows.
//!
//! A screen is plain text with styles: the tabs, the panel of the tab in front,
//! and the footer. Painting it takes no decision.

use vstd::prelude::*;
use crate::backup::{BACKUP_DIR, BACKUP_SH};
use crate::dashboard::{App, AppView, CheckState, CheckView, Tab};
use crate::git::{check_word, Repo};
use crate::hindsight::{BankInfo, API_URL};
use crate::layout::Bound;
use crate::metrics::{metrics_text, show_metrics};
use crate::models::{models_text, show_models};
use crate::text::{decimal, push_decimal, texts};
use crate::theme::{in_color, Color, Config, Style, Theme};

verus! {

broadcast use vstd::string::group_string_axioms;

/// The version of the program.
pub const VERSION: &'static str = "0.1.0";

/// What the projects panel is about.
pub const ABOUT_PROJECTS: &'static str =
    "Every git repository below the projects directory; what needs attention comes first.";

/// What the secrets panel is about.
pub const ABOUT_SECRETS: &'static str =
    "Files that look as if they hold passwords or keys; nothing is changed.";

/// What the status of the service is about.
pub const ABOUT_STATUS: &'static str = "Whether the memory service on this machine answers.";

/// What the number of stale candidates is about.
pub const ABOUT_STALE: &'static str =
    "Stale candidates look outdated; this is a preview of the sweep, nothing is changed.";

/// What the live metrics are about.
pub const ABOUT_METRICS: &'static str =
    "What the service has done since it started, and in brackets since the last look.";

/// What the local models are about.
pub const ABOUT_MODELS: &'static str =
    "The embedder and the reranker run on this machine; this is what the log tells of them.";

/// What the mission is about.
pub const ABOUT_MISSION: &'static str = "What the service is told to look out for.";

/// What the backup panel is about.
pub const ABOUT_BACKUP: &'static str = "Copies of the servers' data on this machine, latest first.";

/// Some text, of one line or of more, and how it looks.
#[derive(Debug, Clone)]
pub struct Line {
    pub text: String,
    pub style: Style,
}

/// Some text by its characters, and how it looks.
pub struct LineView {
    pub text: Seq<char>,
    pub style: Style,
}

impl View for Line {
    type V = LineView;

    open spec fn view(&self) -> LineView {
        LineView { text: self.text@, style: self.style }
    }
}

/// The views of texts with styles.
pub open spec fn line_views(v: Seq<Line>) -> Seq<LineView> {
    v.map_values(|l: Line| l@)
}

/// A row of a table.
#[derive(Debug, Clone)]
pub struct TableRow {
    pub cells: Vec<String>,
    pub style: Style,
}

/// A row of a table, by its texts.
pub struct TableRowView {
    pub cells: Seq<Seq<char>>,
    pub style: Style,
}

impl View for TableRow {
    type V = TableRowView;

    open spec fn view(&self) -> TableRowView {
        TableRowView { cells: texts(self.cells@), style: self.style }
    }
}

/// The views of rows.
pub open spec fn row_views(v: Seq<TableRow>) -> Seq<TableRowView> {
    v.map_values(|r: TableRow| r@)
}

/// What a panel holds: texts one below the other, or a table.
#[derive(Debug, Clone)]
pub enum Body {
    Text(Vec<Line>),
    Table { header: Vec<String>, header_style: Style, widths: Vec<Bound>, rows: Vec<TableRow> },
}

/// What a panel holds, by its texts.
pub enum BodyView {
    Text(Seq<LineView>),
    Table {
        header: Seq<Seq<char>>,
        header_style: Style,
        widths: Seq<Bound>,
        rows: Seq<TableRowView>,
    },
}

impl View for Body {
    type V = BodyView;

    open spec fn view(&self) -> BodyView {
        match self {
            Body::Text(lines) => BodyView::Text(line_views(lines@)),
            Body::Table { header, header_style, widths, rows } => BodyView::Table {
                header: texts(header@),
                header_style: *header_style,
                widths: widths@,
                rows: row_views(rows@),
            },
        }
    }
}

/// A window over the middle of a panel.
#[derive(Debug, Clone)]
pub struct Popup {
    pub title: String,
    pub text: Line,
    /// How much of the panel's width and height it takes, in hundredths.
    pub percent: u16,
}

/// A window over a panel, by its texts.
pub struct PopupView {
    pub title: Seq<char>,
    pub text: LineView,
    pub percent: u16,
}

impl View for Popup {
    type V = PopupView;

    open spec fn view(&self) -> PopupView {
        PopupView { title: self.title@, text: self.text@, percent: self.percent }
    }
}

/// The view of a window that may be there.
pub open spec fn popup_view(p: Option<Popup>) -> Option<PopupView> {
    match p {
        Some(p) => Some(p@),
        None => None,
    }
}

/// A panel.
#[derive(Debug, Clone)]
pub struct Panel {
    pub title: Line,
    /// How the border looks.
    pub border: Style,
    /// What stands above a table.
    pub captions: Vec<Line>,
    pub body: Body,
    pub popup: Option<Popup>,
}

/// A panel, by its texts.
pub struct PanelView {
    pub title: LineView,
    pub border: Style,
    pub captions: Seq<LineView>,
    pub body: BodyView,
    pub popup: Option<PopupView>,
}

impl View for Panel {
    type V = PanelView;

    open spec fn view(&self) -> PanelView {
        PanelView {
            title: self.title@,
            border: self.border,
            captions: line_views(self.captions@),
            body: self.body@,
            popup: popup_view(self.popup),
        }
    }
}

/// The screen.
#[derive(Debug, Clone)]
pub struct Screen {
    pub tabs: Vec<String>,
    /// Which tab is in front.
    pub active: usize,
    pub tab_style: Style,
    pub active_style: Style,
    pub panel: Panel,
    pub footer: Line,
}

/// The screen, by its texts.
pub struct ScreenView {
    pub tabs: Seq<Seq<char>>,
    pub active: usize,
    pub tab_style: Style,
    pub active_style: Style,
    pub panel: PanelView,
    pub footer: LineView,
}

impl View for Screen {
    type V = ScreenView;

    open spec fn view(&self) -> ScreenView {
        ScreenView {
            tabs: texts(self.tabs@),
            active: self.active,
            tab_style: self.tab_style,
            active_style: self.active_style,
            panel: self.panel@,
            footer: self.footer@,
        }
    }
}

/// How a heading looks.
pub open spec fn heading_style(t: Theme) -> Style {
    in_color(t.heading, t.bold)
}

/// How the selection looks.
pub open spec fn selection_style(t: Theme) -> Style {
    Style { fg: Some(Color::Black), bg: Some(t.accent), bold: true }
}

/// How a hint looks.
pub open spec fn muted_style(t: Theme) -> Style {
    in_color(t.muted, false)
}

/// A caption, where captions are wanted.
pub open spec fn caption(a: AppView, about: Seq<char>) -> Seq<LineView> {
    if a.config.verbose {
        seq![LineView { text: about, style: muted_style(a.config.theme) }]
    } else {
        Seq::empty()
    }
}

/// How a repository looks: selected, in need of attention, or in order.
pub open spec fn repo_style(t: Theme, selected: bool, r: Repo) -> Style {
    if selected {
        selection_style(t)
    } else if r.dirty || r.ahead > 0 || r.behind > 0 {
        in_color(t.warn, t.bold)
    } else {
        in_color(t.good, t.bold)
    }
}

/// What the projects panel says of a repository.
pub open spec fn repo_cells(r: Repo) -> Seq<Seq<char>> {
    seq![
        if r.dirty {
            "●"@
        } else {
            " "@
        },
        r.name@,
        r.branch@,
        "↑"@ + decimal(r.ahead as nat) + "↓"@ + decimal(r.behind as nat),
        r.last_commit@,
        check_word(r),
    ]
}

/// How many repositories have changes.
pub open spec fn dirty_count(repos: Seq<Repo>) -> nat {
    repos.filter(|r: Repo| r.dirty).len()
}

/// How many repositories are behind.
pub open spec fn behind_count(repos: Seq<Repo>) -> nat {
    repos.filter(|r: Repo| r.behind > 0).len()
}

/// The window of a command that runs, or has written something.
pub open spec fn command_popup(
    c: CheckView,
    title: Seq<char>,
    while_running: Seq<char>,
    afterwards: Seq<char>,
    percent: u16,
    style: Style,
) -> Option<PopupView> {
    if c.running || c.output.len() > 0 {
        Some(
            PopupView {
                title,
                text: LineView {
                    text: (if c.running {
                        while_running
                    } else {
                        afterwards
                    }) + "\n"@ + c.output,
                    style,
                },
                percent,
            },
        )
    } else {
        None
    }
}

/// The rows of the projects panel.
pub open spec fn repo_rows(a: AppView) -> Seq<TableRowView> {
    Seq::new(
        a.repos.len(),
        |i: int|
            TableRowView {
                cells: repo_cells(a.repos[i]),
                style: repo_style(a.config.theme, i == a.selected, a.repos[i]),
            },
    )
}

/// The projects panel.
pub open spec fn projects_panel(a: AppView) -> PanelView {
    let t = a.config.theme;
    PanelView {
        title: LineView {
            text: "Projects ("@ + decimal(a.repos.len()) + ")  ●dirty:"@ + decimal(
                dirty_count(a.repos),
            ) + "  ↓behind:"@ + decimal(behind_count(a.repos)) + "  Enter: make check"@,
            style: heading_style(t),
        },
        border: in_color(t.border, false),
        captions: caption(a, ABOUT_PROJECTS@),
        body: BodyView::Table {
            header: seq![""@, "repo"@, "branch"@, "a/b"@, "last commit"@, "chk"@],
            header_style: heading_style(t),
            widths: seq![
                Bound::Length(1),
                Bound::Length(20),
                Bound::Length(20),
                Bound::Length(10),
                Bound::Min(20),
                Bound::Length(6),
            ],
            rows: repo_rows(a),
        },
        popup: command_popup(
            a.check,
            "Check"@,
            "running make check…"@,
            "make check result:"@,
            60,
            in_color(t.value, false),
        ),
    }
}

/// The rows of the secrets panel.
pub open spec fn secret_rows(a: AppView) -> Seq<TableRowView> {
    let t = a.config.theme;
    Seq::new(
        a.secrets.len(),
        |i: int|
            TableRowView {
                cells: seq![a.secrets[i].repo@, a.secrets[i].file@, a.secrets[i].reason@],
                style: if i == a.selected {
                    selection_style(t)
                } else {
                    in_color(t.bad, t.bold)
                },
            },
    )
}

/// The secrets panel.
pub open spec fn secrets_panel(a: AppView) -> PanelView {
    let t = a.config.theme;
    PanelView {
        title: LineView {
            text: "Secrets ("@ + decimal(a.secrets.len()) + ")"@,
            style: heading_style(t),
        },
        border: in_color(t.border, false),
        captions: caption(a, ABOUT_SECRETS@),
        body: BodyView::Table {
            header: seq!["repo"@, "file"@, "reason"@],
            header_style: heading_style(t),
            widths: seq![Bound::Length(20), Bound::Min(20), Bound::Min(20)],
            rows: secret_rows(a),
        },
        popup: None,
    }
}

/// Whether the service runs, in words.
pub open spec fn state_line(b: BankInfo) -> Seq<char> {
    if b.running {
        "● RUNNING  (v"@ + b.version@ + ")"@
    } else {
        "○ STOPPED"@
    }
}

/// What Enter and S do on the tab of the service.
pub open spec fn controls(b: BankInfo) -> Seq<char> {
    if b.running {
        "Enter: run stale-memory sweep   S: stop service"@
    } else {
        "Enter: START hindsight-api   (needs the local service up for memory ops)"@
    }
}

/// The numbers of the bank.
pub open spec fn bank_stats(b: BankInfo) -> Seq<char> {
    if b.running {
        "Total memories: "@ + decimal(b.total_memories as nat) + "\nGraph links: "@ + decimal(
            b.total_links as nat,
        ) + "\nDocuments: "@ + decimal(b.total_documents as nat) + "\nBy type: world="@ + decimal(
            b.fact_world as nat,
        ) + " experience="@ + decimal(b.fact_experience as nat) + " observation="@ + decimal(
            b.fact_observation as nat,
        ) + "\nStale candidates (dry-run): "@ + decimal(b.stale_candidates as nat)
    } else {
        "Total memories: -\nStale candidates (dry-run): -"@
    }
}

/// The live metrics, if the service runs and gave them.
pub open spec fn metrics_block(a: AppView) -> Seq<char> {
    if !a.hindsight.running {
        "\nLive metrics (from /metrics): n/a (service down)"@
    } else {
        match a.metrics {
            Some(now) => "\nLive metrics (from /metrics)\n"@ + metrics_text(
                now,
                match a.earlier {
                    Some(earlier) => earlier,
                    None => now,
                },
            ),
            None => "\nLive metrics (from /metrics): n/a"@,
        }
    }
}

/// The local models, if the log tells of them.
pub open spec fn models_block(a: AppView) -> Seq<char> {
    match a.models {
        Some(now) => "\nLocal models (from log)\n"@ + models_text(
            now,
            match a.earlier_models {
                Some(earlier) => earlier,
                None => now,
            },
        ),
        None => "\nLocal models (from log): n/a"@,
    }
}

/// What came of starting or stopping the service.
pub open spec fn service_line(a: AppView) -> Seq<char> {
    if a.service_msg.len() > 0 {
        "Service: "@ + a.service_msg
    } else {
        Seq::empty()
    }
}

/// What a key would do next: what waits to be confirmed, or the controls.
pub open spec fn prompt(a: AppView) -> Seq<char> {
    if a.confirm_stop {
        "CONFIRM STOP: press Y to STOP hindsight-api. Any other key cancels."@
    } else if a.confirm_sweep {
        "WARNING: press Y to APPLY sweep (invalidates stale world/experience memories). Any other key cancels."@
    } else {
        controls(a.hindsight)
    }
}

/// How the prompt looks.
pub open spec fn prompt_style(a: AppView) -> Style {
    let t = a.config.theme;
    if a.confirm_stop || a.confirm_sweep {
        in_color(t.warn, t.bold)
    } else {
        muted_style(t)
    }
}

/// The texts of the panel of the service.
pub open spec fn hindsight_lines(a: AppView) -> Seq<LineView> {
    let t = a.config.theme;
    let plain = in_color(t.value, false);
    seq![
        LineView {
            text: "Status: "@ + state_line(a.hindsight),
            style: if a.hindsight.running {
                in_color(t.good, t.bold)
            } else {
                in_color(t.bad, t.bold)
            },
        },
    ] + caption(a, ABOUT_STATUS@) + seq![
        LineView {
            text: "URL: "@ + API_URL@ + "/health\n\nBank hermes @ localhost:8888\n"@ + bank_stats(
                a.hindsight,
            ),
            style: plain,
        },
    ] + caption(a, ABOUT_STALE@) + seq![
        LineView { text: metrics_block(a), style: plain },
    ] + caption(a, ABOUT_METRICS@) + seq![
        LineView { text: models_block(a), style: plain },
    ] + caption(a, ABOUT_MODELS@) + seq![
        LineView {
            text: "\nObservations mission:\n"@ + a.hindsight.observations_mission@,
            style: plain,
        },
    ] + caption(a, ABOUT_MISSION@) + seq![
        LineView {
            text: "\n"@ + service_line(a) + "\n\n"@ + a.sweep_status + "\n"@,
            style: plain,
        },
        LineView { text: prompt(a), style: prompt_style(a) },
        LineView { text: "\n"@ + controls(a.hindsight), style: muted_style(t) },
    ]
}

/// The panel of the service.
pub open spec fn hindsight_panel(a: AppView) -> PanelView {
    let t = a.config.theme;
    PanelView {
        title: LineView { text: "Hindsight"@, style: heading_style(t) },
        border: in_color(t.border, false),
        captions: Seq::empty(),
        body: BodyView::Text(hindsight_lines(a)),
        popup: None,
    }
}

/// What the backup panel says.
pub open spec fn backup_text(a: AppView) -> Seq<char> {
    "Backup SOP: "@ + BACKUP_SH@
        + "\n\nRuns the existing backup.sh — rsync media + sqlite VACUUM dump\nfrom remote servers cs/ss -> "@
        + BACKUP_DIR@ + ".\n\nEnter: run backup (pulls remote -> local)\n\nLocal backups in "@
        + BACKUP_DIR@ + ":\n"@ + a.backup_list
}

/// The backup panel.
pub open spec fn backup_panel(a: AppView) -> PanelView {
    let t = a.config.theme;
    let plain = in_color(t.value, false);
    PanelView {
        title: LineView { text: "[4] Backup  Enter: run backup.sh"@, style: heading_style(t) },
        border: in_color(t.border, false),
        captions: Seq::empty(),
        body: BodyView::Text(
            caption(a, ABOUT_BACKUP@) + seq![LineView { text: backup_text(a), style: plain }],
        ),
        popup: command_popup(
            a.backup,
            "Backup"@,
            "running backup.sh…"@,
            "backup.sh output:"@,
            70,
            plain,
        ),
    }
}

/// Which tab is in front.
pub open spec fn tab_index(t: Tab) -> usize {
    match t {
        Tab::Projects => 0,
        Tab::Secrets => 1,
        Tab::Hindsight => 2,
        Tab::Backup => 3,
    }
}

/// The panel of the tab in front.
pub open spec fn panel_of(a: AppView) -> PanelView {
    match a.tab {
        Tab::Projects => projects_panel(a),
        Tab::Secrets => secrets_panel(a),
        Tab::Hindsight => hindsight_panel(a),
        Tab::Backup => backup_panel(a),
    }
}

/// What the screen shows.
pub open spec fn screen_of(a: AppView) -> ScreenView {
    let t = a.config.theme;
    ScreenView {
        tabs: seq!["[1] Projects"@, "[2] Secrets"@, "[3] Hindsight"@, "[4] Backup"@],
        active: tab_index(a.tab),
        tab_style: heading_style(t),
        active_style: selection_style(t),
        panel: panel_of(a),
        footer: LineView {
            text: "wf v"@ + VERSION@ + "  |  autoscan "@ + a.last_scan + "\n"@ + a.status,
            style: muted_style(t),
        },
    }
}

/// A text and how it looks.
fn line(text: &str, style: Style) -> (r: Line)
    ensures
        r@ == (LineView { text: text@, style }),
{
    Line { text: text.to_owned(), style }
}

/// A caption, where captions are wanted.
fn push_caption(out: &mut Vec<Line>, app: &App, about: &str)
    ensures
        line_views(final(out)@) == line_views(old(out)@) + caption(app@, about@),
{
    if app.config.verbose {
        out.push(line(about, app.config.theme.muted()));
    }
    assert(line_views(out@) =~= line_views(old(out)@) + caption(app@, about@));
}

/// A text below others.
fn push_line(out: &mut Vec<Line>, text: String, style: Style)
    ensures
        line_views(final(out)@) == line_views(old(out)@) + seq![LineView { text: text@, style }],
{
    out.push(Line { text, style });
    assert(line_views(out@) =~= line_views(old(out)@) + seq![LineView { text: text@, style }]);
}

/// The window of a command that runs, or has written something.
fn popup_of(
    c: &CheckState,
    title: &str,
    while_running: &str,
    afterwards: &str,
    percent: u16,
    style: Style,
) -> (r: Option<Popup>)
    ensures
        popup_view(r) == command_popup(c@, title@, while_running@, afterwards@, percent, style),
{
    if !c.running && c.output.as_str().is_empty() {
        return None;
    }
    let mut text = if c.running {
        while_running.to_owned()
    } else {
        afterwards.to_owned()
    };
    text.append("\n");
    text.append(c.output.as_str());
    Some(Popup { title: title.to_owned(), text: Line { text, style }, percent })
}

/// The row of a repository.
fn repo_row(r: &Repo, selected: bool, t: &Theme) -> (row: TableRow)
    ensures
        row@ == (TableRowView { cells: repo_cells(*r), style: repo_style(*t, selected, *r) }),
{
    let flag = if r.dirty {
        "●"
    } else {
        " "
    };
    let mut counts = "↑".to_owned();
    push_decimal(&mut counts, r.ahead as u64);
    counts.append("↓");
    push_decimal(&mut counts, r.behind as u64);
    let cells = vec![
        flag.to_owned(),
        r.name.clone(),
        r.branch.clone(),
        counts,
        r.last_commit.clone(),
        r.check_label().to_owned(),
    ];
    assert(texts(cells@) =~= repo_cells(*r));
    let style = if selected {
        t.selected()
    } else if r.dirty || r.ahead > 0 || r.behind > 0 {
        t.warn()
    } else {
        t.good()
    };
    TableRow { cells, style }
}

/// The projects panel.
fn draw_projects(app: &App) -> (r: Panel)
    ensures
        r@ == projects_panel(app@),
{
    let ghost a = app@;
    let t = app.config.theme;
    let mut rows: Vec<TableRow> = Vec::new();
    let mut dirty: usize = 0;
    let mut behind: usize = 0;
    let mut i: usize = 0;
    let ghost is_dirty = |r: Repo| r.dirty;
    let ghost is_behind = |r: Repo| r.behind > 0;
    proof {
        reveal(Seq::filter);
        assert(a.repos.take(0).filter(is_dirty) =~= Seq::<Repo>::empty());
        assert(a.repos.take(0).filter(is_behind) =~= Seq::<Repo>::empty());
    }
    while i < app.repos.len()
        invariant
            i <= app.repos@.len(),
            a == app@,
            t == app.config.theme,
            is_dirty == (|r: Repo| r.dirty),
            is_behind == (|r: Repo| r.behind > 0),
            rows@.len() == i,
            forall|j: int| 0 <= j < i ==> (#[trigger] rows@[j])@ == repo_rows(a)[j],
            dirty <= i,
            behind <= i,
            dirty == a.repos.take(i as int).filter(is_dirty).len(),
            behind == a.repos.take(i as int).filter(is_behind).len(),
        decreases app.repos@.len() - i,
    {
        let repo = &app.repos[i];
        rows.push(repo_row(repo, i == app.selected, &t));
        proof {
            reveal(Seq::filter);
            assert(a.repos.take(i + 1).drop_last() =~= a.repos.take(i as int));
        }
        if repo.dirty {
            dirty = dirty + 1;
        }
        if repo.behind > 0 {
            behind = behind + 1;
        }
        i = i + 1;
    }
    assert(a.repos.take(i as int) =~= a.repos);
    assert(row_views(rows@) =~= repo_rows(a));
    let mut title = "Projects (".to_owned();
    push_decimal(&mut title, app.repos.len() as u64);
    title.append(")  ●dirty:");
    push_decimal(&mut title, dirty as u64);
    title.append("  ↓behind:");
    push_decimal(&mut title, behind as u64);
    title.append("  Enter: make check");
    let mut captions: Vec<Line> = Vec::new();
    push_caption(&mut captions, app, ABOUT_PROJECTS);
    assert(line_views(captions@) =~= caption(a, ABOUT_PROJECTS@));
    let header = vec![
        "".to_owned(),
        "repo".to_owned(),
        "branch".to_owned(),
        "a/b".to_owned(),
        "last commit".to_owned(),
        "chk".to_owned(),
    ];
    let widths = vec![
        Bound::Length(1),
        Bound::Length(20),
        Bound::Length(20),
        Bound::Length(10),
        Bound::Min(20),
        Bound::Length(6),
    ];
    assert(texts(header@) =~= seq![""@, "repo"@, "branch"@, "a/b"@, "last commit"@, "chk"@]);
    assert(widths@ =~= seq![
        Bound::Length(1),
        Bound::Length(20),
        Bound::Length(20),
        Bound::Length(10),
        Bound::Min(20),
        Bound::Length(6),
    ]);
    Panel {
        title: Line { text: title, style: t.heading() },
        border: t.border(),
        captions,
        body: Body::Table { header, header_style: t.heading(), widths, rows },
        popup: popup_of(
            &app.check,
            "Check",
            "running make check…",
            "make check result:",
            60,
            t.value(),
        ),
    }
}

/// The secrets panel.
fn draw_secrets(app: &App) -> (r: Panel)
    ensures
        r@ == secrets_panel(app@),
{
    let ghost a = app@;
    let t = app.config.theme;
    let mut rows: Vec<TableRow> = Vec::new();
    let mut i: usize = 0;
    while i < app.secrets.len()
        invariant
            i <= app.secrets@.len(),
            a == app@,
            t == app.config.theme,
            rows@.len() == i,
            forall|j: int| 0 <= j < i ==> (#[trigger] rows@[j])@ == secret_rows(a)[j],
        decreases app.secrets@.len() - i,
    {
        let found = &app.secrets[i];
        let cells = vec![found.repo.clone(), found.file.clone(), found.reason.clone()];
        assert(texts(cells@) =~= seq![found.repo@, found.file@, found.reason@]);
        let style = if i == app.selected {
            t.selected()
        } else {
            t.bad()
        };
        rows.push(TableRow { cells, style });
        i = i + 1;
    }
    assert(row_views(rows@) =~= secret_rows(a));
    let mut title = "Secrets (".to_owned();
    push_decimal(&mut title, app.secrets.len() as u64);
    title.append(")");
    let mut captions: Vec<Line> = Vec::new();
    push_caption(&mut captions, app, ABOUT_SECRETS);
    assert(line_views(captions@) =~= caption(a, ABOUT_SECRETS@));
    let header = vec!["repo".to_owned(), "file".to_owned(), "reason".to_owned()];
    let widths = vec![Bound::Length(20), Bound::Min(20), Bound::Min(20)];
    assert(texts(header@) =~= seq!["repo"@, "file"@, "reason"@]);
    assert(widths@ =~= seq![Bound::Length(20), Bound::Min(20), Bound::Min(20)]);
    Panel {
        title: Line { text: title, style: t.heading() },
        border: t.border(),
        captions,
        body: Body::Table { header, header_style: t.heading(), widths, rows },
        popup: None,
    }
}

/// What Enter and S do on the tab of the service.
fn controls_text(b: &BankInfo) -> (r: &'static str)
    ensures
        r@ == controls(*b),
{
    if b.running {
        "Enter: run stale-memory sweep   S: stop service"
    } else {
        "Enter: START hindsight-api   (needs the local service up for memory ops)"
    }
}

/// Appends the numbers of the bank.
fn push_stats(out: &mut String, b: &BankInfo)
    ensures
        final(out)@ == old(out)@ + bank_stats(*b),
{
    if b.running {
        out.append("Total memories: ");
        push_decimal(out, b.total_memories);
        out.append("\nGraph links: ");
        push_decimal(out, b.total_links);
        out.append("\nDocuments: ");
        push_decimal(out, b.total_documents);
        out.append("\nBy type: world=");
        push_decimal(out, b.fact_world);
        out.append(" experience=");
        push_decimal(out, b.fact_experience);
        out.append(" observation=");
        push_decimal(out, b.fact_observation);
        out.append("\nStale candidates (dry-run): ");
        push_decimal(out, b.stale_candidates as u64);
    } else {
        out.append("Total memories: -\nStale candidates (dry-run): -");
    }
    assert(out@ =~= old(out)@ + bank_stats(*b));
}

/// Whether the service runs, in words.
fn state_text(b: &BankInfo) -> (r: String)
    ensures
        r@ == "Status: "@ + state_line(*b),
{
    let mut r = "Status: ".to_owned();
    if b.running {
        r.append("● RUNNING  (v");
        r.append(b.version.as_str());
        r.append(")");
    } else {
        r.append("○ STOPPED");
    }
    assert(r@ =~= "Status: "@ + state_line(*b));
    r
}

/// Where the bank is, and its numbers.
fn bank_text(b: &BankInfo) -> (r: String)
    ensures
        r@ == "URL: "@ + API_URL@ + "/health\n\nBank hermes @ localhost:8888\n"@ + bank_stats(*b),
{
    let mut r = "URL: ".to_owned();
    r.append(API_URL);
    r.append("/health\n\nBank hermes @ localhost:8888\n");
    push_stats(&mut r, b);
    r
}

/// The live metrics.
fn live_text(app: &App) -> (r: String)
    ensures
        r@ == metrics_block(app@),
{
    if !app.hindsight.running {
        return "\nLive metrics (from /metrics): n/a (service down)".to_owned();
    }
    match &app.metrics {
        Some(now) => {
            let mut r = "\nLive metrics (from /metrics)\n".to_owned();
            let shown = match &app.earlier {
                Some(earlier) => show_metrics(now, earlier),
                None => show_metrics(now, now),
            };
            r.append(shown.as_str());
            r
        },
        None => "\nLive metrics (from /metrics): n/a".to_owned(),
    }
}

/// The local models.
fn local_text(app: &App) -> (r: String)
    ensures
        r@ == models_block(app@),
{
    match &app.models {
        Some(now) => {
            let mut r = "\nLocal models (from log)\n".to_owned();
            let shown = match &app.earlier_models {
                Some(earlier) => show_models(now, earlier),
                None => show_models(now, now),
            };
            r.append(shown.as_str());
            r
        },
        None => "\nLocal models (from log): n/a".to_owned(),
    }
}

/// What came of starting or stopping the service, and of the sweep.
fn news_text(app: &App) -> (r: String)
    ensures
        r@ == "\n"@ + service_line(app@) + "\n\n"@ + app@.sweep_status + "\n"@,
{
    let mut r = "\n".to_owned();
    if !app.service_msg.as_str().is_empty() {
        r.append("Service: ");
        r.append(app.service_msg.as_str());
    }
    assert(r@ =~= "\n"@ + service_line(app@));
    r.append("\n\n");
    r.append(app.sweep_status.as_str());
    r.append("\n");
    r
}

/// What a key would do next.
fn prompt_line(app: &App) -> (r: Line)
    ensures
        r@ == (LineView { text: prompt(app@), style: prompt_style(app@) }),
{
    let t = app.config.theme;
    if app.confirm_stop {
        line(
            "CONFIRM STOP: press Y to STOP hindsight-api. Any other key cancels.",
            t.warn(),
        )
    } else if app.confirm_sweep {
        line(
            "WARNING: press Y to APPLY sweep (invalidates stale world/experience memories). Any other key cancels.",
            t.warn(),
        )
    } else {
        line(controls_text(&app.hindsight), t.muted())
    }
}

/// The texts of the panel of the service.
fn service_lines(app: &App) -> (r: Vec<Line>)
    ensures
        line_views(r@) == hindsight_lines(app@),
{
    let t = app.config.theme;
    let b = &app.hindsight;
    let mut mission = "\nObservations mission:\n".to_owned();
    mission.append(b.observations_mission.as_str());
    let mut keys = "\n".to_owned();
    keys.append(controls_text(b));
    let state_style = if b.running {
        t.good()
    } else {
        t.bad()
    };
    let asked = prompt_line(app);
    let mut lines: Vec<Line> = Vec::new();
    let ghost none = line_views(lines@);
    push_line(&mut lines, state_text(b), state_style);
    assert(none + seq![line_views(lines@)[0]] =~= seq![line_views(lines@)[0]]);
    push_caption(&mut lines, app, ABOUT_STATUS);
    push_line(&mut lines, bank_text(b), t.value());
    push_caption(&mut lines, app, ABOUT_STALE);
    push_line(&mut lines, live_text(app), t.value());
    push_caption(&mut lines, app, ABOUT_METRICS);
    push_line(&mut lines, local_text(app), t.value());
    push_caption(&mut lines, app, ABOUT_MODELS);
    push_line(&mut lines, mission, t.value());
    push_caption(&mut lines, app, ABOUT_MISSION);
    let ghost upper = line_views(lines@);
    push_line(&mut lines, news_text(app), t.value());
    push_line(&mut lines, asked.text, asked.style);
    push_line(&mut lines, keys, t.muted());
    proof {
        let n = upper.len() as int;
        let all = line_views(lines@);
        assert(all =~= upper + seq![all[n], all[n + 1], all[n + 2]]);
    }
    lines
}

/// The panel of the service.
fn draw_hindsight(app: &App) -> (r: Panel)
    ensures
        r@ == hindsight_panel(app@),
{
    let t = app.config.theme;
    let captions: Vec<Line> = Vec::new();
    assert(line_views(captions@) =~= Seq::<LineView>::empty());
    Panel {
        title: line("Hindsight", t.heading()),
        border: t.border(),
        captions,
        body: Body::Text(service_lines(app)),
        popup: None,
    }
}

/// The backup panel.
fn draw_backup(app: &App) -> (r: Panel)
    ensures
        r@ == backup_panel(app@),
{
    let ghost a = app@;
    let t = app.config.theme;
    let mut text = "Backup SOP: ".to_owned();
    text.append(BACKUP_SH);
    text.append(
        "\n\nRuns the existing backup.sh — rsync media + sqlite VACUUM dump\nfrom remote servers cs/ss -> ",
    );
    text.append(BACKUP_DIR);
    text.append(".\n\nEnter: run backup (pulls remote -> local)\n\nLocal backups in ");
    text.append(BACKUP_DIR);
    text.append(":\n");
    text.append(app.backup_list.as_str());
    let mut lines: Vec<Line> = Vec::new();
    push_caption(&mut lines, app, ABOUT_BACKUP);
    push_line(&mut lines, text, t.value());
    assert(line_views(lines@) =~= caption(a, ABOUT_BACKUP@) + seq![
        LineView { text: backup_text(a), style: in_color(t.value, false) },
    ]);
    let captions: Vec<Line> = Vec::new();
    assert(line_views(captions@) =~= Seq::<LineView>::empty());
    Panel {
        title: line("[4] Backup  Enter: run backup.sh", t.heading()),
        border: t.border(),
        captions,
        body: Body::Text(lines),
        popup: popup_of(
            &app.backup,
            "Backup",
            "running backup.sh…",
            "backup.sh output:",
            70,
            t.value(),
        ),
    }
}

/// What the screen shows.
pub fn draw(app: &App) -> (r: Screen)
    ensures
        r@ == screen_of(app@),
{
    let t = app.config.theme;
    let tabs = vec![
        "[1] Projects".to_owned(),
        "[2] Secrets".to_owned(),
        "[3] Hindsight".to_owned(),
        "[4] Backup".to_owned(),
    ];
    assert(texts(tabs@) =~= seq![
        "[1] Projects"@,
        "[2] Secrets"@,
        "[3] Hindsight"@,
        "[4] Backup"@,
    ]);
    let active: usize = match app.tab {
        Tab::Projects => 0,
        Tab::Secrets => 1,
        Tab::Hindsight => 2,
        Tab::Backup => 3,
    };
    let panel = match app.tab {
        Tab::Projects => draw_projects(app),
        Tab::Secrets => draw_secrets(app),
        Tab::Hindsight => draw_hindsight(app),
        Tab::Backup => draw_backup(app),
    };
    let mut footer = "wf v".to_owned();
    footer.append(VERSION);
    footer.append("  |  autoscan ");
    footer.append(app.last_scan.as_str());
    footer.append("\n");
    footer.append(app.status.as_str());
    Screen {
        tabs,
        active,
        tab_style: t.heading(),
        active_style: t.selected(),
        panel,
        footer: Line { text: footer, style: t.muted() },
    }
}

/// Texts one below the other, as one text.
pub open spec fn joined(lines: Seq<LineView>) -> Seq<char>
    decreases lines.len(),
{
    if lines.len() == 0 {
        Seq::empty()
    } else if lines.len() == 1 {
        lines[0].text
    } else {
        lines[0].text + "\n"@ + joined(lines.drop_first())
    }
}

/// Texts one after another, however they are grouped.
proof fn lemma_regroup(a: Seq<char>, b: Seq<char>, c: Seq<char>)
    ensures
        a + (b + c) == a + b + c,
{
    assert(a + (b + c) =~= a + b + c);
}

/// Without captions, the panel of the service reads: its status, its address,
/// the numbers of the bank, the live metrics, the local models, the mission, what
/// came of starting or stopping it, what came of the sweep, the prompt and the
/// controls.
pub proof fn service_panel_reads(a: AppView)
    requires
        !a.config.verbose,
    ensures
        joined(hindsight_lines(a)) == "Status: "@ + state_line(a.hindsight) + "\n"@ + "URL: "@
            + API_URL@ + "/health\n\nBank hermes @ localhost:8888\n"@ + bank_stats(a.hindsight)
            + "\n"@ + metrics_block(a) + "\n"@ + models_block(a) + "\n\nObservations mission:\n"@
            + a.hindsight.observations_mission@ + "\n\n"@ + service_line(a) + "\n\n"@ + a.sweep_status + "\n\n"@ + prompt(a) + "\n\n"@
            + controls(a.hindsight),
{
    let l = hindsight_lines(a);
    let l1 = l.drop_first();
    let l2 = l1.drop_first();
    let l3 = l2.drop_first();
    let l4 = l3.drop_first();
    let l5 = l4.drop_first();
    let l6 = l5.drop_first();
    let l7 = l6.drop_first();
    assert(joined(l7) == l[7].text);
    assert(joined(l6) == l[6].text + "\n"@ + joined(l7));
    assert(joined(l5) == l[5].text + "\n"@ + joined(l6));
    assert(joined(l4) == l[4].text + "\n"@ + joined(l5));
    assert(joined(l3) == l[3].text + "\n"@ + joined(l4));
    assert(joined(l2) == l[2].text + "\n"@ + joined(l3));
    assert(joined(l1) == l[1].text + "\n"@ + joined(l2));
    reveal_strlit("\n");
    reveal_strlit("\n\n");
    reveal_strlit("\nObservations mission:\n");
    reveal_strlit("\n\nObservations mission:\n");
    let n = "\n"@;
    let nn = "\n\n"@;
    let head = "\nObservations mission:\n"@;
    assert(nn =~= n + n);
    assert("\n\nObservations mission:\n"@ =~= n + head);
    let api = "URL: "@ + API_URL@;
    let bank = "/health\n\nBank hermes @ localhost:8888\n"@;
    let q0 = l[0].text + n;
    lemma_regroup(q0, l[1].text + n, joined(l2));
    lemma_regroup(q0, l[1].text, n);
    lemma_regroup(q0, api + bank, bank_stats(a.hindsight));
    lemma_regroup(q0, api, bank);
    lemma_regroup(q0, "URL: "@, API_URL@);
    let q1 = q0 + "URL: "@ + API_URL@ + bank + bank_stats(a.hindsight);
    assert(joined(l) == q1 + n + joined(l2));
    lemma_regroup(q1 + n, l[2].text + n, joined(l3));
    lemma_regroup(q1 + n, l[2].text, n);
    let q2 = q1 + n + metrics_block(a);
    assert(joined(l) == q2 + n + joined(l3));
    lemma_regroup(q2 + n, l[3].text + n, joined(l4));
    lemma_regroup(q2 + n, l[3].text, n);
    let q3 = q2 + n + models_block(a);
    assert(joined(l) == q3 + n + joined(l4));
    lemma_regroup(q3 + n, l[4].text + n, joined(l5));
    lemma_regroup(q3 + n, l[4].text, n);
    lemma_regroup(q3 + n, head, a.hindsight.observations_mission@);
    lemma_regroup(q3, n, head);
    let q4 = q3 + (n + head) + a.hindsight.observations_mission@;
    assert(joined(l) == q4 + n + joined(l5));
    let s = service_line(a);
    let w = a.sweep_status;
    lemma_regroup(q4 + n, l[5].text + n, joined(l6));
    lemma_regroup(q4 + n, l[5].text, n);
    lemma_regroup(q4 + n, n + s + nn + w, n);
    lemma_regroup(q4 + n, n + s + nn, w);
    lemma_regroup(q4 + n, n + s, nn);
    lemma_regroup(q4 + n, n, s);
    lemma_regroup(q4, n, n);
    let q5 = q4 + nn + s + nn + w;
    lemma_regroup(q5, n, n);
    assert(joined(l) == q5 + nn + joined(l6));
    lemma_regroup(q5 + nn, prompt(a) + n, joined(l7));
    lemma_regroup(q5 + nn, prompt(a), n);
    lemma_regroup(q5 + nn + prompt(a) + n, n, controls(a.hindsight));
    lemma_regroup(q5 + nn + prompt(a), n, n);
}

/// The dashboard without captions.
pub open spec fn terse(a: AppView) -> AppView {
    AppView { config: Config { verbose: false, ..a.config }, ..a }
}

/// Captions are muted and only add: the tables, the windows and the titles stay
/// as they are, and so does each text of the panel of the service.
pub proof fn captions_only_add(a: AppView, i: int)
    ensures
        projects_panel(a).body == projects_panel(terse(a)).body,
        projects_panel(a).popup == projects_panel(terse(a)).popup,
        projects_panel(a).title == projects_panel(terse(a)).title,
        secrets_panel(a).body == secrets_panel(terse(a)).body,
        secrets_panel(a).title == secrets_panel(terse(a)).title,
        0 <= i < hindsight_lines(terse(a)).len() ==> hindsight_lines(a).contains(
            hindsight_lines(terse(a))[i],
        ),
        a.config.verbose ==> hindsight_lines(a).len() == hindsight_lines(terse(a)).len() + 5,
        forall|about: Seq<char>, j: int|
            #![trigger caption(a, about)[j]]
            0 <= j < caption(a, about).len() ==> caption(a, about)[j].style == muted_style(
                a.config.theme,
            ),
{
    assert(repo_rows(a) =~= repo_rows(terse(a)));
    assert(secret_rows(a) =~= secret_rows(terse(a)));
    let v = hindsight_lines(a);
    let w = hindsight_lines(terse(a));
    if 0 <= i < w.len() {
        let k = if !a.config.verbose {
            i
        } else if i == 0 {
            0
        } else if i == 1 {
            2
        } else if i == 2 {
            4
        } else if i == 3 {
            6
        } else if i == 4 {
            8
        } else {
            i + 5
        };
        assert(v[k] == w[i]);
    }
}

/// What waits to be confirmed is shown, in the colour of caution.
pub proof fn pending_is_shown(a: AppView)
    requires
        a.tab == Tab::Hindsight,
        a.confirm_stop || a.confirm_sweep,
    ensures
        panel_of(a).body is Text,
        panel_of(a).body->Text_0.contains(
            LineView { text: prompt(a), style: in_color(a.config.theme.warn, a.config.theme.bold) },
        ),
{
    let l = hindsight_lines(a);
    assert(l[l.len() - 2] == (LineView {
        text: prompt(a),
        style: in_color(a.config.theme.warn, a.config.theme.bold),
    }));
}

} // verus!
