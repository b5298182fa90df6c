//! The screen, painted into a buffer.

use ratatui::backend::TestBackend;
use ratatui::layout::{Constraint, Rect};
use ratatui::text::{Line as TextLine, Span};
use ratatui::widgets::{Block, Borders, Paragraph, Row, Table, Tabs};
use ratatui::{Frame, Terminal};
use wf::dashboard::{App, CheckState, ScanData, Tab};
use wf::git::{Repo, RepoPath};
use wf::hindsight::BankInfo;
use wf::layout::{centered_rect, screen_areas, Area, Bound};
use wf::metrics::parse_metrics;
use wf::models::Models;
use wf::screen::{draw, Body, Line, Screen, VERSION};
use wf::secrets::Finding;
use wf::theme::{Color, Config, Style, Theme};

fn sample_app() -> App {
    let mut app = App::new(
        ScanData {
            repos: vec![],
            secrets: vec![],
            hindsight: BankInfo::default(),
            metrics: None,
            models: None,
            backup_list: String::new(),
            stamp: String::new(),
        },
        Config::default(),
    );
    app.status = String::new();
    app
}

fn running_bank() -> BankInfo {
    BankInfo {
        running: true,
        version: "0.8.4".into(),
        total_memories: 1339,
        total_links: 100705,
        total_documents: 17,
        fact_world: 1136,
        fact_experience: 230,
        fact_observation: 246,
        stale_candidates: 9,
        ..Default::default()
    }
}

fn repo(name: &str, dirty: bool, ahead: u32, behind: u32) -> Repo {
    Repo {
        path: RepoPath { parts: vec![name.as_bytes().to_vec()] },
        name: name.into(),
        branch: "main".into(),
        ahead,
        behind,
        dirty,
        last_commit: "abc123 first".into(),
        has_makefile: dirty,
        has_cargo_toml: ahead > 0,
    }
}

fn rect(a: Area) -> Rect {
    Rect::new(a.x, a.y, a.width, a.height)
}

fn area(r: Rect) -> Area {
    Area { x: r.x, y: r.y, width: r.width, height: r.height }
}

fn spans(lines: &[Line]) -> Vec<TextLine<'static>> {
    let mut out = vec![];
    for l in lines {
        for t in l.text.split('\n') {
            out.push(TextLine::from(Span::raw(t.to_string())));
        }
    }
    out
}

fn paint(f: &mut Frame, screen: &Screen) {
    let parts = screen_areas(area(f.area()));
    f.render_widget(Tabs::new(screen.tabs.clone()).select(screen.active), rect(parts.tabs));
    let block =
        Block::default().borders(Borders::ALL).title(screen.panel.title.text.clone());
    match &screen.panel.body {
        Body::Text(lines) => {
            f.render_widget(Paragraph::new(spans(lines)).block(block), rect(parts.panel));
        }
        Body::Table { header, widths, rows, .. } => {
            let inner = block.inner(rect(parts.panel));
            f.render_widget(block, rect(parts.panel));
            let above = spans(&screen.panel.captions);
            let taken = (above.len() as u16).min(inner.height);
            f.render_widget(
                Paragraph::new(above),
                Rect::new(inner.x, inner.y, inner.width, taken),
            );
            let widths: Vec<Constraint> = widths
                .iter()
                .map(|b| match b {
                    Bound::Length(n) => Constraint::Length(*n),
                    Bound::Min(n) => Constraint::Min(*n),
                    Bound::Percentage(n) => Constraint::Percentage(*n),
                })
                .collect();
            let rows: Vec<Row> = rows.iter().map(|r| Row::new(r.cells.clone())).collect();
            let table = Table::new(rows, widths).header(Row::new(header.clone()));
            let below = Rect::new(inner.x, inner.y + taken, inner.width, inner.height - taken);
            f.render_widget(table, below);
        }
    }
    if let Some(p) = &screen.panel.popup {
        let at = centered_rect(p.percent, p.percent, parts.panel);
        let block = Block::default().borders(Borders::ALL).title(p.title.clone());
        f.render_widget(Paragraph::new(p.text.text.clone()).block(block), rect(at));
    }
    f.render_widget(Paragraph::new(screen.footer.text.clone()), rect(parts.footer));
}

fn rendered(app: &App) -> String {
    let backend = TestBackend::new(100, 40);
    let mut term = Terminal::new(backend).expect("terminal");
    let screen = draw(app);
    term.draw(|f| paint(f, &screen)).expect("draw");
    term.backend().buffer().content().iter().map(|c| c.symbol()).collect()
}

fn text_of(app: &App) -> String {
    match draw(app).panel.body {
        Body::Text(lines) => {
            let texts: Vec<String> = lines.iter().map(|l| l.text.clone()).collect();
            texts.join("\n")
        }
        Body::Table { .. } => panic!("a table"),
    }
}

#[test]
fn hindsight_panel_renders_status() {
    let mut app = sample_app();
    app.tab = Tab::Hindsight;
    app.hindsight = BankInfo {
        running: true,
        version: "0.8.4".into(),
        total_memories: 1339,
        total_links: 100705,
        total_documents: 17,
        fact_world: 1136,
        fact_experience: 230,
        fact_observation: 246,
        stale_candidates: 9,
        ..Default::default()
    };
    let rendered = rendered(&app);
    assert!(
        rendered.contains("RUNNING"),
        "Hindsight status (RUNNING) missing from render:\n{rendered}"
    );
    assert!(
        rendered.contains("stop service"),
        "service controls missing from render:\n{rendered}"
    );
    assert!(
        rendered.contains("Graph links:"),
        "bank statistics missing from render:\n{rendered}"
    );
}

#[test]
fn running_panel_text() {
    let mut app = sample_app();
    app.tab = Tab::Hindsight;
    app.hindsight = running_bank();
    app.hindsight.observations_mission = "watch".into();
    assert_eq!(
        text_of(&app),
        "Status: ● RUNNING  (v0.8.4)\nURL: http://127.0.0.1:8888/health\n\nBank hermes @ \
         localhost:8888\nTotal memories: 1339\nGraph links: 100705\nDocuments: 17\nBy type: \
         world=1136 experience=230 observation=246\nStale candidates (dry-run): 9\n\nLive metrics \
         (from /metrics): n/a\n\nLocal models (from log): n/a\n\nObservations mission:\nwatch\n\n\n\n\n\nEnter: run stale-memory \
         sweep   S: stop service\n\nEnter: run stale-memory sweep   S: stop service"
    );
}

#[test]
fn stopped_panel_text() {
    let mut app = sample_app();
    app.tab = Tab::Hindsight;
    app.service_msg = "hindsight-api not running".into();
    app.sweep_status = "sweep applied: invalidated=1 failed=0".into();
    assert_eq!(
        text_of(&app),
        "Status: ○ STOPPED\nURL: http://127.0.0.1:8888/health\n\nBank hermes @ \
         localhost:8888\nTotal memories: -\nStale candidates (dry-run): -\n\nLive metrics (from \
         /metrics): n/a (service down)\n\nLocal models (from log): n/a\n\nObservations mission:\n\n\nService: hindsight-api not \
         running\n\nsweep applied: invalidated=1 failed=0\n\nEnter: START hindsight-api   (needs \
         the local service up for memory ops)\n\nEnter: START hindsight-api   (needs the local \
         service up for memory ops)"
    );
}

#[test]
fn live_metrics_stand_in_the_panel() {
    let mut app = sample_app();
    app.tab = Tab::Hindsight;
    app.hindsight = running_bank();
    app.metrics = Some(parse_metrics("hindsight_llm_calls_total{scope=\"retain\"} 7.0\n"));
    assert!(text_of(&app).contains("Live metrics (from /metrics)\nLLM calls: 7 (+0/scan)"));
    app.earlier = Some(parse_metrics("hindsight_llm_calls_total{scope=\"retain\"} 4.0\n"));
    assert!(text_of(&app).contains("LLM calls: 7 (+3/scan)"));
    app.hindsight.running = false;
    assert!(text_of(&app).contains("Live metrics (from /metrics): n/a (service down)"));
    assert!(rendered(&app).contains("n/a (service down)"));
}

#[test]
fn local_models_stand_in_the_panel() {
    let mut app = sample_app();
    app.tab = Tab::Hindsight;
    let now = Models {
        reranker_calls: 7,
        reranker_candidates: 140,
        reranker_latency: 12,
        retain_units: 30,
        query_embeds: 9,
        consolidation_calls: 2,
    };
    app.models = Some(now);
    assert!(text_of(&app).contains("\n\nLocal models (from log)\nReranker: calls=7 (+0/scan)"));
    app.earlier_models = Some(Models { reranker_calls: 5, query_embeds: 8, ..now });
    assert!(text_of(&app).contains(
        "Reranker: calls=7 (+2/scan) candidates=140 (+0/scan) latency=12 ms\nEmbedder: \
         retain-units=30 (+0/scan) query-embeds=9 (+1/scan) consolidation-calls=2 (+0/scan)\n"
    ));
}

#[test]
fn pending_confirmations_are_prompted() {
    let mut app = sample_app();
    app.tab = Tab::Hindsight;
    app.hindsight = running_bank();
    app.confirm_sweep = true;
    assert!(text_of(&app).contains(
        "\n\nWARNING: press Y to APPLY sweep (invalidates stale world/experience memories). Any \
         other key cancels.\n\nEnter: run stale-memory sweep   S: stop service"
    ));
    app.confirm_stop = true;
    assert!(text_of(&app).contains(
        "\n\nCONFIRM STOP: press Y to STOP hindsight-api. Any other key cancels.\n\nEnter:"
    ));
    let warn = app.config.theme.warn();
    match draw(&app).panel.body {
        Body::Text(lines) => {
            assert!(lines.iter().any(|l| l.style == warn && l.text.starts_with("CONFIRM STOP")));
        }
        Body::Table { .. } => panic!("a table"),
    }
}

#[test]
fn tabs_and_footer_are_painted() {
    let mut app = sample_app();
    app.last_scan = "12:34:56".into();
    app.status = "refreshed".into();
    let all = rendered(&app);
    for label in ["[1] Projects", "[2] Secrets", "[3] Hindsight", "[4] Backup"] {
        assert!(all.contains(label), "{label} missing:\n{all}");
    }
    assert!(all.contains("wf v0.1.0  |  autoscan 12:34:56"), "footer missing:\n{all}");
    assert!(all.contains("refreshed"), "status missing:\n{all}");
    assert_eq!(VERSION, "0.1.0");
    assert_eq!(draw(&app).footer.text, "wf v0.1.0  |  autoscan 12:34:56\nrefreshed");
}

#[test]
fn each_tab_is_in_front() {
    let mut app = sample_app();
    for (tab, index, title) in [
        (Tab::Projects, 0, "Projects (0)  ●dirty:0  ↓behind:0  Enter: make check"),
        (Tab::Secrets, 1, "Secrets (0)"),
        (Tab::Hindsight, 2, "Hindsight"),
        (Tab::Backup, 3, "[4] Backup  Enter: run backup.sh"),
    ] {
        app.tab = tab;
        let screen = draw(&app);
        assert_eq!(screen.active, index);
        assert_eq!(screen.panel.title.text, title);
    }
}

#[test]
fn project_rows() {
    let mut app = sample_app();
    app.repos = vec![repo("a", true, 0, 2), repo("b", false, 1, 0), repo("c", false, 0, 0)];
    app.selected = 1;
    let t = app.config.theme;
    let panel = draw(&app).panel;
    assert_eq!(panel.title.text, "Projects (3)  ●dirty:1  ↓behind:1  Enter: make check");
    match &panel.body {
        Body::Table { header, rows, widths, .. } => {
            assert_eq!(header.join("|"), "|repo|branch|a/b|last commit|chk");
            assert_eq!(widths.len(), 6);
            assert_eq!(rows[0].cells.join("|"), "●|a|main|↑0↓2|abc123 first|make");
            assert_eq!(rows[1].cells.join("|"), " |b|main|↑1↓0|abc123 first|cargo");
            assert_eq!(rows[2].cells.join("|"), " |c|main|↑0↓0|abc123 first|-");
            assert_eq!(rows[0].style, t.warn());
            assert_eq!(rows[1].style, t.selected());
            assert_eq!(rows[2].style, t.good());
        }
        Body::Text(_) => panic!("a text"),
    }
    let all = rendered(&app);
    assert!(all.contains("↑0↓2"), "{all}");
    assert!(all.contains("abc123 first"), "{all}");
}

#[test]
fn secret_rows() {
    let mut app = sample_app();
    app.tab = Tab::Secrets;
    app.secrets = vec![
        Finding { repo: "r".into(), file: ".env".into(), reason: "why".into() },
        Finding { repo: "s".into(), file: "k.pem".into(), reason: "so".into() },
    ];
    let t = app.config.theme;
    let panel = draw(&app).panel;
    assert_eq!(panel.title.text, "Secrets (2)");
    assert!(panel.popup.is_none());
    match &panel.body {
        Body::Table { header, rows, widths, .. } => {
            assert_eq!(header.join("|"), "repo|file|reason");
            assert_eq!(widths, &vec![Bound::Length(20), Bound::Min(20), Bound::Min(20)]);
            assert_eq!(rows[0].cells.join("|"), "r|.env|why");
            assert_eq!(rows[0].style, t.selected());
            assert_eq!(rows[1].cells.join("|"), "s|k.pem|so");
            assert_eq!(rows[1].style, t.bad());
        }
        Body::Text(_) => panic!("a text"),
    }
    assert!(rendered(&app).contains("k.pem"));
}

#[test]
fn check_popup_shows() {
    let mut app = sample_app();
    assert!(draw(&app).panel.popup.is_none());
    app.check = CheckState { running: true, output: String::new() };
    let p = draw(&app).panel.popup.expect("popup");
    assert_eq!((p.title.as_str(), p.text.text.as_str(), p.percent), ("Check", "running make check…\n", 60));
    app.check = CheckState { running: false, output: "ok".into() };
    let p = draw(&app).panel.popup.expect("popup");
    assert_eq!(p.text.text, "make check result:\nok");
    assert!(rendered(&app).contains("make check result:"));
}

#[test]
fn backup_panel_shows() {
    let mut app = sample_app();
    app.tab = Tab::Backup;
    app.backup_list = "total 0".into();
    assert_eq!(
        text_of(&app),
        "Backup SOP: /home/nayem/Projects/workflows/backup.sh\n\nRuns the existing backup.sh — \
         rsync media + sqlite VACUUM dump\nfrom remote servers cs/ss -> \
         /home/nayem/Projects/Backups.\n\nEnter: run backup (pulls remote -> local)\n\nLocal \
         backups in /home/nayem/Projects/Backups:\ntotal 0"
    );
    assert!(draw(&app).panel.popup.is_none());
    app.backup = CheckState { running: true, output: String::new() };
    let p = draw(&app).panel.popup.expect("popup");
    assert_eq!((p.title.as_str(), p.text.text.as_str(), p.percent), ("Backup", "running backup.sh…\n", 70));
    app.backup = CheckState { running: false, output: "done (no output)".into() };
    assert_eq!(
        draw(&app).panel.popup.expect("popup").text.text,
        "backup.sh output:\ndone (no output)"
    );
}

#[test]
fn captions_add_muted_lines() {
    let mut app = sample_app();
    app.tab = Tab::Hindsight;
    let terse = match draw(&app).panel.body {
        Body::Text(lines) => lines.len(),
        Body::Table { .. } => 0,
    };
    app.config.verbose = true;
    let muted = app.config.theme.muted();
    match draw(&app).panel.body {
        Body::Text(lines) => {
            assert_eq!(lines.len(), terse + 5);
            assert!(lines.iter().any(|l| l.style == muted && l.text.contains("Stale candidates")));
        }
        Body::Table { .. } => panic!("a table"),
    }
    app.tab = Tab::Projects;
    assert_eq!(draw(&app).panel.captions.len(), 1);
    assert_eq!(draw(&app).panel.captions[0].style, muted);
    app.config.verbose = false;
    assert!(draw(&app).panel.captions.is_empty());
}

#[test]
fn panels_take_the_colours_of_the_theme() {
    let mut app = sample_app();
    app.config.theme = Theme::mono();
    let screen = draw(&app);
    let plain = Style { fg: Some(Color::Reset), bg: None, bold: false };
    assert_eq!(screen.tab_style, plain);
    assert_eq!(screen.panel.border, plain);
    assert_eq!(screen.panel.title.style, plain);
    assert_eq!(screen.footer.style, plain);
    app.config.theme = Theme::high_contrast();
    assert_eq!(
        draw(&app).tab_style,
        Style { fg: Some(Color::LightCyan), bg: None, bold: true }
    );
    app.tab = Tab::Hindsight;
    match draw(&app).panel.body {
        Body::Text(lines) => {
            assert_eq!(lines[0].style.fg, Some(Color::LightRed));
        }
        Body::Table { .. } => panic!("a table"),
    }
}
