//! Laws of what is shown and printed, of the layout and of the themes.

use vstd::prelude::*;
use crate::dashboard::{AppView, Tab};
use crate::git::Repo;
use crate::headless::{bank_lines, finding_line, mode_asked, repo_line, Mode};
use crate::hindsight::BankInfo;
use crate::laws::text::{decimals_differ, end_is_found, longer_texts_keep};
use crate::layout::edge;
use crate::metrics::{metrics_text, Metrics};
use crate::models::{models_text, Models};
use crate::screen::{
    backup_text, bank_stats, behind_count, dirty_count, hindsight_lines, metrics_block,
    models_block, panel_of, prompt, screen_of, service_line, state_line, BodyView,
};
use crate::secrets::Finding;
use crate::text::{ascii_lowered, begins, decimal, ends, has_text};
use crate::theme::{
    built_in, config_of, config_text, theme_after, theme_named, Color, SettingView, Style, Theme,
};

verus! {

broadcast use vstd::string::group_string_axioms;

proof fn triple_is_found(s: Seq<char>, a: Seq<char>, b: Seq<char>, c: Seq<char>)
    ensures
        has_text(s + a + b + c, a + b + c),
{
    vstd::seq_lib::lemma_concat_associative(s, a, b);
    vstd::seq_lib::lemma_concat_associative(s, a + b, c);
    end_is_found(s, a + b + c);
}

/// The projects panel has one row for each repository, in their order, with its
/// name, its branch, its counts and its last commit; the dot is there exactly if
/// it has changes.
pub proof fn each_repository_has_its_row(a: AppView, i: int)
    requires
        a.tab == Tab::Projects,
        0 <= i < a.repos.len(),
    ensures
        panel_of(a).body is Table,
        panel_of(a).body->rows.len() == a.repos.len(),
        panel_of(a).body->rows[i].cells.len() == panel_of(a).body->header.len(),
        panel_of(a).body->rows[i].cells.len() == panel_of(a).body->widths.len(),
        panel_of(a).body->rows[i].cells[0] == "●"@ <==> a.repos[i].dirty,
        panel_of(a).body->rows[i].cells[1] == a.repos[i].name@,
        panel_of(a).body->rows[i].cells[2] == a.repos[i].branch@,
        panel_of(a).body->rows[i].cells[3] == "↑"@ + decimal(a.repos[i].ahead as nat) + "↓"@
            + decimal(a.repos[i].behind as nat),
        panel_of(a).body->rows[i].cells[4] == a.repos[i].last_commit@,
        a.repos[i].has_makefile ==> panel_of(a).body->rows[i].cells[5] == "make"@,
        !a.repos[i].has_makefile && a.repos[i].has_cargo_toml ==> panel_of(
            a,
        ).body->rows[i].cells[5] == "cargo"@,
        !a.repos[i].has_makefile && !a.repos[i].has_cargo_toml ==> panel_of(
            a,
        ).body->rows[i].cells[5] == "-"@,
{
    reveal_strlit("●");
    reveal_strlit(" ");
    assert("●"@[0] == '●');
    assert(" "@[0] == ' ');
}

/// The row that is selected, and no other, is marked; of the others, those that
/// need attention are in the colour of warnings and the rest in that of good news.
pub proof fn rows_look_as_they_are(a: AppView, i: int)
    requires
        a.tab == Tab::Projects,
        0 <= i < a.repos.len(),
    ensures
        i == a.selected ==> panel_of(a).body->rows[i].style == (Style {
            fg: Some(Color::Black),
            bg: Some(a.config.theme.accent),
            bold: true,
        }),
        i != a.selected ==> panel_of(a).body->rows[i].style.bg is None,
        i != a.selected && (a.repos[i].dirty || a.repos[i].ahead > 0 || a.repos[i].behind > 0)
            ==> panel_of(a).body->rows[i].style.fg == Some(a.config.theme.warn),
        i != a.selected && !a.repos[i].dirty && a.repos[i].ahead == 0 && a.repos[i].behind == 0
            ==> panel_of(a).body->rows[i].style.fg == Some(a.config.theme.good),
        i != a.selected ==> panel_of(a).body->rows[i].style.bold == a.config.theme.bold,
{
}

/// The counts in the title add up over the repositories, one for each that has
/// changes or is behind.
pub proof fn title_counts_add_up(a: Seq<Repo>, b: Seq<Repo>, r: Repo)
    ensures
        dirty_count(a + b) == dirty_count(a) + dirty_count(b),
        behind_count(a + b) == behind_count(a) + behind_count(b),
        r.dirty ==> dirty_count(seq![r]) == 1,
        !r.dirty ==> dirty_count(seq![r]) == 0,
        r.behind > 0 ==> behind_count(seq![r]) == 1,
        r.behind == 0 ==> behind_count(seq![r]) == 0,
{
    let d = |r: Repo| r.dirty;
    let h = |r: Repo| r.behind > 0;
    Seq::filter_distributes_over_add(a, b, d);
    Seq::filter_distributes_over_add(a, b, h);
    crate::seqs::lemma_filter_one(r, d);
    crate::seqs::lemma_filter_one(r, h);
}

/// The title of the projects says how many there are, how many have changes and
/// how many are behind.
pub proof fn the_title_counts(a: AppView)
    requires
        a.tab == Tab::Projects,
    ensures
        begins(panel_of(a).title.text, "Projects ("@ + decimal(a.repos.len()) + ")"@),
        has_text(
            panel_of(a).title.text,
            "dirty:"@ + decimal(a.repos.filter(|r: Repo| r.dirty).len()) + "  ↓behind:"@,
        ),
        has_text(
            panel_of(a).title.text,
            "behind:"@ + decimal(a.repos.filter(|r: Repo| r.behind > 0).len())
                + "  Enter: make check"@,
        ),
{
    broadcast use longer_texts_keep;

    let t = panel_of(a).title.text;
    let n = decimal(a.repos.len());
    let d = decimal(a.repos.filter(|r: Repo| r.dirty).len());
    let h = decimal(a.repos.filter(|r: Repo| r.behind > 0).len());
    reveal_strlit(")  ●dirty:");
    reveal_strlit(")");
    reveal_strlit("dirty:");
    reveal_strlit("  ↓behind:");
    reveal_strlit("behind:");
    let p = "Projects ("@ + n + ")"@;
    assert(t.subrange(0, p.len() as int) =~= p);
    let s1 = "Projects ("@ + n + ")  ●dirty:"@.take(4);
    assert(")  ●dirty:"@ =~= ")  ●dirty:"@.take(4) + "dirty:"@);
    assert("Projects ("@ + n + ")  ●dirty:"@ =~= s1 + "dirty:"@);
    triple_is_found(s1, "dirty:"@, d, "  ↓behind:"@);
    let s2 = "Projects ("@ + n + ")  ●dirty:"@ + d + "  ↓behind:"@.take(3);
    assert("  ↓behind:"@ =~= "  ↓behind:"@.take(3) + "behind:"@);
    assert("Projects ("@ + n + ")  ●dirty:"@ + d + "  ↓behind:"@ =~= s2 + "behind:"@);
    triple_is_found(s2, "behind:"@, h, "  Enter: make check"@);
}

/// The secrets panel has one row for each finding, in their order, and its title
/// counts them.
pub proof fn each_finding_has_its_row(a: AppView, i: int)
    requires
        a.tab == Tab::Secrets,
        0 <= i < a.secrets.len(),
    ensures
        panel_of(a).body is Table,
        panel_of(a).body->rows.len() == a.secrets.len(),
        panel_of(a).body->rows[i].cells.len() == panel_of(a).body->header.len(),
        panel_of(a).body->rows[i].cells.len() == panel_of(a).body->widths.len(),
        panel_of(a).body->rows[i].cells[0] == a.secrets[i].repo@,
        panel_of(a).body->rows[i].cells[1] == a.secrets[i].file@,
        panel_of(a).body->rows[i].cells[2] == a.secrets[i].reason@,
        i == a.selected ==> panel_of(a).body->rows[i].style == (Style {
            fg: Some(Color::Black),
            bg: Some(a.config.theme.accent),
            bold: true,
        }),
        i != a.selected ==> panel_of(a).body->rows[i].style.fg == Some(a.config.theme.bad),
        i != a.selected ==> panel_of(a).body->rows[i].style.bg is None,
        panel_of(a).title.text == "Secrets ("@ + decimal(a.secrets.len()) + ")"@,
{
}

/// The window of a check or of a backup is there exactly while it runs or if it
/// wrote something, and shows the whole of what it wrote.
pub proof fn windows_show_all_that_was_written(a: AppView)
    ensures
        a.tab == Tab::Projects ==> (panel_of(a).popup is Some <==> a.check.running
            || a.check.output.len() > 0),
        a.tab == Tab::Backup ==> (panel_of(a).popup is Some <==> a.backup.running
            || a.backup.output.len() > 0),
        a.tab == Tab::Secrets || a.tab == Tab::Hindsight ==> panel_of(a).popup is None,
        a.tab == Tab::Projects && a.check.running ==> panel_of(a).popup->0.text.text
            == "running make check…"@ + "\n"@ + a.check.output,
        a.tab == Tab::Projects && !a.check.running && a.check.output.len() > 0 ==> panel_of(
            a,
        ).popup->0.text.text == "make check result:"@ + "\n"@ + a.check.output,
        a.tab == Tab::Backup && a.backup.running ==> panel_of(a).popup->0.text.text
            == "running backup.sh…"@ + "\n"@ + a.backup.output,
        a.tab == Tab::Backup && !a.backup.running && a.backup.output.len() > 0 ==> panel_of(
            a,
        ).popup->0.text.text == "backup.sh output:"@ + "\n"@ + a.backup.output,
{
}

/// Each number of the bank stands behind its name.
pub proof fn each_number_of_the_bank_is_shown(b: BankInfo)
    requires
        b.running,
    ensures
        begins(
            bank_stats(b),
            "Total memories: "@ + decimal(b.total_memories as nat) + "\nGraph links: "@,
        ),
        has_text(
            bank_stats(b),
            "\nGraph links: "@ + decimal(b.total_links as nat) + "\nDocuments: "@,
        ),
        has_text(
            bank_stats(b),
            "\nDocuments: "@ + decimal(b.total_documents as nat) + "\nBy type: world="@,
        ),
        has_text(
            bank_stats(b),
            "\nBy type: world="@ + decimal(b.fact_world as nat) + " experience="@,
        ),
        has_text(
            bank_stats(b),
            " experience="@ + decimal(b.fact_experience as nat) + " observation="@,
        ),
        has_text(
            bank_stats(b),
            " observation="@ + decimal(b.fact_observation as nat)
                + "\nStale candidates (dry-run): "@,
        ),
        ends(
            bank_stats(b),
            "\nStale candidates (dry-run): "@ + decimal(b.stale_candidates as nat),
        ),
{
    broadcast use longer_texts_keep;

    let l1 = "Total memories: "@;
    let d1 = decimal(b.total_memories as nat);
    let l2 = "\nGraph links: "@;
    let d2 = decimal(b.total_links as nat);
    let l3 = "\nDocuments: "@;
    let d3 = decimal(b.total_documents as nat);
    let l4 = "\nBy type: world="@;
    let d4 = decimal(b.fact_world as nat);
    let l5 = " experience="@;
    let d5 = decimal(b.fact_experience as nat);
    let l6 = " observation="@;
    let d6 = decimal(b.fact_observation as nat);
    let l7 = "\nStale candidates (dry-run): "@;
    let d7 = decimal(b.stale_candidates as nat);
    let s1 = l1 + d1;
    let s2 = s1 + l2 + d2;
    let s3 = s2 + l3 + d3;
    let s4 = s3 + l4 + d4;
    let s5 = s4 + l5 + d5;
    let s6 = s5 + l6 + d6;
    let p = l1 + d1 + l2;
    assert(bank_stats(b).subrange(0, p.len() as int) =~= p);
    triple_is_found(s1, l2, d2, l3);
    triple_is_found(s2, l3, d3, l4);
    triple_is_found(s3, l4, d4, l5);
    triple_is_found(s4, l5, d5, l6);
    triple_is_found(s5, l6, d6, l7);
    assert(bank_stats(b) == s6 + l7 + d7);
    vstd::seq_lib::lemma_concat_associative(s6, l7, d7);
    end_is_found(s6, l7 + d7);
}

/// Of a service that does not answer, no number is shown.
pub proof fn no_numbers_of_a_stopped_service(a: AppView)
    requires
        !a.hindsight.running,
    ensures
        bank_stats(a.hindsight) == "Total memories: -\nStale candidates (dry-run): -"@,
        state_line(a.hindsight) == "○ STOPPED"@,
        metrics_block(a) == "\nLive metrics (from /metrics): n/a (service down)"@,
{
}

/// The metrics of a service that answers are shown against those of the scan
/// before; at the first scan, against themselves.
pub proof fn metrics_are_compared_with_the_scan_before(
    a: AppView,
    now: Metrics,
    earlier: Metrics,
    m: Models,
    e: Models,
)
    requires
        a.hindsight.running,
    ensures
        state_line(a.hindsight) == "● RUNNING  (v"@ + a.hindsight.version@ + ")"@,
        a.metrics == Some(now) && a.earlier == Some(earlier) ==> ends(
            metrics_block(a),
            metrics_text(now, earlier),
        ),
        a.metrics == Some(now) && a.earlier is None ==> ends(metrics_block(a), metrics_text(now, now)),
        a.metrics is None ==> metrics_block(a) == "\nLive metrics (from /metrics): n/a"@,
        a.models == Some(m) && a.earlier_models == Some(e) ==> ends(
            models_block(a),
            models_text(m, e),
        ),
        a.models == Some(m) && a.earlier_models is None ==> ends(models_block(a), models_text(m, m)),
        a.models is None ==> models_block(a) == "\nLocal models (from log): n/a"@,
{
    end_is_found("\nLive metrics (from /metrics)\n"@, metrics_text(now, earlier));
    end_is_found("\nLive metrics (from /metrics)\n"@, metrics_text(now, now));
    end_is_found("\nLocal models (from log)\n"@, models_text(m, e));
    end_is_found("\nLocal models (from log)\n"@, models_text(m, m));
}

/// What waits to be confirmed is what the prompt asks: to stop before to sweep; and
/// where nothing waits, the prompt says what the keys do.
pub proof fn the_prompt_asks_for_what_waits(a: AppView)
    ensures
        a.confirm_stop ==> prompt(a)
            == "CONFIRM STOP: press Y to STOP hindsight-api. Any other key cancels."@,
        !a.confirm_stop && a.confirm_sweep ==> prompt(a)
            == "WARNING: press Y to APPLY sweep (invalidates stale world/experience memories). Any other key cancels."@,
        !a.confirm_stop && !a.confirm_sweep && a.hindsight.running ==> prompt(a)
            == "Enter: run stale-memory sweep   S: stop service"@,
        !a.confirm_stop && !a.confirm_sweep && !a.hindsight.running ==> prompt(a)
            == "Enter: START hindsight-api   (needs the local service up for memory ops)"@,
        a.service_msg.len() > 0 ==> service_line(a) == "Service: "@ + a.service_msg,
        a.service_msg.len() == 0 ==> service_line(a).len() == 0,
{
}

/// The panel of the service holds the status, the numbers, the metrics, the models
/// and the mission, with captions or without.
pub proof fn the_service_is_shown_whole(a: AppView)
    requires
        a.tab == Tab::Hindsight,
    ensures
        panel_of(a).body is Text,
        exists|i: int|
            0 <= i < panel_of(a).body->Text_0.len() && (#[trigger] panel_of(
                a,
            ).body->Text_0[i]).text == "Status: "@ + state_line(a.hindsight),
        exists|i: int|
            0 <= i < panel_of(a).body->Text_0.len() && ends(
                (#[trigger] panel_of(a).body->Text_0[i]).text,
                bank_stats(a.hindsight),
            ),
        exists|i: int|
            0 <= i < panel_of(a).body->Text_0.len() && (#[trigger] panel_of(
                a,
            ).body->Text_0[i]).text == metrics_block(a),
        exists|i: int|
            0 <= i < panel_of(a).body->Text_0.len() && (#[trigger] panel_of(
                a,
            ).body->Text_0[i]).text == models_block(a),
        exists|i: int|
            0 <= i < panel_of(a).body->Text_0.len() && ends(
                (#[trigger] panel_of(a).body->Text_0[i]).text,
                a.hindsight.observations_mission@,
            ),
        exists|i: int|
            0 <= i < panel_of(a).body->Text_0.len() && has_text(
                (#[trigger] panel_of(a).body->Text_0[i]).text,
                service_line(a) + "\n\n"@ + a.sweep_status,
            ),
        exists|i: int|
            0 <= i < panel_of(a).body->Text_0.len() && (#[trigger] panel_of(
                a,
            ).body->Text_0[i]).text == prompt(a),
{
    broadcast use longer_texts_keep;

    let l = panel_of(a).body->Text_0;
    assert(panel_of(a).body == BodyView::Text(hindsight_lines(a)));
    assert(l == hindsight_lines(a));
    let c: int = if a.config.verbose {
        1
    } else {
        0
    };
    assert(l[0].text == "Status: "@ + state_line(a.hindsight));
    let head = "URL: "@ + crate::hindsight::API_URL@
        + "/health\n\nBank hermes @ localhost:8888\n"@;
    assert(l[1 + c].text == head + bank_stats(a.hindsight));
    end_is_found(head, bank_stats(a.hindsight));
    assert(l[2 + 2 * c].text == metrics_block(a));
    assert(l[3 + 3 * c].text == models_block(a));
    assert(l[4 + 4 * c].text == "\nObservations mission:\n"@ + a.hindsight.observations_mission@);
    end_is_found("\nObservations mission:\n"@, a.hindsight.observations_mission@);
    triple_is_found("\n"@, service_line(a), "\n\n"@, a.sweep_status);
    assert(l[5 + 5 * c].text == "\n"@ + service_line(a) + "\n\n"@ + a.sweep_status + "\n"@);
    assert(l[6 + 5 * c].text == prompt(a));
}

/// The backup panel ends with the list of the backups.
pub proof fn the_backups_are_listed(a: AppView)
    requires
        a.tab == Tab::Backup,
    ensures
        panel_of(a).body is Text,
        panel_of(a).body->Text_0.len() > 0,
        ends(panel_of(a).body->Text_0.last().text, a.backup_list),
{
    let head = "Backup SOP: "@ + crate::backup::BACKUP_SH@
        + "\n\nRuns the existing backup.sh — rsync media + sqlite VACUUM dump\nfrom remote servers cs/ss -> "@
        + crate::backup::BACKUP_DIR@
        + ".\n\nEnter: run backup (pulls remote -> local)\n\nLocal backups in "@
        + crate::backup::BACKUP_DIR@ + ":\n"@;
    assert(panel_of(a).body->Text_0.last().text == backup_text(a));
    end_is_found(head, a.backup_list);
}

/// The tab in front is the marked one of the four, and the footer shows the last
/// scan and the status, whatever they are.
pub proof fn the_frame_shows_where_one_is(a: AppView)
    ensures
        screen_of(a).tabs.len() == 4,
        0 <= screen_of(a).active < 4,
        a.tab == Tab::Projects ==> screen_of(a).tabs[screen_of(a).active as int] == "[1] Projects"@,
        a.tab == Tab::Secrets ==> screen_of(a).tabs[screen_of(a).active as int] == "[2] Secrets"@,
        a.tab == Tab::Hindsight ==> screen_of(a).tabs[screen_of(a).active as int]
            == "[3] Hindsight"@,
        a.tab == Tab::Backup ==> screen_of(a).tabs[screen_of(a).active as int] == "[4] Backup"@,
        has_text(screen_of(a).footer.text, "  |  autoscan "@ + a.last_scan + "\n"@),
        ends(screen_of(a).footer.text, "\n"@ + a.status),
        screen_of(a).panel == panel_of(a),
{
    broadcast use longer_texts_keep;

    let s = "wf v"@ + crate::screen::VERSION@;
    triple_is_found(s, "  |  autoscan "@, a.last_scan, "\n"@);
    let h = s + "  |  autoscan "@ + a.last_scan;
    vstd::seq_lib::lemma_concat_associative(h, "\n"@, a.status);
    end_is_found(h, "\n"@ + a.status);
}

/// The line of a repository holds all that the list is about, whatever it is; so
/// does that of a finding.
pub proof fn lines_hold_their_fields(r: Repo, f: Finding)
    ensures
        begins(repo_line(r), r.name@ + "\t"@ + r.branch@ + "\t"@),
        has_text(
            repo_line(r),
            "\t↑"@ + decimal(r.ahead as nat) + "/↓"@ + decimal(r.behind as nat) + "\t"@,
        ),
        r.dirty && r.has_makefile ==> ends(repo_line(r), "\t"@ + "dirty"@ + "\t"@ + "make"@),
        !r.dirty && r.has_makefile ==> ends(repo_line(r), "\t"@ + "clean"@ + "\t"@ + "make"@),
        r.dirty && !r.has_makefile && r.has_cargo_toml ==> ends(
            repo_line(r),
            "\t"@ + "dirty"@ + "\t"@ + "cargo"@,
        ),
        !r.dirty && !r.has_makefile && r.has_cargo_toml ==> ends(
            repo_line(r),
            "\t"@ + "clean"@ + "\t"@ + "cargo"@,
        ),
        r.dirty && !r.has_makefile && !r.has_cargo_toml ==> ends(
            repo_line(r),
            "\t"@ + "dirty"@ + "\t"@ + "-"@,
        ),
        !r.dirty && !r.has_makefile && !r.has_cargo_toml ==> ends(
            repo_line(r),
            "\t"@ + "clean"@ + "\t"@ + "-"@,
        ),
        finding_line(f) == f.repo@ + "\t"@ + f.file@ + "\t"@ + f.reason@,
{
    broadcast use longer_texts_keep;

    let h = r.name@ + "\t"@ + r.branch@;
    reveal_strlit("\t↑");
    reveal_strlit("\t");
    let p = h + "\t"@;
    assert(repo_line(r).subrange(0, p.len() as int) =~= p);
    let m = "\t↑"@ + decimal(r.ahead as nat) + "/↓"@ + decimal(r.behind as nat) + "\t"@;
    let front = h + "\t↑"@ + decimal(r.ahead as nat) + "/↓"@ + decimal(r.behind as nat) + "\t"@;
    assert(front =~= h + m);
    end_is_found(h, m);
    let d = if r.dirty {
        "dirty"@
    } else {
        "clean"@
    };
    let w = crate::git::check_word(r);
    let g = h + "\t↑"@ + decimal(r.ahead as nat) + "/↓"@ + decimal(r.behind as nat);
    let t = "\t"@ + d + "\t"@ + w;
    assert(repo_line(r) =~= g + t);
    end_is_found(g, t);
}

/// The lines of the bank hold each of its numbers, and differ where a number does.
pub proof fn bank_lines_hold_the_numbers(b: BankInfo, c: BankInfo)
    ensures
        bank_lines(b).len() == 8,
        b.running ==> bank_lines(b).contains("running: "@ + "true"@),
        !b.running ==> bank_lines(b).contains("running: "@ + "false"@),
        bank_lines(b).contains("version: "@ + b.version@),
        bank_lines(b).contains("total_memories: "@ + decimal(b.total_memories as nat)),
        bank_lines(b).contains("total_links: "@ + decimal(b.total_links as nat)),
        bank_lines(b).contains("total_documents: "@ + decimal(b.total_documents as nat)),
        bank_lines(b).contains(
            "by_type: world="@ + decimal(b.fact_world as nat) + " experience="@ + decimal(
                b.fact_experience as nat,
            ) + " observation="@ + decimal(b.fact_observation as nat),
        ),
        bank_lines(b).contains("stale_candidates_dry_run: "@ + decimal(b.stale_candidates as nat)),
        bank_lines(b).contains("observations_mission: "@ + b.observations_mission@),
        bank_lines(b) == bank_lines(c) ==> b.stale_candidates == c.stale_candidates
            && b.total_memories == c.total_memories && b.total_links == c.total_links
            && b.total_documents == c.total_documents,
{
    let l = bank_lines(b);
    assert(l[0] == "running: "@ + crate::headless::truth(b.running));
    assert(l[1] == "version: "@ + b.version@);
    assert(l[2] == "total_memories: "@ + decimal(b.total_memories as nat));
    assert(l[3] == "total_links: "@ + decimal(b.total_links as nat));
    assert(l[4] == "total_documents: "@ + decimal(b.total_documents as nat));
    assert(l[5] == "by_type: world="@ + decimal(b.fact_world as nat) + " experience="@ + decimal(
        b.fact_experience as nat,
    ) + " observation="@ + decimal(b.fact_observation as nat));
    assert(l[6] == "stale_candidates_dry_run: "@ + decimal(b.stale_candidates as nat));
    assert(l[7] == "observations_mission: "@ + b.observations_mission@);
    let m = bank_lines(c);
    if l == m {
        assert(m[2] == "total_memories: "@ + decimal(c.total_memories as nat));
        assert(m[3] == "total_links: "@ + decimal(c.total_links as nat));
        assert(m[4] == "total_documents: "@ + decimal(c.total_documents as nat));
        assert(m[6] == "stale_candidates_dry_run: "@ + decimal(c.stale_candidates as nat));
        same_behind(
            "total_memories: "@,
            decimal(b.total_memories as nat),
            decimal(c.total_memories as nat),
        );
        same_behind("total_links: "@, decimal(b.total_links as nat), decimal(c.total_links as nat));
        same_behind(
            "total_documents: "@,
            decimal(b.total_documents as nat),
            decimal(c.total_documents as nat),
        );
        same_behind(
            "stale_candidates_dry_run: "@,
            decimal(b.stale_candidates as nat),
            decimal(c.stale_candidates as nat),
        );
        decimals_differ(b.total_memories as nat, c.total_memories as nat);
        decimals_differ(b.total_links as nat, c.total_links as nat);
        decimals_differ(b.total_documents as nat, c.total_documents as nat);
        decimals_differ(b.stale_candidates as nat, c.stale_candidates as nat);
    }
}

proof fn same_behind(a: Seq<char>, x: Seq<char>, y: Seq<char>)
    requires
        a + x == a + y,
    ensures
        x == y,
{
    assert((a + x).skip(a.len() as int) =~= x);
    assert((a + y).skip(a.len() as int) =~= y);
}

/// Each of the three words asks for its mode, wherever it stands among the
/// arguments, the first of them before the others; without any of them the screen
/// is shown.
pub proof fn words_ask_for_modes(a: Seq<Seq<char>>, b: Seq<Seq<char>>)
    ensures
        mode_asked(a + seq!["--list"@] + b) == Mode::List,
        !a.contains("--list"@) && !b.contains("--list"@) ==> mode_asked(
            a + seq!["--secrets"@] + b,
        ) == Mode::Secrets,
        !a.contains("--list"@) && !b.contains("--list"@) && !a.contains("--secrets"@)
            && !b.contains("--secrets"@) ==> mode_asked(a + seq!["--hindsight"@] + b)
            == Mode::Hindsight,
        !a.contains("--list"@) && !a.contains("--secrets"@) && !a.contains("--hindsight"@)
            ==> mode_asked(a) == Mode::Screen,
{
    reveal_strlit("--list");
    reveal_strlit("--secrets");
    reveal_strlit("--hindsight");
    assert("--list"@.len() == 6 && "--secrets"@.len() == 9 && "--hindsight"@.len() == 11);
    let n = a.len() as int;
    assert((a + seq!["--list"@] + b)[n] == "--list"@);
    let s = a + seq!["--secrets"@] + b;
    assert(s[n] == "--secrets"@);
    let h = a + seq!["--hindsight"@] + b;
    assert(h[n] == "--hindsight"@);
    among_three(a, "--secrets"@, b, "--list"@);
    among_three(a, "--hindsight"@, b, "--list"@);
    among_three(a, "--hindsight"@, b, "--secrets"@);
}

proof fn among_three(a: Seq<Seq<char>>, m: Seq<char>, b: Seq<Seq<char>>, x: Seq<char>)
    requires
        m != x,
    ensures
        (a + seq![m] + b).contains(x) ==> a.contains(x) || b.contains(x),
{
    let s = a + seq![m] + b;
    if s.contains(x) {
        let i = choose|i: int| 0 <= i < s.len() && s[i] == x;
        if i < a.len() {
            assert(a[i] == x);
        } else if i > a.len() {
            assert(b[i - a.len() - 1] == x);
        }
    }
}

/// An edge stands on the cell nearest to its hundredths of the extent, at most half
/// a cell off; nothing of it is at the start and the whole of it at the end.
pub proof fn edges_stand_on_the_nearest_cell(start: int, extent: int, percent: int)
    requires
        0 <= extent,
        0 <= percent <= 100,
    ensures
        -50 <= 100 * (edge(start, extent, percent) - start) - extent * percent <= 50,
        start <= edge(start, extent, percent) <= start + extent,
        edge(start, extent, 0) == start,
        edge(start, extent, 100) == start + extent,
{
    assert(0 <= extent * percent <= extent * 100) by (nonlinear_arith)
        requires
            0 <= extent,
            0 <= percent <= 100,
    ;
}

/// The names of the themes, in any case, stand for four palettes that differ; every
/// other name stands for the dark one.
pub proof fn names_stand_for_palettes(name: Seq<char>)
    ensures
        ascii_lowered(name) == "nord"@ ==> theme_named(ascii_lowered(name)).name@ == "nord"@,
        ascii_lowered(name) == "high-contrast"@ ==> theme_named(ascii_lowered(name)).name@
            == "high-contrast"@,
        ascii_lowered(name) == "mono"@ ==> theme_named(ascii_lowered(name)).name@ == "mono"@,
        ascii_lowered(name) != "nord"@ && ascii_lowered(name) != "high-contrast"@ && ascii_lowered(
            name,
        ) != "mono"@ ==> theme_named(ascii_lowered(name)).name@ == "dark"@,
{
    reveal_strlit("nord");
    reveal_strlit("high-contrast");
    reveal_strlit("mono");
    assert("nord"@[0] == 'n' && "mono"@[0] == 'm' && "high-contrast"@[0] == 'h');
}

/// The theme without colours has none, and is not bold; that of strong contrasts
/// is bold; and where there are colours, those of good news, of warnings and of bad
/// news differ.
pub proof fn palettes_keep_their_promise()
    ensures
        theme_named("dark"@) == (Theme {
            name: "dark",
            heading: Color::Cyan,
            label: Color::Blue,
            value: Color::Gray,
            good: Color::Green,
            warn: Color::Yellow,
            bad: Color::Red,
            accent: Color::Magenta,
            muted: Color::DarkGray,
            border: Color::Cyan,
            bold: false,
        }),
        theme_named("nord"@) == (Theme {
            name: "nord",
            heading: Color::Rgb(129, 161, 193),
            label: Color::Rgb(136, 192, 208),
            value: Color::Rgb(216, 222, 233),
            good: Color::Rgb(163, 190, 140),
            warn: Color::Rgb(235, 203, 139),
            bad: Color::Rgb(191, 97, 106),
            accent: Color::Rgb(180, 142, 173),
            muted: Color::Rgb(94, 109, 131),
            border: Color::Rgb(76, 86, 106),
            bold: false,
        }),
        theme_named("high-contrast"@) == (Theme {
            name: "high-contrast",
            heading: Color::LightCyan,
            label: Color::LightBlue,
            value: Color::White,
            good: Color::LightGreen,
            warn: Color::LightYellow,
            bad: Color::LightRed,
            accent: Color::LightMagenta,
            muted: Color::DarkGray,
            border: Color::White,
            bold: true,
        }),
        theme_named("mono"@) == (Theme {
            name: "mono",
            heading: Color::Reset,
            label: Color::Reset,
            value: Color::Reset,
            good: Color::Reset,
            warn: Color::Reset,
            bad: Color::Reset,
            accent: Color::Reset,
            muted: Color::Reset,
            border: Color::Reset,
            bold: false,
        }),
        forall|i: int|
            #![trigger built_in()[i]]
            0 <= i < 3 ==> built_in()[i].good != built_in()[i].warn && built_in()[i].warn
                != built_in()[i].bad && built_in()[i].good != built_in()[i].bad,
{
    reveal_strlit("dark");
    reveal_strlit("nord");
    reveal_strlit("high-contrast");
    reveal_strlit("mono");
    assert("dark"@[0] == 'd' && "nord"@[0] == 'n' && "mono"@[0] == 'm' && "high-contrast"@[0]
        == 'h');
}

/// After four steps the cycle of the themes is back where it began, and it passes
/// the others before.
pub proof fn four_steps_go_round()
    ensures
        theme_after("dark"@).name@ == "nord"@,
        theme_after("nord"@).name@ == "high-contrast"@,
        theme_after("high-contrast"@).name@ == "mono"@,
        theme_after("mono"@).name@ == "dark"@,
{
    reveal_strlit("dark");
    reveal_strlit("nord");
    reveal_strlit("high-contrast");
    reveal_strlit("mono");
    assert("dark"@[0] == 'd' && "nord"@[0] == 'n' && "mono"@[0] == 'm' && "high-contrast"@[0]
        == 'h');
}

/// Settings are found by their name, whatever stands before and behind them: a text
/// for the theme and a flag for the captions; anything else is as if it were not
/// there.
pub proof fn settings_are_found_by_name(
    b: Seq<(Seq<char>, SettingView)>,
    name: Seq<char>,
    flag: bool,
    a: Seq<(Seq<char>, SettingView)>,
)
    requires
        forall|i: int| 0 <= i < b.len() ==> (#[trigger] b[i]).0 != "theme"@,
        forall|i: int| 0 <= i < b.len() ==> (#[trigger] b[i]).0 != "verbose"@,
    ensures
        config_of(b + seq![("theme"@, SettingView::Text(name))] + a).theme == theme_named(
            ascii_lowered(name),
        ),
        config_of(b + seq![("theme"@, SettingView::Flag(flag))] + a).theme.name@ == "dark"@,
        config_of(b + seq![("theme"@, SettingView::Other)] + a).theme.name@ == "dark"@,
        config_of(b).theme.name@ == "dark"@,
        config_of(b + seq![("verbose"@, SettingView::Flag(flag))] + a).verbose == flag,
        !config_of(b + seq![("verbose"@, SettingView::Text(name))] + a).verbose,
        !config_of(b + seq![("verbose"@, SettingView::Other)] + a).verbose,
        !config_of(b).verbose,
{
    setting_is_found(b, "theme"@, SettingView::Text(name), a);
    setting_is_found(b, "theme"@, SettingView::Flag(flag), a);
    setting_is_found(b, "theme"@, SettingView::Other, a);
    setting_is_found(b, "verbose"@, SettingView::Flag(flag), a);
    setting_is_found(b, "verbose"@, SettingView::Text(name), a);
    setting_is_found(b, "verbose"@, SettingView::Other, a);
    reveal_strlit("dark");
    reveal_strlit("nord");
    reveal_strlit("high-contrast");
    reveal_strlit("mono");
    assert(ascii_lowered("dark"@) =~= "dark"@);
    assert("dark"@[0] == 'd' && "nord"@[0] == 'n' && "mono"@[0] == 'm' && "high-contrast"@[0]
        == 'h');
}

proof fn setting_is_found(
    b: Seq<(Seq<char>, SettingView)>,
    key: Seq<char>,
    v: SettingView,
    a: Seq<(Seq<char>, SettingView)>,
)
    requires
        forall|i: int| 0 <= i < b.len() ==> (#[trigger] b[i]).0 != key,
    ensures
        crate::theme::setting_named(b + seq![(key, v)] + a, key) == Some(v),
        crate::theme::setting_named(b, key) is None,
    decreases b.len(),
{
    let all = b + seq![(key, v)] + a;
    if b.len() > 0 {
        let c = b.drop_first();
        assert(b[0].0 != key);
        assert(all.first() == b[0]);
        assert(all.drop_first() =~= c + seq![(key, v)] + a);
        assert forall|i: int| 0 <= i < c.len() implies (#[trigger] c[i]).0 != key by {
            assert(c[i] == b[i + 1]);
        }
        setting_is_found(c, key, v, a);
    } else {
        assert(all.first() == (key, v));
    }
}

/// The settings file holds the name of the theme in quotes and whether captions are
/// wanted, each as a setting of its own line.
pub proof fn the_file_holds_both_settings(name: Seq<char>, verbose: bool)
    ensures
        has_text(config_text(name, verbose), "\ntheme = \""@ + name + "\"\n"@),
        verbose ==> ends(config_text(name, verbose), "\nverbose = true\n"@),
        !verbose ==> ends(config_text(name, verbose), "\nverbose = false\n"@),
{
    broadcast use longer_texts_keep;

    let x = "# wf TUI settings\n# theme: dark | nord | high-contrast | mono\ntheme = \""@;
    let y = "\"\n# verbose: explain technical headings (per-section captions)\nverbose = "@;
    reveal_strlit("# wf TUI settings\n# theme: dark | nord | high-contrast | mono\ntheme = \"");
    reveal_strlit("\"\n# verbose: explain technical headings (per-section captions)\nverbose = ");
    reveal_strlit("\ntheme = \"");
    reveal_strlit("\"\n");
    reveal_strlit("\nverbose = true\n");
    reveal_strlit("\nverbose = false\n");
    reveal_strlit("true");
    reveal_strlit("false");
    reveal_strlit("\n");
    let x0 = x.take(x.len() - 10);
    assert(x =~= x0 + "\ntheme = \""@);
    let y1 = y.skip(2);
    assert(y =~= "\"\n"@ + y1);
    triple_is_found(x0, "\ntheme = \""@, name, "\"\n"@);
    let front = x0 + "\ntheme = \""@ + name + "\"\n"@;
    let w = if verbose {
        "true"@
    } else {
        "false"@
    };
    let t = config_text(name, verbose);
    assert(t =~= front + y1 + w + "\n"@);
    let y0 = y.take(y.len() - 11);
    let tail = if verbose {
        "\nverbose = true\n"@
    } else {
        "\nverbose = false\n"@
    };
    assert(t =~= (x + name + y0) + tail);
    end_is_found(x + name + y0, tail);
}

} // verus!
