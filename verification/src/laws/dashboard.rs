//! Laws of the dashboard.

use vstd::prelude::*;
use crate::dashboard::{
    all_findings, enter_step, first_view, key_step, scanned, Action, AppView,
    CheckView, Key, ScanData, Surroundings, Tab,
};
use crate::secrets::Finding;
use crate::text::{begins, decimal};
use crate::theme::Config;
use crate::watch::{is_latest, Notice, Watch};

verus! {

broadcast use vstd::string::group_string_axioms;

/// The dashboard begins with the projects, on the first row, with everything that
/// the scan found, and with nothing running, nothing said and nothing to confirm.
pub proof fn begins_with_what_was_found(data: ScanData, config: Config)
    ensures
        first_view(data, config).tab == Tab::Projects,
        first_view(data, config).selected == 0,
        first_view(data, config).repos == data.repos@,
        first_view(data, config).secrets == data.secrets@,
        first_view(data, config).hindsight == data.hindsight,
        first_view(data, config).metrics == data.metrics,
        first_view(data, config).earlier is None,
        first_view(data, config).models == data.models,
        first_view(data, config).earlier_models is None,
        first_view(data, config).backup_list == data.backup_list@,
        first_view(data, config).last_scan == data.stamp@,
        first_view(data, config).config == config,
        !first_view(data, config).check.running,
        first_view(data, config).check.output.len() == 0,
        !first_view(data, config).backup.running,
        first_view(data, config).backup.output.len() == 0,
        !first_view(data, config).confirm_sweep,
        !first_view(data, config).confirm_stop,
        first_view(data, config).sweep_status.len() == 0,
        first_view(data, config).service_msg.len() == 0,
{
}

/// A scan replaces everything that was found before, and the readings that it
/// replaces become the earlier ones; it does not touch what runs, what was said or
/// what waits to be confirmed.
pub proof fn scans_replace_what_was_found(a: AppView, data: ScanData)
    ensures
        scanned(a, data).repos == data.repos@,
        scanned(a, data).secrets == data.secrets@,
        scanned(a, data).hindsight == data.hindsight,
        scanned(a, data).metrics == data.metrics,
        scanned(a, data).earlier == a.metrics,
        scanned(a, data).models == data.models,
        scanned(a, data).earlier_models == a.models,
        scanned(a, data).backup_list == data.backup_list@,
        scanned(a, data).last_scan == data.stamp@,
        scanned(a, data).check == a.check,
        scanned(a, data).backup == a.backup,
        scanned(a, data).sweep_status == a.sweep_status,
        scanned(a, data).service_msg == a.service_msg,
        scanned(a, data).status == a.status,
        a.selected >= data.repos@.len() && data.repos@.len() > 0 ==> scanned(a, data).selected
            == data.repos@.len() - 1,
{
    assert(data.repos@.len() == data.repos.len());
}

/// After two scans, the earlier readings are those of the first.
pub proof fn two_scans_are_compared(a: AppView, first: ScanData, second: ScanData)
    ensures
        scanned(scanned(a, first), second).earlier == first.metrics,
        scanned(scanned(a, first), second).metrics == second.metrics,
        scanned(scanned(a, first), second).earlier_models == first.models,
        scanned(scanned(a, first), second).models == second.models,
{
}

/// The arrows move the selection by one row of what the tab shows, and stop at its
/// first and its last row.
pub proof fn arrows_move_by_one(a: AppView, s: Surroundings)
    requires
        !(s.dev && s.rebuilt),
        a.repos.len() <= usize::MAX,
        a.secrets.len() <= usize::MAX,
    ensures
        a.selected > 0 ==> key_step(a, Key::Up, s).0.selected == a.selected - 1,
        a.selected == 0 ==> key_step(a, Key::Up, s).0.selected == 0,
        a.tab == Tab::Projects && a.selected + 1 < a.repos.len() ==> key_step(
            a,
            Key::Down,
            s,
        ).0.selected == a.selected + 1,
        a.tab == Tab::Projects && a.selected + 1 >= a.repos.len() ==> key_step(
            a,
            Key::Down,
            s,
        ).0.selected == a.selected,
        a.tab == Tab::Secrets && a.selected + 1 < a.secrets.len() ==> key_step(
            a,
            Key::Down,
            s,
        ).0.selected == a.selected + 1,
        a.tab == Tab::Secrets && a.selected + 1 >= a.secrets.len() ==> key_step(
            a,
            Key::Down,
            s,
        ).0.selected == a.selected,
        a.tab == Tab::Hindsight || a.tab == Tab::Backup ==> key_step(a, Key::Down, s).0.selected
            == a.selected,
        key_step(a, Key::Up, s).0.tab == a.tab,
        key_step(a, Key::Down, s).0.tab == a.tab,
        key_step(a, Key::Up, s).1 == Action::Nothing,
        key_step(a, Key::Down, s).1 == Action::Nothing,
{
}

/// The digits bring their tabs to the front; the arrows and `h` and `l` the
/// neighbours; whichever tab was in front. No other key changes the tab.
pub proof fn keys_bring_tabs_to_the_front(a: AppView, k: Key, s: Surroundings)
    requires
        !(s.dev && s.rebuilt),
    ensures
        key_step(a, Key::Char('1'), s).0.tab == Tab::Projects,
        key_step(a, Key::Char('2'), s).0.tab == Tab::Secrets,
        key_step(a, Key::Char('3'), s).0.tab == Tab::Hindsight,
        key_step(a, Key::Char('4'), s).0.tab == Tab::Backup,
        key_step(a, Key::Right, s) == key_step(a, Key::Char('l'), s),
        key_step(a, Key::Left, s) == key_step(a, Key::Char('h'), s),
        a.tab == Tab::Projects ==> key_step(a, Key::Right, s).0.tab == Tab::Secrets,
        a.tab == Tab::Secrets ==> key_step(a, Key::Right, s).0.tab == Tab::Hindsight,
        a.tab == Tab::Hindsight ==> key_step(a, Key::Right, s).0.tab == Tab::Backup,
        a.tab == Tab::Backup ==> key_step(a, Key::Right, s).0.tab == Tab::Projects,
        a.tab == Tab::Projects ==> key_step(a, Key::Left, s).0.tab == Tab::Backup,
        a.tab == Tab::Secrets ==> key_step(a, Key::Left, s).0.tab == Tab::Projects,
        a.tab == Tab::Hindsight ==> key_step(a, Key::Left, s).0.tab == Tab::Secrets,
        a.tab == Tab::Backup ==> key_step(a, Key::Left, s).0.tab == Tab::Hindsight,
        k != Key::Char('1') && k != Key::Char('2') && k != Key::Char('3') && k != Key::Char('4')
            && k != Key::Char('h') && k != Key::Char('l') && k != Key::Left && k != Key::Right
            ==> key_step(a, k, s).0.tab == a.tab,
{
}

/// No key but the arrows moves the selection, and none changes what was found.
pub proof fn keys_keep_what_was_found(a: AppView, k: Key, s: Surroundings)
    ensures
        k != Key::Up && k != Key::Down ==> key_step(a, k, s).0.selected == a.selected,
        key_step(a, k, s).0.repos == a.repos,
        key_step(a, k, s).0.secrets == a.secrets,
        key_step(a, k, s).0.hindsight == a.hindsight,
        key_step(a, k, s).0.metrics == a.metrics,
        key_step(a, k, s).0.earlier == a.earlier,
        key_step(a, k, s).0.models == a.models,
        key_step(a, k, s).0.earlier_models == a.earlier_models,
        key_step(a, k, s).0.backup_list == a.backup_list,
        key_step(a, k, s).0.last_scan == a.last_scan,
        key_step(a, k, s).0.sweep_status == a.sweep_status,
        k != Key::Enter ==> key_step(a, k, s).0.check == a.check,
        k != Key::Enter ==> key_step(a, k, s).0.backup == a.backup,
        k != Key::Enter ==> key_step(a, k, s).0.service_msg == a.service_msg,
{
}

/// `q` quits, `r` scans anew, and `R` builds anew where the program can; from every
/// tab. Nothing else quits.
pub proof fn letters_do_what_they_stand_for(a: AppView, k: Key, s: Surroundings)
    requires
        !(s.dev && s.rebuilt),
    ensures
        key_step(a, Key::Char('q'), s).1 == Action::Quit,
        key_step(a, k, s).1 == Action::Quit ==> k == Key::Char('q'),
        key_step(a, Key::Char('r'), s).1 == Action::Rescan,
        s.dev ==> key_step(a, Key::Char('R'), s).1 == Action::Rebuild,
        !s.dev ==> key_step(a, Key::Char('R'), s).1 == Action::Nothing,
        a.tab == Tab::Hindsight ==> key_step(a, Key::Char('S'), s).0.confirm_stop,
        a.tab == Tab::Hindsight ==> key_step(a, Key::Char('s'), s).0.confirm_stop,
{
}

/// Enter on a repository that something can check has it checked, and says which
/// one; on one that nothing can check, it says so.
pub proof fn enter_checks_the_selected(a: AppView, cargo_toml: bool)
    requires
        a.tab == Tab::Projects,
    ensures
        a.selected < a.repos.len() && (a.repos[a.selected as int].has_makefile || cargo_toml) ==> {
            &&& enter_step(a, cargo_toml).1 == Action::Check
            &&& enter_step(a, cargo_toml).0.check.running
            &&& enter_step(a, cargo_toml).0.check.output.len() == 0
            &&& enter_step(a, cargo_toml).0.status == "running make check in "@
                + a.repos[a.selected as int].name@ + " …"@
        },
        a.selected < a.repos.len() && !a.repos[a.selected as int].has_makefile && !cargo_toml ==> {
            &&& enter_step(a, cargo_toml).1 == Action::Nothing
            &&& enter_step(a, cargo_toml).0.check == a.check
            &&& enter_step(a, cargo_toml).0.status == a.repos[a.selected as int].name@
                + ": no Makefile/Cargo.toml"@
        },
        a.selected >= a.repos.len() ==> enter_step(a, cargo_toml).1 == Action::Nothing
            && enter_step(a, cargo_toml).0.status == a.status && enter_step(
            a,
            cargo_toml,
        ).0.check == a.check,
        enter_step(a, cargo_toml).0.backup == a.backup,
{
}

/// Enter on the other tabs: it counts the findings, starts the service or asks for
/// the sweep, or runs the backup.
pub proof fn enter_acts_on_its_tab(a: AppView, cargo_toml: bool)
    ensures
        a.tab == Tab::Secrets ==> {
            &&& enter_step(a, cargo_toml).1 == Action::Nothing
            &&& begins(
                enter_step(a, cargo_toml).0.status,
                decimal(a.secrets.len()) + " secret finding(s)"@,
            )
        },
        a.tab == Tab::Hindsight && a.hindsight.running ==> {
            &&& enter_step(a, cargo_toml).1 == Action::Nothing
            &&& enter_step(a, cargo_toml).0.confirm_sweep
            &&& enter_step(a, cargo_toml).0.status
                == "Press Y to APPLY sweep (invalidates stale memories); any other key cancels"@
        },
        a.tab == Tab::Hindsight && !a.hindsight.running ==> {
            &&& enter_step(a, cargo_toml).1 == Action::StartService
            &&& !enter_step(a, cargo_toml).0.confirm_sweep
        },
        a.tab == Tab::Backup ==> {
            &&& enter_step(a, cargo_toml).1 == Action::Backup
            &&& enter_step(a, cargo_toml).0.backup == (CheckView {
                running: true,
                output: Seq::empty(),
            })
            &&& enter_step(a, cargo_toml).0.check == a.check
        },
{
    reveal_strlit(" secret finding(s)");
    reveal_strlit(" secret finding(s) — review; fix by gitignoring/removing");
    let d = decimal(a.secrets.len());
    let part = d + " secret finding(s)"@;
    let whole = d + " secret finding(s) — review; fix by gitignoring/removing"@;
    assert(whole.subrange(0, part.len() as int) =~= part);
}

/// Every finding of every repository is gathered, and no others.
pub proof fn every_finding_is_gathered(found: Seq<Vec<Finding>>, i: int, j: int)
    requires
        0 <= i < found.len(),
        0 <= j < found[i]@.len(),
    ensures
        all_findings(found).contains(found[i]@[j]),
        all_findings(seq![found[i]]) == found[i]@,
    decreases found.len(),
{
    let rest = found.drop_first();
    let first = found.first()@;
    let all = all_findings(found);
    assert(all == first + all_findings(rest));
    if i == 0 {
        assert(all[j] == found[0]@[j]);
    } else {
        assert(rest[i - 1] == found[i]);
        every_finding_is_gathered(rest, i - 1, j);
        let k = choose|k: int| 0 <= k < all_findings(rest).len() && all_findings(rest)[k]
            == found[i]@[j];
        assert(all[first.len() + k] == found[i]@[j]);
    }
    assert(seq![found[i]].drop_first() =~= Seq::<Vec<Finding>>::empty());
    reveal_with_fuel(all_findings, 2);
    assert(found[i]@ + Seq::<Finding>::empty() =~= found[i]@);
}

/// A later change has the program built, one that was built has not; while it is
/// built, nothing is begun; and the end of a build is remembered as of its time.
pub proof fn later_changes_are_built(w: Watch, latest: u128, success: bool)
    ensures
        !w.building && latest > w.last_built ==> w.due(latest) && w.after(
            Notice::Looked(latest),
        ).building,
        latest <= w.last_built ==> !w.due(latest) && w.after(Notice::Looked(latest)) == w,
        w.building ==> !w.due(latest) && w.after(Notice::Looked(latest)) == w,
        w.after(Notice::Looked(latest)).last_built == w.last_built,
        w.after(Notice::Looked(latest)).reload == w.reload,
        w.building ==> w.after(Notice::Built(latest, success)).last_built == latest,
        w.building ==> !w.after(Notice::Built(latest, success)).building,
        !w.building ==> w.after(Notice::Built(latest, success)) == w,
{
}

/// No known time is later than the latest, and the latest is one of them where one
/// is known.
pub proof fn no_time_is_later(times: Seq<Option<u128>>, t: u128, i: int, u: u128)
    requires
        is_latest(times, t),
        0 <= i < times.len(),
        times[i] == Some(u),
    ensures
        u <= t,
        times.contains(Some(t)),
{
    assert(times[i] is Some);
}

} // verus!
