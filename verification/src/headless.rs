//! What is printed without a screen.

use vstd::prelude::*;
use crate::git::{check_word, Repo};
use crate::hindsight::BankInfo;
use crate::secrets::Finding;
use crate::text::{chars_of, decimal, push_decimal, same, texts};

verus! {

broadcast use vstd::string::group_string_axioms;

/// What the program is asked for.
#[derive(Debug, Clone, Copy, PartialEq, Eq, Structural)]
pub enum Mode {
    List,
    Secrets,
    Hindsight,
    Screen,
}

/// What the arguments of the program ask for; the first mode counts, whatever
/// the order of the arguments.
pub open spec fn mode_asked(args: Seq<Seq<char>>) -> Mode {
    if args.contains("--list"@) {
        Mode::List
    } else if args.contains("--secrets"@) {
        Mode::Secrets
    } else if args.contains("--hindsight"@) {
        Mode::Hindsight
    } else {
        Mode::Screen
    }
}

/// Whether an argument is among the arguments.
fn is_among(args: &Vec<String>, arg: &str) -> (r: bool)
    ensures
        r == texts(args@).contains(arg@),
{
    let mut i: usize = 0;
    while i < args.len()
        invariant
            i <= args@.len(),
            forall|j: int| 0 <= j < i ==> (#[trigger] args@[j])@ != arg@,
        decreases args@.len() - i,
    {
        if same(&chars_of(args[i].as_str()), arg) {
            assert(texts(args@)[i as int] == arg@);
            return true;
        }
        i = i + 1;
    }
    assert forall|j: int| 0 <= j < texts(args@).len() implies texts(args@)[j] != arg@ by {
        assert(args@[j]@ != arg@);
    }
    false
}

/// What the arguments of the program ask for.
pub fn mode_of(args: &Vec<String>) -> (r: Mode)
    ensures
        r == mode_asked(texts(args@)),
{
    if is_among(args, "--list") {
        Mode::List
    } else if is_among(args, "--secrets") {
        Mode::Secrets
    } else if is_among(args, "--hindsight") {
        Mode::Hindsight
    } else {
        Mode::Screen
    }
}

/// The line of a repository.
pub open spec fn repo_line(r: Repo) -> Seq<char> {
    r.name@ + "\t"@ + r.branch@ + "\t↑"@ + decimal(r.ahead as nat) + "/↓"@ + decimal(
        r.behind as nat,
    ) + "\t"@ + (if r.dirty {
        "dirty"@
    } else {
        "clean"@
    }) + "\t"@ + check_word(r)
}

/// The lines of repositories, in their order.
pub fn headless_list(repos: &Vec<Repo>) -> (r: Vec<String>)
    ensures
        texts(r@) == repos@.map_values(|r: Repo| repo_line(r)),
{
    let mut out: Vec<String> = Vec::new();
    let mut i: usize = 0;
    while i < repos.len()
        invariant
            i <= repos@.len(),
            out@.len() == i,
            forall|j: int| 0 <= j < i ==> (#[trigger] out@[j])@ == repo_line(repos@[j]),
        decreases repos@.len() - i,
    {
        let h = &repos[i];
        let mut line = h.name.clone();
        line.append("\t");
        line.append(h.branch.as_str());
        line.append("\t↑");
        push_decimal(&mut line, h.ahead as u64);
        line.append("/↓");
        push_decimal(&mut line, h.behind as u64);
        line.append("\t");
        line.append(if h.dirty {
            "dirty"
        } else {
            "clean"
        });
        line.append("\t");
        line.append(h.check_label());
        out.push(line);
        i = i + 1;
    }
    assert(texts(out@) =~= repos@.map_values(|r: Repo| repo_line(r)));
    out
}

/// The line of a finding.
pub open spec fn finding_line(f: Finding) -> Seq<char> {
    f.repo@ + "\t"@ + f.file@ + "\t"@ + f.reason@
}

/// The lines of findings, in their order, and the line that counts them.
pub fn headless_secrets(found: &Vec<Finding>) -> (r: (Vec<String>, String))
    ensures
        texts(r.0@) == found@.map_values(|f: Finding| finding_line(f)),
        r.1@ == "total secret findings: "@ + decimal(found@.len()),
{
    let mut out: Vec<String> = Vec::new();
    let mut i: usize = 0;
    while i < found.len()
        invariant
            i <= found@.len(),
            out@.len() == i,
            forall|j: int| 0 <= j < i ==> (#[trigger] out@[j])@ == finding_line(found@[j]),
        decreases found@.len() - i,
    {
        let f = &found[i];
        let mut line = f.repo.clone();
        line.append("\t");
        line.append(f.file.as_str());
        line.append("\t");
        line.append(f.reason.as_str());
        out.push(line);
        i = i + 1;
    }
    assert(texts(out@) =~= found@.map_values(|f: Finding| finding_line(f)));
    let mut total = "total secret findings: ".to_owned();
    push_decimal(&mut total, found.len() as u64);
    (out, total)
}

/// Whether something is so, as it is printed.
pub open spec fn truth(b: bool) -> Seq<char> {
    if b {
        "true"@
    } else {
        "false"@
    }
}

/// The lines of the bank.
pub open spec fn bank_lines(b: BankInfo) -> Seq<Seq<char>> {
    seq![
        "running: "@ + truth(b.running),
        "version: "@ + b.version@,
        "total_memories: "@ + decimal(b.total_memories as nat),
        "total_links: "@ + decimal(b.total_links as nat),
        "total_documents: "@ + decimal(b.total_documents as nat),
        "by_type: world="@ + decimal(b.fact_world as nat) + " experience="@ + decimal(
            b.fact_experience as nat,
        ) + " observation="@ + decimal(b.fact_observation as nat),
        "stale_candidates_dry_run: "@ + decimal(b.stale_candidates as nat),
        "observations_mission: "@ + b.observations_mission@,
    ]
}

/// A name and a number.
fn numbered(name: &str, n: u64) -> (r: String)
    ensures
        r@ == name@ + decimal(n as nat),
{
    let mut r = name.to_owned();
    push_decimal(&mut r, n);
    r
}

/// A name and a text.
fn named(name: &str, text: &str) -> (r: String)
    ensures
        r@ == name@ + text@,
{
    let mut r = name.to_owned();
    r.append(text);
    r
}

/// The lines of the bank.
pub fn headless_hindsight(b: &BankInfo) -> (r: Vec<String>)
    ensures
        texts(r@) == bank_lines(*b),
{
    let running = named("running: ", if b.running {
        "true"
    } else {
        "false"
    });
    let mut by_type = numbered("by_type: world=", b.fact_world);
    by_type.append(" experience=");
    push_decimal(&mut by_type, b.fact_experience);
    by_type.append(" observation=");
    push_decimal(&mut by_type, b.fact_observation);
    let r = vec![
        running,
        named("version: ", b.version.as_str()),
        numbered("total_memories: ", b.total_memories),
        numbered("total_links: ", b.total_links),
        numbered("total_documents: ", b.total_documents),
        by_type,
        numbered("stale_candidates_dry_run: ", b.stale_candidates as u64),
        named("observations_mission: ", b.observations_mission.as_str()),
    ];
    assert(texts(r@) =~= bank_lines(*b));
    r
}

} // verus!
