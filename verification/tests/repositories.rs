//! Repositories: where they are, how they are, and in which order they stand.

use wf::command::Ran;
use wf::git::{
    check_tool, discover, git, git_args, health, is_skipped, load_repos, name_of, parse_counts,
    run_check, sort_paths, CheckTool, DirTree, Entry, GitQuery, Look, Repo, RepoPath, Walk,
};

fn done(stdout: &str) -> Ran {
    Ran::Done { success: true, stdout: stdout.into(), stderr: String::new() }
}

fn failed(stdout: &str) -> Ran {
    Ran::Done { success: false, stdout: stdout.into(), stderr: "no".into() }
}

fn path(s: &str) -> RepoPath {
    RepoPath {
        parts: s.split('/').filter(|p| !p.is_empty()).map(|p| p.as_bytes().to_vec()).collect(),
    }
}

fn shown(p: &RepoPath) -> String {
    p.parts.iter().map(|b| format!("/{}", String::from_utf8_lossy(b))).collect()
}

fn file(name: &str) -> (Vec<u8>, Option<DirTree>) {
    (name.as_bytes().to_vec(), None)
}

fn dir(name: &str, tree: DirTree) -> (Vec<u8>, Option<DirTree>) {
    (name.as_bytes().to_vec(), Some(tree))
}

fn plain(entries: Vec<(Vec<u8>, Option<DirTree>)>) -> DirTree {
    DirTree { has_git: false, entries }
}

fn repository(entries: Vec<(Vec<u8>, Option<DirTree>)>) -> DirTree {
    DirTree { has_git: true, entries }
}

#[test]
fn finds_repositories_in_order() {
    let tree = plain(vec![
        dir("z", repository(vec![dir("inner", repository(vec![]))])),
        file("readme"),
        dir("b", plain(vec![dir("y", repository(vec![])), dir("x", repository(vec![]))])),
        dir("target", repository(vec![])),
        dir("node_modules", repository(vec![])),
        dir(".venv", repository(vec![])),
        dir("empty", plain(vec![])),
    ]);
    let found: Vec<String> = discover(path("/p"), &tree).iter().map(shown).collect();
    assert_eq!(found, vec!["/p/b/x", "/p/b/y", "/p/z"]);
}

#[test]
fn a_root_that_is_a_repository_is_all() {
    let tree = repository(vec![dir("sub", repository(vec![]))]);
    let found: Vec<String> = discover(path("/p"), &tree).iter().map(shown).collect();
    assert_eq!(found, vec!["/p"]);
}

#[test]
fn repositories_are_not_nested() {
    let tree = plain(vec![
        dir("a", plain(vec![dir("b", repository(vec![dir("c", repository(vec![]))]))])),
        dir("ab", repository(vec![])),
        dir("b", repository(vec![])),
    ]);
    let found = discover(path("/p"), &tree);
    let shown: Vec<String> = found.iter().map(shown).collect();
    assert_eq!(shown, vec!["/p/a/b", "/p/ab", "/p/b"]);
    for (i, x) in found.iter().enumerate() {
        for (j, y) in found.iter().enumerate() {
            assert!(i == j || !y.parts.starts_with(&x.parts));
        }
    }
}

#[test]
fn walks_step_by_step() {
    let mut w = Walk::new(path("/p"));
    assert_eq!(shown(w.next().expect("root")), "/p");
    w.walk(&Look {
        has_git: false,
        entries: vec![
            Entry { name: b"a".to_vec(), is_dir: true },
            Entry { name: b"f".to_vec(), is_dir: false },
            Entry { name: b"target".to_vec(), is_dir: true },
            Entry { name: b"b".to_vec(), is_dir: true },
        ],
    });
    assert_eq!(shown(w.next().expect("first")), "/p/a");
    w.walk(&Look { has_git: true, entries: vec![] });
    assert_eq!(shown(w.next().expect("second")), "/p/b");
    w.walk(&Look { has_git: false, entries: vec![] });
    assert!(w.next().is_none());
    assert_eq!(w.found.iter().map(shown).collect::<Vec<_>>(), vec!["/p/a"]);
}

#[test]
fn stays_out_of_some_directories() {
    for name in ["target", "node_modules", ".git", ".venv"] {
        assert!(is_skipped(&name.as_bytes().to_vec()));
    }
    for name in ["targets", "src", "", ".github"] {
        assert!(!is_skipped(&name.as_bytes().to_vec()));
    }
}

#[test]
fn paths_sort_part_by_part() {
    let sorted: Vec<String> =
        sort_paths(vec![path("/a/b"), path("/a-b"), path("/a"), path("/a/b")])
            .iter()
            .map(shown)
            .collect();
    assert_eq!(sorted, vec!["/a", "/a/b", "/a/b", "/a-b"]);
}

#[test]
fn counts_are_ahead_and_behind() {
    assert_eq!(parse_counts("3\t5"), (3, 5));
    assert_eq!(parse_counts("3"), (3, 0));
    assert_eq!(parse_counts(""), (0, 0));
    assert_eq!(parse_counts("x\t7"), (0, 7));
    assert_eq!(parse_counts("1\t2\t3"), (1, 2));
    assert_eq!(
        git_args(GitQuery::Counts),
        vec!["rev-list", "--left-right", "--count", "HEAD...@{upstream}"]
    );
}

#[test]
fn questions_to_git() {
    assert_eq!(git_args(GitQuery::Branch), vec!["rev-parse", "--abbrev-ref", "HEAD"]);
    assert_eq!(
        git_args(GitQuery::Status),
        vec!["-c", "core.quotePath=false", "status", "--porcelain", "--untracked-files=all"]
    );
    assert_eq!(git_args(GitQuery::LastCommit), vec!["log", "-1", "--format=%h %s"]);
    assert_eq!(git_args(GitQuery::Files), vec!["-c", "core.quotePath=false", "ls-files"]);
}

#[test]
fn answers_of_git() {
    assert_eq!(git(&done(" main\n")).as_deref(), Some("main"));
    assert_eq!(git(&failed("main")), None);
    assert_eq!(git(&Ran::Failed("no git".into())), None);
}

#[test]
fn healthy_repository() {
    let r = health(
        path("/p/wf"),
        &done("main\n"),
        &done("2\t1\n"),
        &done(" M src/lib.rs\n"),
        &done("abc123 first\n"),
        true,
        true,
    );
    assert_eq!(r.name, "wf");
    assert_eq!(r.branch, "main");
    assert_eq!((r.ahead, r.behind), (2, 1));
    assert!(r.dirty);
    assert_eq!(r.last_commit, "abc123 first");
    assert!(r.has_makefile && r.has_cargo_toml);
    assert_eq!(r.check_label(), "make");
    assert_eq!(shown(&r.path), "/p/wf");
}

#[test]
fn health_without_answers() {
    let no = failed("");
    let r = health(path("/p/wf"), &no, &no, &no, &no, false, true);
    assert!(!r.has_makefile && r.has_cargo_toml);
    assert_eq!(r.check_label(), "cargo");
    assert_eq!(r.branch, "?");
    assert_eq!((r.ahead, r.behind), (0, 0));
    assert!(!r.dirty);
    assert_eq!(r.last_commit, "");
}

#[test]
fn names_of_repositories() {
    assert_eq!(name_of(&path("/p/wörk")), "wörk");
    assert_eq!(name_of(&path("/")), "?");
    assert_eq!(name_of(&RepoPath { parts: vec![vec![0xff, 0xfe]] }), "?");
}

#[test]
fn tools_of_checks() {
    assert_eq!(check_tool(true, true), Some(CheckTool::Make));
    assert_eq!(check_tool(false, true), Some(CheckTool::Cargo));
    assert_eq!(check_tool(false, false), None);
    assert_eq!(CheckTool::Make.name(), "make");
    assert_eq!(CheckTool::Cargo.name(), "cargo");
}

#[test]
fn reports_of_checks() {
    assert_eq!(run_check(None, &done("")), "(no Makefile/Cargo.toml — nothing to check)");
    assert_eq!(run_check(Some(CheckTool::Make), &done("\n")), "\nOK (exit 0, no output)");
    let quiet = Ran::Done { success: false, stdout: String::new(), stderr: String::new() };
    assert_eq!(run_check(Some(CheckTool::Make), &quiet), "FAILED (exit non-zero)");
    assert_eq!(run_check(Some(CheckTool::Cargo), &failed("out ")), "out no");
    assert_eq!(
        run_check(Some(CheckTool::Cargo), &Ran::Failed("gone".into())),
        "failed to run cargo: gone"
    );
}

fn repo(name: &str, branch: &str, dirty: bool, behind: u32, ahead: u32) -> Repo {
    Repo {
        path: path(name),
        name: name.into(),
        branch: branch.into(),
        ahead,
        behind,
        dirty,
        last_commit: String::new(),
        has_makefile: false,
        has_cargo_toml: false,
    }
}

#[test]
fn what_needs_attention_comes_first() {
    let sorted = load_repos(vec![
        repo("d", "1", false, 0, 0),
        repo("c", "1", false, 0, 3),
        repo("b", "1", false, 2, 0),
        repo("a", "1", true, 0, 0),
        repo("e", "1", true, 1, 0),
        repo("b2", "1", false, 2, 9),
        repo("A", "1", false, 0, 0),
    ]);
    let names: Vec<&str> = sorted.iter().map(|r| r.name.as_str()).collect();
    assert_eq!(names, vec!["e", "a", "b2", "b", "c", "A", "d"]);
}

#[test]
fn equal_repositories_stay_as_they_came() {
    let sorted = load_repos(vec![
        repo("x", "1", false, 0, 0),
        repo("w", "0", false, 0, 0),
        repo("x", "2", false, 0, 0),
        repo("x", "3", false, 0, 0),
    ]);
    let branches: Vec<&str> = sorted.iter().map(|r| r.branch.as_str()).collect();
    assert_eq!(branches, vec!["0", "1", "2", "3"]);
}
