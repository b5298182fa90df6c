//! Laws of repositories.

use vstd::prelude::*;
use vstd::utf8::encode_utf8;
use crate::command::Ran;
use crate::git::{
    answer, check_report, check_word, descents, discover_finds_what_is_led_to, entered, git_question, key_order, keys, leads_to,
    repo_name, repos_in, two_counts, with_key, CheckTool, DirTree, Entry, GitQuery, Repo,
};
use crate::laws::text::{
    beginnings_and_ends, counts_up_to_the_first, decimals_write_numbers, each,
    numbers_are_read_back, trims_the_space_around, trims_to_nothing,
};
use crate::order::{byte_order, bytes_order, lex, path_before, sorted, text_before};
use crate::text::{begins, decimal, is_digit, is_space};

verus! {

broadcast use vstd::string::group_string_axioms;

/// Of two repositories in order, the earlier one is dirty if the later one is; if
/// they are alike in that, it is no less behind; if they are alike in both, it is
/// no less ahead; and if they are alike in all three, the later one's name does
/// not stand before its own.
pub proof fn attention_comes_first(r: Seq<Repo>, i: int, j: int)
    requires
        sorted(keys(r), key_order()),
        0 <= i < j < r.len(),
    ensures
        r[j].dirty ==> r[i].dirty,
        r[i].dirty == r[j].dirty ==> r[i].behind >= r[j].behind,
        r[i].dirty == r[j].dirty && r[i].behind == r[j].behind ==> r[i].ahead >= r[j].ahead,
        r[i].dirty == r[j].dirty && r[i].behind == r[j].behind && r[i].ahead == r[j].ahead
            ==> !text_before(r[j].name@, r[i].name@),
{
    let lt = key_order();
    assert(keys(r)[i] == r[i].key() && keys(r)[j] == r[j].key());
    assert(!lt(keys(r)[j], keys(r)[i]));
}

/// Repositories that agree in changes, counts and name, and no others, are not
/// told apart by the order, so that they stay as they came.
pub proof fn four_things_tell_apart(a: Repo, b: Repo)
    ensures
        with_key(a.key())(b) <==> a.dirty == b.dirty && a.behind == b.behind && a.ahead == b.ahead
            && a.name@ == b.name@,
{
}

/// Two numbers in decimal with a tab between them are read back.
pub proof fn counts_are_read_back(a: u32, b: u32)
    ensures
        two_counts(decimal(a as nat) + "\t"@ + decimal(b as nat)) == (a, b),
{
    reveal_strlit("\t");
    let x = decimal(a as nat);
    let y = decimal(b as nat);
    let s = x + seq!['\t'] + y;
    assert("\t"@ =~= seq!['\t']);
    lemma_no_tab(a as nat);
    lemma_no_tab(b as nat);
    counts_up_to_the_first(x, '\t', y);
    counts_up_to_the_first(y, '\t', Seq::empty());
    assert(s.take(x.len() as int) =~= x);
    assert(s.skip(x.len() as int + 1) =~= y);
    assert(y.take(y.len() as int) =~= y);
    numbers_are_read_back(a as nat, x);
    numbers_are_read_back(b as nat, y);
}

proof fn lemma_no_tab(n: nat)
    ensures
        !decimal(n).contains('\t'),
{
    decimals_write_numbers(n);
    let d = decimal(n);
    if d.contains('\t') {
        let k = choose|k: int| 0 <= k < d.len() && d[k] == '\t';
        assert((|c: char| is_digit(c))(d[k]));
    }
}

/// Whenever a tool ran, the report begins with all that it wrote, first to its
/// output and then to its errors; and it is just that, if that is more than white
/// space. Only a silent tool is spoken for, by whether it succeeded.
pub proof fn reports_show_all_that_was_written(
    tool: CheckTool,
    success: bool,
    stdout: String,
    stderr: String,
)
    ensures
        begins(
            check_report(Some(tool), Ran::Done { success, stdout, stderr }),
            stdout@ + stderr@,
        ),
        !each(stdout@ + stderr@, |c: char| is_space(c)) ==> check_report(
            Some(tool),
            Ran::Done { success, stdout, stderr },
        ) == stdout@ + stderr@,
        each(stdout@ + stderr@, |c: char| is_space(c)) && success ==> check_report(
            Some(tool),
            Ran::Done { success, stdout, stderr },
        ) == stdout@ + stderr@ + "OK (exit 0, no output)"@,
        each(stdout@ + stderr@, |c: char| is_space(c)) && !success ==> check_report(
            Some(tool),
            Ran::Done { success, stdout, stderr },
        ) == stdout@ + stderr@ + "FAILED (exit non-zero)"@,
{
    let all = stdout@ + stderr@;
    let r = check_report(Some(tool), Ran::Done { success, stdout, stderr });
    trims_to_nothing(all);
    beginnings_and_ends(r, all);
    if !each(all, |c: char| is_space(c)) {
        assert(r =~= all + Seq::<char>::empty());
    }
}

/// A tool that could not be run is named, with the reason; and where there is
/// none, the report says so.
pub proof fn reports_name_what_failed(why: String, ran: Ran)
    ensures
        check_report(Some(CheckTool::Make), Ran::Failed(why)) == "failed to run make: "@ + why@,
        check_report(Some(CheckTool::Cargo), Ran::Failed(why)) == "failed to run cargo: "@ + why@,
        check_report(None, ran) == "(no Makefile/Cargo.toml — nothing to check)"@,
{
    reveal_strlit("failed to run ");
    reveal_strlit("make");
    reveal_strlit("cargo");
    reveal_strlit(": ");
    reveal_strlit("failed to run make: ");
    reveal_strlit("failed to run cargo: ");
    assert("failed to run make: "@ =~= "failed to run "@ + "make"@ + ": "@);
    assert("failed to run cargo: "@ =~= "failed to run "@ + "cargo"@ + ": "@);
}

/// A repository is marked by what can check it.
pub proof fn marks_say_what_checks(r: Repo)
    ensures
        r.has_makefile ==> check_word(r) == "make"@,
        !r.has_makefile && r.has_cargo_toml ==> check_word(r) == "cargo"@,
        !r.has_makefile && !r.has_cargo_toml ==> check_word(r) == "-"@,
{
}

/// What git wrote is its answer, without the white space around it, if it
/// succeeded; and there is no answer otherwise.
pub proof fn answers_are_what_was_written(
    a: Seq<char>,
    text: Seq<char>,
    b: Seq<char>,
    stdout: String,
    stderr: String,
    why: String,
)
    requires
        each(a, |c: char| is_space(c)),
        each(b, |c: char| is_space(c)),
        text.len() > 0 ==> !is_space(text[0]) && !is_space(text[text.len() - 1]),
        stdout@ == a + text + b,
    ensures
        answer(Ran::Done { success: true, stdout, stderr }) == Some(text),
        answer(Ran::Done { success: false, stdout, stderr }) is None,
        answer(Ran::Failed(why)) is None,
{
    trims_the_space_around(a, text, b);
}

/// A repository is named by the last part of its path.
pub proof fn names_are_the_last_part(dir: Seq<Seq<u8>>, name: Seq<char>)
    ensures
        repo_name(dir.push(encode_utf8(name))) == name,
{
    vstd::utf8::encode_utf8_valid_utf8(name);
    vstd::utf8::encode_utf8_decode_utf8(name);
    assert(dir.push(encode_utf8(name)).last() == encode_utf8(name));
}

/// A directory with `.git` is found, and nothing below it.
pub proof fn repositories_are_not_searched(at: Seq<Seq<u8>>, t: DirTree)
    requires
        t.has_git,
    ensures
        repos_in(at, t) == seq![at],
{
}

/// From a directory without `.git` the search goes into every directory in it but
/// those of four names.
pub proof fn four_directories_are_passed_by(
    at: Seq<Seq<u8>>,
    t: DirTree,
    k: int,
    p: Seq<Seq<u8>>,
)
    requires
        !t.has_git,
        0 <= k < t.entries@.len(),
        t.entries@[k].1 is Some,
        t.entries@[k].0@ != encode_utf8("target"@),
        t.entries@[k].0@ != encode_utf8("node_modules"@),
        t.entries@[k].0@ != encode_utf8(".git"@),
        t.entries@[k].0@ != encode_utf8(".venv"@),
        repos_in(at.push(t.entries@[k].0@), t.entries@[k].1->0).contains(p),
    ensures
        repos_in(at, t).contains(p),
{
    let name = t.entries@[k].0@;
    let d = t.entries@[k].1->0;
    discover_finds_what_is_led_to(at.push(name), d, p);
    let below = choose|below: Seq<Seq<u8>>| #[trigger]
        leads_to(d, below) && p == at.push(name) + below;
    let longer = seq![name] + below;
    assert(longer.drop_first() =~= below);
    assert(t.entries@[k].0@ == longer.first());
    assert(leads_to(t, longer));
    assert(p =~= at + longer);
    discover_finds_what_is_led_to(at, t, p);
}

/// What the search finds below a directory lies in a directory of it, and that is
/// none of the four that are passed by.
pub proof fn nothing_is_found_in_the_four(at: Seq<Seq<u8>>, t: DirTree, p: Seq<Seq<u8>>)
    requires
        !t.has_git,
        repos_in(at, t).contains(p),
    ensures
        p.len() > at.len(),
        at.is_prefix_of(p),
        p[at.len() as int] != encode_utf8("target"@),
        p[at.len() as int] != encode_utf8("node_modules"@),
        p[at.len() as int] != encode_utf8(".git"@),
        p[at.len() as int] != encode_utf8(".venv"@),
        exists|k: int|
            #![trigger t.entries@[k]]
            0 <= k < t.entries@.len() && t.entries@[k].1 is Some && t.entries@[k].0@
                == p[at.len() as int],
{
    discover_finds_what_is_led_to(at, t, p);
    let below = choose|below: Seq<Seq<u8>>| #[trigger] leads_to(t, below) && p == at + below;
    assert(below.len() > 0);
    assert(p[at.len() as int] == below.first());
    assert(at =~= p.subrange(0, at.len() as int));
    let k = choose|k: int|
        #![trigger t.entries@[k]]
        {
            &&& 0 <= k < t.entries@.len()
            &&& t.entries@[k].0@ == below.first()
            &&& t.entries@[k].1 is Some
            &&& leads_to(t.entries@[k].1->0, below.drop_first())
        };
    assert(t.entries@[k].0@ == p[at.len() as int]);
}

proof fn lemma_lex_skips_common<T>(
    common: Seq<T>,
    a: Seq<T>,
    b: Seq<T>,
    lt: spec_fn(T, T) -> bool,
)
    requires
        forall|x: T| !#[trigger] lt(x, x),
        a.len() == 0 || b.len() == 0 || a[0] != b[0],
    ensures
        lex(common + a, common + b, lt) <==> b.len() > 0 && (a.len() == 0 || lt(a[0], b[0])),
    decreases common.len(),
{
    if common.len() == 0 {
        assert(common + a =~= a);
        assert(common + b =~= b);
    } else {
        let x = common + a;
        let y = common + b;
        assert(x.drop_first() =~= common.drop_first() + a);
        assert(y.drop_first() =~= common.drop_first() + b);
        assert(x.first() == common[0] && y.first() == common[0]);
        assert(!lt(common[0], common[0]));
        lemma_lex_skips_common(common.drop_first(), a, b, lt);
    }
}

/// Of two paths the one stands first that holds the other, or whose first part of
/// their own is the beginning of the other's or has the smaller byte where these
/// first differ.
pub proof fn paths_are_ordered_by_their_first_difference(
    common: Seq<Seq<u8>>,
    start: Seq<u8>,
    a: Seq<u8>,
    b: Seq<u8>,
    x: Seq<Seq<u8>>,
    y: Seq<Seq<u8>>,
)
    requires
        start + a != start + b,
        a.len() == 0 || b.len() == 0 || a[0] != b[0],
    ensures
        path_before(common + (seq![start + a] + x), common + (seq![start + b] + y)) <==> b.len() > 0
            && (a.len() == 0 || a[0] < b[0]),
        path_before(common, common + (seq![start + a] + x)),
        !path_before(common + (seq![start + a] + x), common),
{
    let lt = bytes_order();
    assert forall|s: Seq<u8>| !#[trigger] lt(s, s) by {
        assert forall|c: u8| !#[trigger] byte_order()(c, c) by {
        }
        crate::order::lemma_lex_irreflexive(s, byte_order());
    }
    let p = seq![start + a] + x;
    let q = seq![start + b] + y;
    assert(p[0] == start + a && q[0] == start + b);
    lemma_lex_skips_common(common, p, q, lt);
    assert forall|c: u8| !#[trigger] byte_order()(c, c) by {
    }
    lemma_lex_skips_common(start, a, b, byte_order());
    let none = Seq::<Seq<u8>>::empty();
    lemma_lex_skips_common(common, none, p, lt);
    lemma_lex_skips_common(common, p, none, lt);
    assert(common + none =~= common);
}

/// Git is asked for the branch, for the counts against its upstream, for every
/// changed and new file, for the last commit and for the tracked files; names are
/// never quoted for their letters.
pub proof fn git_is_asked_five_questions()
    ensures
        git_question(GitQuery::Branch) == seq!["rev-parse"@, "--abbrev-ref"@, "HEAD"@],
        git_question(GitQuery::Counts) == seq![
            "rev-list"@,
            "--left-right"@,
            "--count"@,
            "HEAD...@{upstream}"@,
        ],
        git_question(GitQuery::Status).contains("status"@),
        git_question(GitQuery::Status).contains("--porcelain"@),
        git_question(GitQuery::Status).contains("--untracked-files=all"@),
        git_question(GitQuery::Status).contains("core.quotePath=false"@),
        git_question(GitQuery::LastCommit) == seq!["log"@, "-1"@, "--format=%h %s"@],
        git_question(GitQuery::Files).contains("ls-files"@),
        git_question(GitQuery::Files).contains("core.quotePath=false"@),
{
    let s = git_question(GitQuery::Status);
    assert(s[1] == "core.quotePath=false"@);
    assert(s[2] == "status"@);
    assert(s[3] == "--porcelain"@);
    assert(s[4] == "--untracked-files=all"@);
    let f = git_question(GitQuery::Files);
    assert(f[1] == "core.quotePath=false"@);
    assert(f[2] == "ls-files"@);
}

/// The search enters each directory but those of four names, and no file, each
/// judged by itself and in the order of the entries.
pub proof fn all_directories_but_four_are_entered(
    at: Seq<Seq<u8>>,
    a: Seq<Entry>,
    b: Seq<Entry>,
    e: Entry,
)
    ensures
        descents(at, a + b) == descents(at, a) + descents(at, b),
        e.is_dir && e.name@ != encode_utf8("target"@) && e.name@ != encode_utf8("node_modules"@)
            && e.name@ != encode_utf8(".git"@) && e.name@ != encode_utf8(".venv"@) ==> descents(
            at,
            seq![e],
        ) == seq![at.push(e.name@)],
        !e.is_dir ==> descents(at, seq![e]).len() == 0,
        e.name@ == encode_utf8("target"@) ==> descents(at, seq![e]).len() == 0,
        e.name@ == encode_utf8("node_modules"@) ==> descents(at, seq![e]).len() == 0,
        e.name@ == encode_utf8(".git"@) ==> descents(at, seq![e]).len() == 0,
        e.name@ == encode_utf8(".venv"@) ==> descents(at, seq![e]).len() == 0,
{
    let p = |e: Entry| entered(e);
    let to = |e: Entry| at.push(e.name@);
    Seq::filter_distributes_over_add(a, b, p);
    assert((a.filter(p) + b.filter(p)).map_values(to) =~= a.filter(p).map_values(to) + b.filter(
        p,
    ).map_values(to));
    crate::seqs::lemma_filter_one(e, p);
    if entered(e) {
        assert(seq![e].map_values(to) =~= seq![to(e)]);
    } else {
        assert(Seq::<Entry>::empty().map_values(to) =~= Seq::<Seq<Seq<u8>>>::empty());
    }
}

} // verus!
