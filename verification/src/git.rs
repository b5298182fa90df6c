//! Repositories: finding them in a directory tree, and their health.

use vstd::prelude::*;
use vstd::utf8::{decode_utf8, encode_utf8, valid_utf8};
use crate::command::Ran;
use crate::order::{
    byte_order, bytes_less, path_before, path_order, rising, sorted, text_before, text_less,
};
use crate::text::{
    before, chars_of, cut, find_from, parse_u32, text_of, texts, trim, trimmed, u32_of,
};

verus! {

broadcast use vstd::string::group_string_axioms;

/// The path of a directory from the root of the file system, part by part.
#[derive(Debug, Clone)]
pub struct RepoPath {
    pub parts: Vec<Vec<u8>>,
}

impl View for RepoPath {
    type V = Seq<Seq<u8>>;

    open spec fn view(&self) -> Seq<Seq<u8>> {
        self.parts@.map_values(|p: Vec<u8>| p@)
    }
}

/// The views of paths.
pub open spec fn paths(v: Seq<RepoPath>) -> Seq<Seq<Seq<u8>>> {
    v.map_values(|p: RepoPath| p@)
}

/// Copies the bytes of a name.
fn copy_bytes(v: &Vec<u8>) -> (r: Vec<u8>)
    ensures
        r@ == v@,
{
    let mut out: Vec<u8> = Vec::new();
    let mut i: usize = 0;
    assert(v@.take(0) =~= Seq::<u8>::empty());
    while i < v.len()
        invariant
            i <= v@.len(),
            out@ == v@.take(i as int),
        decreases v@.len() - i,
    {
        out.push(v[i]);
        assert(v@.take(i + 1) =~= v@.take(i as int).push(v@[i as int]));
        i += 1;
    }
    assert(v@.take(v@.len() as int) =~= v@);
    out
}

impl RepoPath {
    /// The path of something in this directory.
    pub fn join(&self, name: &Vec<u8>) -> (r: RepoPath)
        ensures
            r@ == self@.push(name@),
    {
        let mut parts: Vec<Vec<u8>> = Vec::new();
        let mut i: usize = 0;
        while i < self.parts.len()
            invariant
                i <= self.parts@.len(),
                parts@.len() == i,
                forall|k: int| 0 <= k < i ==> (#[trigger] parts@[k])@ == self@[k],
            decreases self.parts@.len() - i,
        {
            parts.push(copy_bytes(&self.parts[i]));
            i += 1;
        }
        parts.push(copy_bytes(name));
        let r = RepoPath { parts };
        assert(r@ =~= self@.push(name@));
        r
    }
}

/// Whether one path stands before another.
fn path_less(a: &RepoPath, b: &RepoPath) -> (r: bool)
    ensures
        r == path_before(a@, b@),
{
    let mut i: usize = 0;
    assert(a@.skip(0) =~= a@ && b@.skip(0) =~= b@);
    while i < a.parts.len() && i < b.parts.len()
        invariant
            i <= a@.len(),
            i <= b@.len(),
            path_before(a@, b@) == path_before(a@.skip(i as int), b@.skip(i as int)),
        decreases a@.len() - i,
    {
        assert(a@.skip(i as int).first() == a.parts@[i as int]@);
        assert(b@.skip(i as int).first() == b.parts@[i as int]@);
        if bytes_less(&a.parts[i], &b.parts[i]) {
            return true;
        }
        if bytes_less(&b.parts[i], &a.parts[i]) {
            proof {
                let x = a.parts@[i as int]@;
                let y = b.parts@[i as int]@;
                if x == y {
                    crate::order::lemma_lex_irreflexive(x, byte_order());
                }
            }
            return false;
        }
        proof {
            crate::order::lemma_lex_total(
                a.parts@[i as int]@,
                b.parts@[i as int]@,
                byte_order(),
            );
        }
        assert(a@.skip(i as int).drop_first() =~= a@.skip(i + 1));
        assert(b@.skip(i as int).drop_first() =~= b@.skip(i + 1));
        i += 1;
    }
    i < b.parts.len()
}

/// A directory entry.
#[derive(Debug)]
pub struct Entry {
    pub name: Vec<u8>,
    pub is_dir: bool,
}

/// What a look at a directory shows: whether it holds `.git`, and its entries
/// (none if it cannot be read).
#[derive(Debug)]
pub struct Look {
    pub has_git: bool,
    pub entries: Vec<Entry>,
}

/// The directories into which the search never goes.
pub open spec fn skipped(name: Seq<u8>) -> bool {
    ||| name == encode_utf8("target"@)
    ||| name == encode_utf8("node_modules"@)
    ||| name == encode_utf8(".git"@)
    ||| name == encode_utf8(".venv"@)
}

/// Whether the bytes of a name are those of a text.
fn is_name(name: &Vec<u8>, text: &str) -> (r: bool)
    ensures
        r == (name@ == encode_utf8(text@)),
{
    let t = text.as_bytes();
    if name.len() != t.len() {
        return false;
    }
    let mut i: usize = 0;
    while i < t.len()
        invariant
            i <= t@.len(),
            t@ == encode_utf8(text@),
            t@.len() == name@.len(),
            forall|k: int| 0 <= k < i ==> name@[k] == t@[k],
        decreases t@.len() - i,
    {
        if name[i] != t[i] {
            assert(name@[i as int] != t@[i as int]);
            return false;
        }
        i += 1;
    }
    assert(name@ =~= t@);
    true
}

/// Whether the search stays out of a directory with this name.
pub fn is_skipped(name: &Vec<u8>) -> (r: bool)
    ensures
        r == skipped(name@),
{
    is_name(name, "target") || is_name(name, "node_modules") || is_name(name, ".git") || is_name(
        name,
        ".venv",
    )
}

/// Whether the search goes into an entry.
pub open spec fn entered(e: Entry) -> bool {
    e.is_dir && !skipped(e.name@)
}

/// The directories into which the search goes from a directory, in the order
/// of its entries.
pub open spec fn descents(at: Seq<Seq<u8>>, entries: Seq<Entry>) -> Seq<Seq<Seq<u8>>> {
    entries.filter(|e: Entry| entered(e)).map_values(|e: Entry| at.push(e.name@))
}

/// A search in progress: the directories still to be looked at, the next one
/// last, and the repositories found.
#[derive(Debug)]
pub struct Walk {
    pub pending: Vec<RepoPath>,
    pub found: Vec<RepoPath>,
}

impl Walk {
    /// A search that begins in a directory.
    pub fn new(root: RepoPath) -> (r: Walk)
        ensures
            paths(r.pending@) == seq![root@],
            paths(r.found@) == Seq::<Seq<Seq<u8>>>::empty(),
    {
        let r = Walk { pending: vec![root], found: Vec::new() };
        assert(paths(r.pending@) =~= seq![root@]);
        assert(paths(r.found@) =~= Seq::<Seq<Seq<u8>>>::empty());
        r
    }

    /// The directory to look at next; none when the search is over.
    pub fn next(&self) -> (r: Option<&RepoPath>)
        ensures
            match r {
                Some(p) => self.pending@.len() > 0 && p@ == paths(self.pending@).last(),
                None => self.pending@.len() == 0,
            },
    {
        if self.pending.len() == 0 {
            None
        } else {
            Some(&self.pending[self.pending.len() - 1])
        }
    }

    /// Goes on from a look at the next directory: a repository is kept and not
    /// gone into, any other directory is gone into.
    pub fn walk(&mut self, look: &Look)
        requires
            old(self).pending@.len() > 0,
        ensures
            look.has_git ==> paths(final(self).found@) == paths(old(self).found@).push(
                paths(old(self).pending@).last(),
            ) && paths(final(self).pending@) == paths(old(self).pending@).drop_last(),
            !look.has_git ==> paths(final(self).found@) == paths(old(self).found@) && paths(
                final(self).pending@,
            ) == paths(old(self).pending@).drop_last() + descents(
                paths(old(self).pending@).last(),
                look.entries@,
            ).reverse(),
    {
        let ghost pending0 = paths(self.pending@);
        let ghost found0 = paths(self.found@);
        if let Some(at) = self.pending.pop() {
            assert(at@ == pending0.last());
            assert(paths(self.pending@) =~= pending0.drop_last());
            if look.has_git {
                self.found.push(at);
                assert(paths(self.found@) =~= found0.push(at@));
                return ;
            }
            let ghost p = |e: Entry| entered(e);
            let ghost child = |e: Entry| at@.push(e.name@);
            let ghost all = look.entries@;
            let ghost rest = pending0.drop_last();
            let mut i: usize = look.entries.len();
            proof {
                reveal(Seq::filter);
                assert(all.skip(i as int) =~= Seq::<Entry>::empty());
                assert(paths(self.pending@) =~= rest + all.skip(i as int).filter(p).map_values(
                    child,
                ).reverse());
            }
            while i > 0
                invariant
                    i <= all.len(),
                    all == look.entries@,
                    p == (|e: Entry| entered(e)),
                    child == (|e: Entry| at@.push(e.name@)),
                    paths(self.pending@) == rest + all.skip(i as int).filter(p).map_values(
                        child,
                    ).reverse(),
                    paths(self.found@) == found0,
                decreases i,
            {
                let ghost pending1 = paths(self.pending@);
                i -= 1;
                let e = &look.entries[i];
                proof {
                    assert(all.skip(i as int).first() == *e);
                    assert(all.skip(i as int).drop_first() =~= all.skip(i + 1));
                    crate::seqs::lemma_filter_first(all.skip(i as int), p);
                }
                if e.is_dir && !is_skipped(&e.name) {
                    let c = at.join(&e.name);
                    self.pending.push(c);
                    assert(paths(self.pending@) =~= pending1.push(c@));
                    assert(all.skip(i as int).filter(p).map_values(child) =~= seq![c@] + all.skip(
                        i + 1,
                    ).filter(p).map_values(child));
                    assert(all.skip(i as int).filter(p).map_values(child).reverse() =~= all.skip(
                        i + 1,
                    ).filter(p).map_values(child).reverse().push(c@));
                    assert(paths(self.pending@) =~= rest + all.skip(i as int).filter(p).map_values(
                        child,
                    ).reverse());
                }
            }
            assert(all.skip(0) =~= all);
        }
    }
}

/// A directory tree: whether the directory holds `.git`, and its entries, with
/// the tree of each that is a directory.
#[derive(Debug)]
pub struct DirTree {
    pub has_git: bool,
    pub entries: Vec<(Vec<u8>, Option<DirTree>)>,
}

/// The repositories that a search finds in a directory at a path.
pub open spec fn repos_in(at: Seq<Seq<u8>>, t: DirTree) -> Seq<Seq<Seq<u8>>>
    decreases t, t.entries@.len() + 1,
{
    if t.has_git {
        seq![at]
    } else {
        repos_among(at, t, 0)
    }
}

/// The repositories that a search finds in the entries of a directory from the
/// `i`th on.
pub open spec fn repos_among(at: Seq<Seq<u8>>, t: DirTree, i: nat) -> Seq<Seq<Seq<u8>>>
    decreases t, t.entries@.len() - i,
{
    if i >= t.entries@.len() {
        Seq::empty()
    } else {
        let e = t.entries@[i as int];
        let here = match e.1 {
            Some(d) => if skipped(e.0@) {
                Seq::empty()
            } else {
                repos_in(at.push(e.0@), d)
            },
            None => Seq::empty(),
        };
        here + repos_among(at, t, i + 1)
    }
}

/// How many directories a tree holds.
spec fn dirs_in(t: DirTree) -> nat
    decreases t, t.entries@.len() + 1,
{
    1 + dirs_among(t, 0)
}

/// How many directories the entries of a tree hold from the `i`th on.
spec fn dirs_among(t: DirTree, i: nat) -> nat
    decreases t, t.entries@.len() - i,
{
    if i >= t.entries@.len() {
        0
    } else {
        (match t.entries@[i as int].1 {
            Some(d) => dirs_in(d),
            None => 0,
        }) + dirs_among(t, i + 1)
    }
}

/// The repositories still to be found in pending directories.
spec fn todo(ps: Seq<Seq<Seq<u8>>>, ts: Seq<&DirTree>) -> Seq<Seq<Seq<u8>>>
    decreases ps.len(),
{
    if ps.len() == 0 || ps.len() != ts.len() {
        Seq::empty()
    } else {
        repos_in(ps.last(), *ts.last()) + todo(ps.drop_last(), ts.drop_last())
    }
}

/// How many directories pending trees hold.
spec fn dirs_of(ts: Seq<&DirTree>) -> nat
    decreases ts.len(),
{
    if ts.len() == 0 {
        0
    } else {
        dirs_in(*ts.last()) + dirs_of(ts.drop_last())
    }
}

/// What a look at the top of a tree shows.
fn look_at(t: &DirTree) -> (r: Look)
    ensures
        r.has_git == t.has_git,
        r.entries@.len() == t.entries@.len(),
        forall|k: int|
            0 <= k < t.entries@.len() ==> (#[trigger] r.entries@[k]).name@ == t.entries@[k].0@
                && r.entries@[k].is_dir == (t.entries@[k].1 is Some),
{
    let mut entries: Vec<Entry> = Vec::new();
    let mut i: usize = 0;
    while i < t.entries.len()
        invariant
            i <= t.entries@.len(),
            entries@.len() == i,
            forall|k: int|
                0 <= k < i ==> (#[trigger] entries@[k]).name@ == t.entries@[k].0@
                    && entries@[k].is_dir == (t.entries@[k].1 is Some),
        decreases t.entries@.len() - i,
    {
        entries.push(
            Entry { name: copy_bytes(&t.entries[i].0), is_dir: t.entries[i].1.is_some() },
        );
        i += 1;
    }
    Look { has_git: t.has_git, entries }
}

/// The paths in order.
pub fn sort_paths(v: Vec<RepoPath>) -> (r: Vec<RepoPath>)
    ensures
        sorted(paths(r@), path_order()),
        paths(r@).to_multiset() == paths(v@).to_multiset(),
{
    let mut rest = v;
    let mut out: Vec<RepoPath> = Vec::new();
    let ghost all = paths(v@);
    proof {
        crate::order::lemma_path_order();
        assert(paths(rest@) + paths(out@) =~= all);
    }
    while rest.len() > 0
        invariant
            sorted(paths(out@), path_order()),
            crate::order::strict_order(path_order()),
            (paths(rest@) + paths(out@)).to_multiset() == all.to_multiset(),
        decreases rest.len(),
    {
        let ghost rest0 = paths(rest@);
        let ghost out0 = paths(out@);
        if let Some(p) = rest.pop() {
            assert(paths(rest@) =~= rest0.drop_last());
            let mut at: usize = 0;
            while at < out.len() && path_less(&out[at], &p)
                invariant
                    at <= out@.len(),
                    out0 == paths(out@),
                    forall|k: int| 0 <= k < at ==> path_order()(#[trigger] out0[k], p@),
                decreases out@.len() - at,
            {
                at += 1;
            }
            proof {
                assert(at < out0.len() ==> !path_order()(out0[at as int], p@));
                crate::order::lemma_insert_sorted(out0, at as int, p@, path_order());
            }
            out.insert(at, p);
            proof {
                broadcast use vstd::seq_lib::group_to_multiset_ensures;

                assert(paths(out@) =~= out0.insert(at as int, p@));
                vstd::seq_lib::lemma_multiset_commutative(rest0, out0);
                assert(rest0 =~= rest0.drop_last().push(p@));
                vstd::seq_lib::lemma_multiset_commutative(rest0.drop_last(), paths(out@));
                assert((rest0.drop_last() + paths(out@)).to_multiset() =~= (rest0
                    + out0).to_multiset());
            }
        }
    }
    assert(paths(rest@) + paths(out@) =~= paths(out@));
    out
}

/// Whether no directory of a tree holds two entries of one name, as none on a
/// disk does.
pub open spec fn names_once(t: DirTree) -> bool
    decreases t,
{
    &&& forall|i: int, j: int|
        0 <= i < j < t.entries@.len() ==> (#[trigger] t.entries@[i]).0@ != (
        #[trigger] t.entries@[j]).0@
    &&& forall|i: int|
        #![trigger t.entries@[i]]
        0 <= i < t.entries@.len() && t.entries@[i].1 is Some ==> names_once(t.entries@[i].1->0)
}

/// Whether no path occurs twice and none lies inside another.
pub open spec fn apart(s: Seq<Seq<Seq<u8>>>) -> bool {
    forall|i: int, j: int|
        0 <= i < s.len() && 0 <= j < s.len() && i != j ==> !(#[trigger] s[i]).is_prefix_of(
            #[trigger] s[j],
        )
}

/// The repositories of a directory tree, in order. Each step is a `walk`.
pub fn discover(root: RepoPath, tree: &DirTree) -> (r: Vec<RepoPath>)
    ensures
        sorted(paths(r@), path_order()),
        paths(r@).to_multiset() == repos_in(root@, *tree).to_multiset(),
        names_once(*tree) ==> apart(paths(r@)) && rising(paths(r@), path_order()),
{
    let ghost goal = repos_in(root@, *tree);
    let mut search = Walk::new(root);
    let mut trees: Vec<&DirTree> = vec![tree];
    proof {
        reveal_with_fuel(todo, 2);
        assert(paths(search.pending@).drop_last() =~= Seq::<Seq<Seq<u8>>>::empty());
        assert(trees@.drop_last() =~= Seq::<&DirTree>::empty());
        assert(paths(search.found@) + todo(paths(search.pending@), trees@) =~= goal);
    }
    while trees.len() > 0
        invariant
            paths(search.pending@).len() == trees@.len(),
            paths(search.found@) + todo(paths(search.pending@), trees@) == goal,
        decreases dirs_of(trees@),
    {
        let ghost found0 = paths(search.found@);
        let ghost pending0 = paths(search.pending@);
        let ghost at = pending0.last();
        let ghost rest = pending0.drop_last();
        let ghost trees1 = trees@;
        let t: &DirTree = trees[trees.len() - 1];
        trees.pop();
        let ghost under = trees@;
        assert(trees1 =~= under.push(t));
        let look = look_at(t);
        search.walk(&look);
        assert(found0 + todo(pending0, under.push(t)) == goal);
        assert(under.push(t).drop_last() =~= under);
        if t.has_git {
            assert(paths(search.found@) + todo(rest, under) =~= goal);
        } else {
            let ghost all = look.entries@;
            let ghost p = |e: Entry| entered(e);
            let mut i: usize = t.entries.len();
            proof {
                reveal(Seq::filter);
                assert(all.skip(i as int) =~= Seq::<Entry>::empty());
                assert(rest + descents(at, all.skip(i as int)).reverse() =~= rest);
                assert(repos_among(at, *t, i as nat) + todo(rest, under) =~= todo(rest, under));
            }
            while i > 0
                invariant
                    i <= t.entries@.len() == all.len(),
                    p == (|e: Entry| entered(e)),
                    forall|k: int|
                        0 <= k < t.entries@.len() ==> (#[trigger] all[k]).name@
                            == t.entries@[k].0@ && all[k].is_dir == (t.entries@[k].1 is Some),
                    rest.len() == under.len(),
                    trees@.len() == rest.len() + descents(at, all.skip(i as int)).len(),
                    todo(rest + descents(at, all.skip(i as int)).reverse(), trees@) == repos_among(
                        at,
                        *t,
                        i as nat,
                    ) + todo(rest, under),
                    dirs_of(trees@) <= dirs_among(*t, i as nat) + dirs_of(under),
                decreases i,
            {
                let ghost trees0 = trees@;
                let ghost d0 = descents(at, all.skip(i as int));
                i -= 1;
                let name = &t.entries[i].0;
                proof {
                    assert(all.skip(i as int).first() == all[i as int]);
                    assert(all.skip(i as int).drop_first() =~= all.skip(i + 1));
                    crate::seqs::lemma_filter_first(all.skip(i as int), p);
                }
                let ghost d1 = descents(at, all.skip(i as int));
                if let Some(d) = &t.entries[i].1 {
                    if !is_skipped(name) {
                        trees.push(d);
                        proof {
                            let c = at.push(name@);
                            assert(d1 =~= seq![c] + d0);
                            assert(rest + d1.reverse() =~= (rest + d0.reverse()).push(c));
                            assert((rest + d1.reverse()).drop_last() =~= rest + d0.reverse());
                            assert(trees@.drop_last() =~= trees0);
                            assert(repos_among(at, *t, i as nat) =~= repos_in(c, *d)
                                + repos_among(at, *t, i as nat + 1));
                            assert(repos_in(c, *d) + (repos_among(at, *t, i as nat + 1) + todo(
                                rest,
                                under,
                            )) =~= repos_among(at, *t, i as nat) + todo(rest, under));
                        }
                    } else {
                        assert(repos_among(at, *t, i as nat) =~= repos_among(
                            at,
                            *t,
                            i as nat + 1,
                        ));
                        assert(d1 =~= d0);
                    }
                } else {
                    assert(repos_among(at, *t, i as nat) =~= repos_among(at, *t, i as nat + 1));
                    assert(d1 =~= d0);
                }
            }
            proof {
                assert(all.skip(0) =~= all);
                assert(found0 + (repos_in(at, *t) + todo(rest, under)) == goal);
            }
        }
    }
    proof {
        assert(paths(search.found@) + todo(paths(search.pending@), trees@) =~= paths(
            search.found@,
        ));
    }
    let r = sort_paths(search.found);
    proof {
        if names_once(*tree) {
            repositories_lie_apart(root@, *tree);
            lemma_apart_in_any_order(goal, paths(r@));
            lemma_apart_rises(paths(r@));
        }
    }
    r
}

/// Whether a path below a directory leads to a repository: it ends in a
/// directory with `.git`, no directory on the way there has `.git`, and none is
/// one that the search skips.
pub open spec fn leads_to(t: DirTree, below: Seq<Seq<u8>>) -> bool
    decreases below.len(),
{
    if below.len() == 0 {
        t.has_git
    } else {
        &&& !t.has_git
        &&& !skipped(below.first())
        &&& exists|k: int|
            #![trigger t.entries@[k]]
            {
                &&& 0 <= k < t.entries@.len()
                &&& t.entries@[k].0@ == below.first()
                &&& t.entries@[k].1 is Some
                &&& leads_to(t.entries@[k].1->0, below.drop_first())
            }
    }
}

/// A repository is found exactly where a path leads to one, so the search never
/// goes into a repository, nor into a directory that it skips.
pub proof fn discover_finds_what_is_led_to(at: Seq<Seq<u8>>, t: DirTree, p: Seq<Seq<u8>>)
    ensures
        repos_in(at, t).contains(p) <==> exists|below: Seq<Seq<u8>>| #[trigger]
            leads_to(t, below) && p == at + below,
{
    if repos_in(at, t).contains(p) {
        let j = choose|j: int| 0 <= j < repos_in(at, t).len() && repos_in(at, t)[j] == p;
        let below = lemma_found_is_led_to(at, t, j);
        assert(leads_to(t, below) && p == at + below);
    }
    if exists|below: Seq<Seq<u8>>| #[trigger] leads_to(t, below) && p == at + below {
        let below = choose|below: Seq<Seq<u8>>| #[trigger] leads_to(t, below) && p == at + below;
        lemma_led_to_is_found(at, t, below);
    }
}

proof fn lemma_found_is_led_to(at: Seq<Seq<u8>>, t: DirTree, j: int) -> (below: Seq<Seq<u8>>)
    requires
        0 <= j < repos_in(at, t).len(),
    ensures
        leads_to(t, below),
        repos_in(at, t)[j] == at + below,
    decreases t, t.entries@.len() + 1,
{
    if t.has_git {
        let below = Seq::<Seq<u8>>::empty();
        assert(at + below =~= at);
        below
    } else {
        lemma_among_is_led_to(at, t, 0, j)
    }
}

proof fn lemma_among_is_led_to(at: Seq<Seq<u8>>, t: DirTree, i: nat, j: int) -> (below: Seq<
    Seq<u8>,
>)
    requires
        !t.has_git,
        0 <= j < repos_among(at, t, i).len(),
    ensures
        leads_to(t, below),
        repos_among(at, t, i)[j] == at + below,
    decreases t, t.entries@.len() - i,
{
    let e = t.entries@[i as int];
    let here = if e.1 is Some && !skipped(e.0@) {
        repos_in(at.push(e.0@), e.1->0)
    } else {
        Seq::empty()
    };
    assert(repos_among(at, t, i) == here + repos_among(at, t, i + 1));
    if j < here.len() {
        assert(decreases_to!(t => t.entries@[i as int].1->0));
        let rest = lemma_found_is_led_to(at.push(e.0@), e.1->0, j);
        let below = seq![e.0@] + rest;
        assert(below.drop_first() =~= rest);
        assert(t.entries@[i as int].0@ == below.first());
        assert(at.push(e.0@) + rest =~= at + below);
        below
    } else {
        lemma_among_is_led_to(at, t, i + 1, j - here.len())
    }
}

proof fn lemma_led_to_is_found(at: Seq<Seq<u8>>, t: DirTree, below: Seq<Seq<u8>>)
    requires
        leads_to(t, below),
    ensures
        repos_in(at, t).contains(at + below),
    decreases below.len(),
{
    if below.len() == 0 {
        assert(at + below =~= at);
        assert(repos_in(at, t)[0] == at);
    } else {
        let k = choose|k: int|
            #![trigger t.entries@[k]]
            {
                &&& 0 <= k < t.entries@.len()
                &&& t.entries@[k].0@ == below.first()
                &&& t.entries@[k].1 is Some
                &&& leads_to(t.entries@[k].1->0, below.drop_first())
            };
        lemma_led_to_is_found(at.push(below.first()), t.entries@[k].1->0, below.drop_first());
        assert(at.push(below.first()) + below.drop_first() =~= at + below);
        lemma_found_among(at, t, 0, k, at + below);
    }
}

proof fn lemma_found_among(at: Seq<Seq<u8>>, t: DirTree, i: nat, k: int, p: Seq<Seq<u8>>)
    requires
        i <= k < t.entries@.len(),
        t.entries@[k].1 is Some,
        !skipped(t.entries@[k].0@),
        repos_in(at.push(t.entries@[k].0@), t.entries@[k].1->0).contains(p),
    ensures
        repos_among(at, t, i).contains(p),
    decreases k - i,
{
    let e = t.entries@[i as int];
    let here = if e.1 is Some && !skipped(e.0@) {
        repos_in(at.push(e.0@), e.1->0)
    } else {
        Seq::empty()
    };
    let all = here + repos_among(at, t, i + 1);
    assert(repos_among(at, t, i) == all);
    if i == k {
        let j = choose|j: int| 0 <= j < here.len() && here[j] == p;
        assert(all[j] == p);
    } else {
        lemma_found_among(at, t, i + 1, k, p);
        let rest = repos_among(at, t, i + 1);
        let j = choose|j: int| 0 <= j < rest.len() && rest[j] == p;
        assert(all[here.len() + j] == p);
    }
}

/// No repository is found twice, and none inside another.
pub proof fn repositories_lie_apart(at: Seq<Seq<u8>>, t: DirTree)
    requires
        names_once(t),
    ensures
        apart(repos_in(at, t)),
    decreases t, t.entries@.len() + 1,
{
    if !t.has_git {
        lemma_among_lie_apart(at, t, 0);
    }
}

proof fn lemma_among_lie_apart(at: Seq<Seq<u8>>, t: DirTree, i: nat)
    requires
        names_once(t),
    ensures
        apart(repos_among(at, t, i)),
    decreases t, t.entries@.len() - i,
{
    if i < t.entries@.len() {
        let e = t.entries@[i as int];
        let here = if e.1 is Some && !skipped(e.0@) {
            repos_in(at.push(e.0@), e.1->0)
        } else {
            Seq::empty()
        };
        let rest = repos_among(at, t, i + 1);
        let all = here + rest;
        assert(repos_among(at, t, i) == all);
        if e.1 is Some && !skipped(e.0@) {
            assert(decreases_to!(t => t.entries@[i as int].1->0));
            repositories_lie_apart(at.push(e.0@), e.1->0);
        }
        lemma_among_lie_apart(at, t, i + 1);
        assert forall|x: int, y: int|
            0 <= x < all.len() && 0 <= y < all.len() && x != y implies !(
        #[trigger] all[x]).is_prefix_of(#[trigger] all[y]) by {
            let n = at.len() as int;
            if x < here.len() && y < here.len() {
                assert(all[x] == here[x] && all[y] == here[y]);
            } else if x >= here.len() && y >= here.len() {
                assert(all[x] == rest[x - here.len()] && all[y] == rest[y - here.len()]);
            } else {
                lemma_goes_through(at, t, i, x);
                lemma_goes_through(at, t, i, y);
                let (a, b) = if x < here.len() {
                    (x, y)
                } else {
                    (y, x)
                };
                let below = lemma_found_is_led_to(at.push(e.0@), e.1->0, a);
                assert(all[a] == at.push(e.0@) + below);
                assert(all[a][n] == e.0@);
                let k = lemma_goes_through(at, t, i + 1, b - here.len());
                assert(all[b] == rest[b - here.len()]);
                assert(t.entries@[i as int].0@ != t.entries@[k].0@);
                if all[x].is_prefix_of(all[y]) {
                    assert(all[x][n] == all[y].subrange(0, all[x].len() as int)[n]);
                    assert(all[x][n] == all[y][n]);
                }
            }
        }
    }
}

/// A repository that is found among entries lies below one of them.
proof fn lemma_goes_through(at: Seq<Seq<u8>>, t: DirTree, i: nat, j: int) -> (k: int)
    requires
        0 <= j < repos_among(at, t, i).len(),
    ensures
        i <= k < t.entries@.len(),
        repos_among(at, t, i)[j].len() > at.len(),
        repos_among(at, t, i)[j][at.len() as int] == t.entries@[k].0@,
    decreases t.entries@.len() - i,
{
    let e = t.entries@[i as int];
    let here = if e.1 is Some && !skipped(e.0@) {
        repos_in(at.push(e.0@), e.1->0)
    } else {
        Seq::empty()
    };
    assert(repos_among(at, t, i) == here + repos_among(at, t, i + 1));
    if j < here.len() {
        let below = lemma_found_is_led_to(at.push(e.0@), e.1->0, j);
        assert((at.push(e.0@) + below)[at.len() as int] == e.0@);
        i as int
    } else {
        lemma_goes_through(at, t, i + 1, j - here.len())
    }
}

/// Paths that lie apart do so in any order.
proof fn lemma_apart_in_any_order(a: Seq<Seq<Seq<u8>>>, b: Seq<Seq<Seq<u8>>>)
    requires
        apart(a),
        a.to_multiset() == b.to_multiset(),
    ensures
        apart(b),
{
    broadcast use vstd::seq_lib::group_to_multiset_ensures;

    assert(a.no_duplicates()) by {
        assert forall|i: int, j: int|
            0 <= i < a.len() && 0 <= j < a.len() && i != j implies a[i] != a[j] by {
            if a[i] == a[j] {
                assert(a[i] =~= a[j].subrange(0, a[i].len() as int));
                assert(a[i].is_prefix_of(a[j]));
            }
        }
    }
    a.lemma_multiset_has_no_duplicates();
    b.lemma_multiset_has_no_duplicates_conv();
    assert forall|i: int, j: int|
        0 <= i < b.len() && 0 <= j < b.len() && i != j implies !(#[trigger] b[i]).is_prefix_of(
        #[trigger] b[j],
    ) by {
        assert(b.contains(b[i]) && b.contains(b[j]));
        assert(b.to_multiset().count(b[i]) > 0 && b.to_multiset().count(b[j]) > 0);
        assert(a.contains(b[i]) && a.contains(b[j]));
        let x = choose|x: int| 0 <= x < a.len() && a[x] == b[i];
        let y = choose|y: int| 0 <= y < a.len() && a[y] == b[j];
        assert(!a[x].is_prefix_of(a[y]));
    }
}

/// Sorted paths that lie apart rise.
proof fn lemma_apart_rises(s: Seq<Seq<Seq<u8>>>)
    requires
        apart(s),
        sorted(s, path_order()),
    ensures
        rising(s, path_order()),
{
    crate::order::lemma_path_order();
    let lt = path_order();
    assert forall|i: int, j: int| 0 <= i < j < s.len() implies lt(
        #[trigger] s[i],
        #[trigger] s[j],
    ) by {
        assert(lt(s[i], s[j]) || lt(s[j], s[i]) || s[i] == s[j]);
        if s[i] == s[j] {
            assert(s[i] =~= s[j].subrange(0, s[i].len() as int));
            assert(s[i].is_prefix_of(s[j]));
        }
    }
}

/// A repository and a snapshot of its health.
#[derive(Debug, Clone)]
pub struct Repo {
    pub path: RepoPath,
    pub name: String,
    pub branch: String,
    /// How many commits the branch has that its upstream has not.
    pub ahead: u32,
    /// How many commits the upstream has that the branch has not.
    pub behind: u32,
    pub dirty: bool,
    pub last_commit: String,
    pub has_makefile: bool,
    pub has_cargo_toml: bool,
}

/// What git is asked of a repository.
#[derive(Debug, Clone, Copy, PartialEq, Eq, Structural)]
pub enum GitQuery {
    Branch,
    Counts,
    Status,
    LastCommit,
    Files,
}

/// The arguments of a question to git. The counts are those of the commits that
/// only `HEAD` has, and of the commits that only its upstream has. Files in new
/// directories are named one by one, and names beyond ASCII as they are.
pub open spec fn git_question(q: GitQuery) -> Seq<Seq<char>> {
    match q {
        GitQuery::Branch => seq!["rev-parse"@, "--abbrev-ref"@, "HEAD"@],
        GitQuery::Counts => seq![
            "rev-list"@,
            "--left-right"@,
            "--count"@,
            "HEAD...@{upstream}"@,
        ],
        GitQuery::Status => seq![
            "-c"@,
            "core.quotePath=false"@,
            "status"@,
            "--porcelain"@,
            "--untracked-files=all"@,
        ],
        GitQuery::LastCommit => seq!["log"@, "-1"@, "--format=%h %s"@],
        GitQuery::Files => seq!["-c"@, "core.quotePath=false"@, "ls-files"@],
    }
}

/// The arguments of a question to git.
pub fn git_args(q: GitQuery) -> (r: Vec<String>)
    ensures
        texts(r@) == git_question(q),
{
    let r = match q {
        GitQuery::Branch => vec![
            "rev-parse".to_owned(),
            "--abbrev-ref".to_owned(),
            "HEAD".to_owned(),
        ],
        GitQuery::Counts => vec![
            "rev-list".to_owned(),
            "--left-right".to_owned(),
            "--count".to_owned(),
            "HEAD...@{upstream}".to_owned(),
        ],
        GitQuery::Status => vec![
            "-c".to_owned(),
            "core.quotePath=false".to_owned(),
            "status".to_owned(),
            "--porcelain".to_owned(),
            "--untracked-files=all".to_owned(),
        ],
        GitQuery::LastCommit => vec![
            "log".to_owned(),
            "-1".to_owned(),
            "--format=%h %s".to_owned(),
        ],
        GitQuery::Files => vec![
            "-c".to_owned(),
            "core.quotePath=false".to_owned(),
            "ls-files".to_owned(),
        ],
    };
    assert(texts(r@) =~= git_question(q));
    r
}

/// What git answered: its trimmed output, if it succeeded.
pub open spec fn answer(r: Ran) -> Option<Seq<char>> {
    match r.good() {
        Some(s) => Some(trimmed(s)),
        None => None,
    }
}

/// What git answered.
pub fn git(r: &Ran) -> (a: Option<String>)
    ensures
        match a {
            Some(s) => answer(*r) == Some(s@),
            None => answer(*r) is None,
        },
{
    match r.output() {
        Some(s) => Some(text_of(&trim(&chars_of(s)))),
        None => None,
    }
}

/// `String::from_utf8` of std: the text that bytes encode in UTF-8, or none
/// where they are no UTF-8.
#[verifier::external_body]
fn utf8_text(v: Vec<u8>) -> (r: Option<String>)
    ensures
        match r {
            Some(s) => valid_utf8(v@) && s@ == decode_utf8(v@),
            None => !valid_utf8(v@),
        },
{
    String::from_utf8(v).ok()
}

/// The name of a repository: the last part of its path, or a question mark
/// where there is none or it is no text.
pub open spec fn repo_name(path: Seq<Seq<u8>>) -> Seq<char> {
    if path.len() > 0 && valid_utf8(path.last()) {
        decode_utf8(path.last())
    } else {
        "?"@
    }
}

/// The name of the repository at a path.
pub fn name_of(path: &RepoPath) -> (r: String)
    ensures
        r@ == repo_name(path@),
{
    if path.parts.len() == 0 {
        return "?".to_owned();
    }
    match utf8_text(copy_bytes(&path.parts[path.parts.len() - 1])) {
        Some(s) => s,
        None => "?".to_owned(),
    }
}

/// The text up to the first tab.
pub open spec fn to_tab(s: Seq<char>) -> Seq<char> {
    s.take(before(s, '\t') as int)
}

/// The text after the first tab, if there is one.
pub open spec fn past_tab(s: Seq<char>) -> Option<Seq<char>> {
    if before(s, '\t') < s.len() {
        Some(s.skip(before(s, '\t') as int + 1))
    } else {
        None
    }
}

/// A number, or zero.
pub open spec fn or_zero(n: Option<u32>) -> u32 {
    match n {
        Some(n) => n,
        None => 0,
    }
}

/// Two counts that a tab parts; what is missing or no number is zero.
pub open spec fn two_counts(s: Seq<char>) -> (u32, u32) {
    (
        or_zero(u32_of(to_tab(s))),
        match past_tab(s) {
            Some(t) => or_zero(u32_of(to_tab(t))),
            None => 0,
        },
    )
}

/// The number that a text writes, or zero.
fn number_or_zero(v: &Vec<char>) -> (r: u32)
    ensures
        r == or_zero(u32_of(v@)),
{
    match parse_u32(v) {
        Some(n) => n,
        None => 0,
    }
}

/// Reads two counts that a tab parts.
pub fn parse_counts(text: &str) -> (r: (u32, u32))
    ensures
        r == two_counts(text@),
{
    let v = chars_of(text);
    assert(v@.skip(0) =~= v@);
    let i = find_from(&v, '\t', 0);
    let first = cut(&v, 0, i);
    assert(first@ =~= to_tab(v@));
    let a = number_or_zero(&first);
    if i == v.len() {
        return (a, 0);
    }
    let ghost rest = v@.skip(i + 1);
    let j = find_from(&v, '\t', i + 1);
    let second = cut(&v, i + 1, j);
    assert(second@ =~= to_tab(rest));
    (a, number_or_zero(&second))
}

/// The health of a repository, from what git answered and whether it holds a
/// `Makefile` and a `Cargo.toml`.
pub fn health(
    path: RepoPath,
    branch: &Ran,
    counts: &Ran,
    status: &Ran,
    last_commit: &Ran,
    has_makefile: bool,
    has_cargo_toml: bool,
) -> (r: Repo)
    ensures
        r.path == path,
        r.name@ == repo_name(path@),
        r.branch@ == (match answer(*branch) {
            Some(s) => s,
            None => "?"@,
        }),
        (r.ahead, r.behind) == (match answer(*counts) {
            Some(s) => two_counts(s),
            None => (0, 0),
        }),
        r.dirty == (match answer(*status) {
            Some(s) => s.len() > 0,
            None => false,
        }),
        r.last_commit@ == (match answer(*last_commit) {
            Some(s) => s,
            None => Seq::empty(),
        }),
        r.has_makefile == has_makefile,
        r.has_cargo_toml == has_cargo_toml,
{
    let name = name_of(&path);
    let branch = match git(branch) {
        Some(s) => s,
        None => "?".to_owned(),
    };
    let (ahead, behind) = match git(counts) {
        Some(s) => parse_counts(s.as_str()),
        None => (0, 0),
    };
    let dirty = match git(status) {
        Some(s) => !s.as_str().is_empty(),
        None => false,
    };
    let last_commit = match git(last_commit) {
        Some(s) => s,
        None => String::new(),
    };
    Repo { path, name, branch, ahead, behind, dirty, last_commit, has_makefile, has_cargo_toml }
}

/// What checks a repository.
#[derive(Debug, Clone, Copy, PartialEq, Eq, Structural)]
pub enum CheckTool {
    Make,
    Cargo,
}

/// What checks a repository: `make` where there is a `Makefile`, else `cargo`
/// where there is a `Cargo.toml`.
pub fn check_tool(makefile: bool, cargo_toml: bool) -> (r: Option<CheckTool>)
    ensures
        r == (if makefile {
            Some(CheckTool::Make)
        } else if cargo_toml {
            Some(CheckTool::Cargo)
        } else {
            None
        }),
{
    if makefile {
        Some(CheckTool::Make)
    } else if cargo_toml {
        Some(CheckTool::Cargo)
    } else {
        None
    }
}

impl CheckTool {
    /// The command of the tool.
    pub open spec fn command(self) -> Seq<char> {
        match self {
            CheckTool::Make => "make"@,
            CheckTool::Cargo => "cargo"@,
        }
    }

    /// The command of the tool; its argument is `check`.
    pub fn name(self) -> (r: &'static str)
        ensures
            r@ == self.command(),
    {
        match self {
            CheckTool::Make => "make",
            CheckTool::Cargo => "cargo",
        }
    }
}

/// What can check a repository, in a word.
pub open spec fn check_word(r: Repo) -> Seq<char> {
    if r.has_makefile {
        "make"@
    } else if r.has_cargo_toml {
        "cargo"@
    } else {
        "-"@
    }
}

impl Repo {
    /// What can check the repository, in a word.
    pub fn check_label(&self) -> (r: &'static str)
        ensures
            r@ == check_word(*self),
    {
        match check_tool(self.has_makefile, self.has_cargo_toml) {
            Some(tool) => tool.name(),
            None => "-",
        }
    }
}

/// What is said of a check.
pub open spec fn check_report(tool: Option<CheckTool>, ran: Ran) -> Seq<char> {
    match tool {
        None => "(no Makefile/Cargo.toml — nothing to check)"@,
        Some(tool) => match ran {
            Ran::Failed(error) => "failed to run "@ + tool.command() + ": "@ + error@,
            Ran::Done { success, stdout, stderr } => {
                let all = stdout@ + stderr@;
                if trimmed(all).len() > 0 {
                    all
                } else if success {
                    all + "OK (exit 0, no output)"@
                } else {
                    all + "FAILED (exit non-zero)"@
                }
            },
        },
    }
}

/// What is said of a check, from its tool and what came of it.
pub fn run_check(tool: Option<CheckTool>, ran: &Ran) -> (r: String)
    ensures
        r@ == check_report(tool, *ran),
{
    let tool = match tool {
        Some(t) => t,
        None => {
            return "(no Makefile/Cargo.toml — nothing to check)".to_owned();
        },
    };
    match ran {
        Ran::Failed(error) => {
            let mut out = "failed to run ".to_owned();
            out.append(tool.name());
            out.append(": ");
            out.append(error.as_str());
            out
        },
        Ran::Done { success, stdout, stderr } => {
            let mut out = stdout.clone();
            out.append(stderr.as_str());
            if trim(&chars_of(out.as_str())).len() == 0 {
                if *success {
                    out.append("OK (exit 0, no output)");
                } else {
                    out.append("FAILED (exit non-zero)");
                }
            }
            out
        },
    }
}

/// That by which repositories are ordered.
pub struct RepoKey {
    pub dirty: bool,
    pub behind: u32,
    pub ahead: u32,
    pub name: Seq<char>,
}

impl Repo {
    /// That by which the repository is ordered.
    pub open spec fn key(self) -> RepoKey {
        RepoKey { dirty: self.dirty, behind: self.behind, ahead: self.ahead, name: self.name@ }
    }
}

/// The order of repositories: dirty ones first, then those further behind, then
/// those further ahead, then by name.
pub open spec fn key_before(a: RepoKey, b: RepoKey) -> bool {
    if a.dirty != b.dirty {
        a.dirty
    } else if a.behind != b.behind {
        a.behind > b.behind
    } else if a.ahead != b.ahead {
        a.ahead > b.ahead
    } else {
        text_before(a.name, b.name)
    }
}

/// The order of repositories, as a relation.
pub open spec fn key_order() -> spec_fn(RepoKey, RepoKey) -> bool {
    |a: RepoKey, b: RepoKey| key_before(a, b)
}

/// The keys of repositories.
pub open spec fn keys(v: Seq<Repo>) -> Seq<RepoKey> {
    v.map_values(|r: Repo| r.key())
}

/// The test for repositories with one key.
pub open spec fn with_key(k: RepoKey) -> spec_fn(Repo) -> bool {
    |r: Repo| r.key() == k
}

/// The keys of repositories are strictly ordered.
pub proof fn lemma_key_order()
    ensures
        crate::order::strict_order(key_order()),
{
    crate::order::lemma_text_order();
    let lt = key_order();
    let on = crate::order::text_order();
    assert forall|a: RepoKey| !#[trigger] lt(a, a) by {
        assert(!on(a.name, a.name));
    }
    assert forall|a: RepoKey, b: RepoKey, c: RepoKey| #[trigger] lt(a, b) && #[trigger] lt(
        b,
        c,
    ) implies lt(a, c) by {
        if on(a.name, b.name) && on(b.name, c.name) {
            assert(on(a.name, c.name));
        }
    }
    assert forall|a: RepoKey, b: RepoKey| #[trigger] lt(a, b) || lt(b, a) || a == b by {
        assert(on(a.name, b.name) || on(b.name, a.name) || a.name == b.name);
    }
}

/// Whether one repository stands before another.
fn repo_less(a: &Repo, b: &Repo) -> (r: bool)
    ensures
        r == key_before(a.key(), b.key()),
{
    if a.dirty != b.dirty {
        a.dirty
    } else if a.behind != b.behind {
        a.behind > b.behind
    } else if a.ahead != b.ahead {
        a.ahead > b.ahead
    } else {
        text_less(&chars_of(a.name.as_str()), &chars_of(b.name.as_str()))
    }
}

/// Repositories in their order; those that the order does not tell apart stay
/// as they came.
pub fn load_repos(v: Vec<Repo>) -> (r: Vec<Repo>)
    ensures
        sorted(keys(r@), key_order()),
        forall|k: RepoKey| #[trigger] r@.filter(with_key(k)) == v@.filter(with_key(k)),
        r@.to_multiset() == v@.to_multiset(),
        forall|i: int, j: int|
            #![trigger r@[i], r@[j]]
            0 <= i < j < r@.len() ==> {
                &&& r@[j].dirty ==> r@[i].dirty
                &&& r@[i].dirty == r@[j].dirty ==> r@[i].behind >= r@[j].behind
                &&& r@[i].dirty == r@[j].dirty && r@[i].behind == r@[j].behind ==> r@[i].ahead
                    >= r@[j].ahead
            },
{
    let ghost all = v@;
    let mut rest = v;
    let mut out: Vec<Repo> = Vec::new();
    proof {
        lemma_key_order();
        assert(rest@ + out@ =~= all);
    }
    while rest.len() > 0
        invariant
            sorted(keys(out@), key_order()),
            crate::order::strict_order(key_order()),
            forall|k: RepoKey| #[trigger]
                (rest@ + out@).filter(with_key(k)) == all.filter(with_key(k)),
            (rest@ + out@).to_multiset() == all.to_multiset(),
        decreases rest.len(),
    {
        let ghost rest0 = rest@;
        let ghost out0 = out@;
        if let Some(x) = rest.pop() {
            let mut at: usize = 0;
            while at < out.len() && repo_less(&out[at], &x)
                invariant
                    at <= out@.len(),
                    out0 == out@,
                    forall|k: int| 0 <= k < at ==> key_order()(#[trigger] keys(out0)[k], x.key()),
                decreases out@.len() - at,
            {
                assert(keys(out0)[at as int] == out0[at as int].key());
                at += 1;
            }
            proof {
                assert(at < out0.len() ==> keys(out0)[at as int] == out0[at as int].key());
                crate::order::lemma_insert_sorted(keys(out0), at as int, x.key(), key_order());
            }
            out.insert(at, x);
            proof {
                assert(keys(out@) =~= keys(out0).insert(at as int, x.key()));
                assert forall|k: RepoKey| #[trigger]
                    (rest@ + out@).filter(with_key(k)) == all.filter(with_key(k)) by {
                    lemma_insert_keeps_equals(rest@, out0, at as int, x, k);
                    assert(rest0 + out0 =~= rest@ + (seq![x] + out0));
                    assert((rest0 + out0).filter(with_key(k)) == all.filter(with_key(k)));
                }
                broadcast use vstd::seq_lib::group_to_multiset_ensures;

                vstd::seq_lib::lemma_multiset_commutative(rest0, out0);
                assert(rest0 =~= rest@.push(x));
                vstd::seq_lib::lemma_multiset_commutative(rest@, out@);
                assert((rest@ + out@).to_multiset() =~= (rest0 + out0).to_multiset());
            }
        }
    }
    assert(rest@ + out@ =~= out@);
    assert forall|k: RepoKey| #[trigger] out@.filter(with_key(k)) == all.filter(with_key(k)) by {
        assert((rest@ + out@).filter(with_key(k)) == all.filter(with_key(k)));
    }
    proof {
        assert forall|i: int, j: int|
            #![trigger out@[i], out@[j]]
            0 <= i < j < out@.len() implies {
            &&& out@[j].dirty ==> out@[i].dirty
            &&& out@[i].dirty == out@[j].dirty ==> out@[i].behind >= out@[j].behind
            &&& out@[i].dirty == out@[j].dirty && out@[i].behind == out@[j].behind
                ==> out@[i].ahead >= out@[j].ahead
        } by {
            crate::laws::git::attention_comes_first(out@, i, j);
        }
    }
    out
}

/// A value that goes behind values with other keys stays in its place among
/// those with its own.
proof fn lemma_insert_keeps_equals(rest: Seq<Repo>, out: Seq<Repo>, at: int, x: Repo, k: RepoKey)
    requires
        0 <= at <= out.len(),
        crate::order::strict_order(key_order()),
        forall|i: int| 0 <= i < at ==> key_order()(#[trigger] keys(out)[i], x.key()),
    ensures
        (rest + out.insert(at, x)).filter(with_key(k)) == (rest + (seq![x] + out)).filter(
            with_key(k),
        ),
{
    let p = with_key(k);
    let head = out.take(at);
    let tail = out.skip(at);
    assert(out.insert(at, x) =~= head + (seq![x] + tail));
    assert(seq![x] + out =~= seq![x] + (head + tail));
    Seq::filter_distributes_over_add(rest, out.insert(at, x), p);
    Seq::filter_distributes_over_add(rest, seq![x] + out, p);
    Seq::filter_distributes_over_add(head, seq![x] + tail, p);
    Seq::filter_distributes_over_add(seq![x], tail, p);
    Seq::filter_distributes_over_add(seq![x], head + tail, p);
    Seq::filter_distributes_over_add(head, tail, p);
    crate::seqs::lemma_filter_one(x, p);
    if p(x) {
        assert(head.filter(p) =~= Seq::<Repo>::empty()) by {
            if head.filter(p).len() > 0 {
                crate::seqs::lemma_filter_within(head, p, 0);
                let y = head.filter(p)[0];
                head.lemma_filter_pred(p, 0);
                let i = choose|i: int| 0 <= i < head.len() && head[i] == y;
                assert(keys(out)[i] == y.key());
                assert(key_order()(keys(out)[i], x.key()));
                assert(y.key() == k && x.key() == k);
            }
        }
        assert(head.filter(p) + (seq![x] + tail.filter(p)) =~= seq![x] + (head.filter(p)
            + tail.filter(p)));
    } else {
        let none = Seq::<Repo>::empty();
        assert(head.filter(p) + (none + tail.filter(p)) =~= none + (head.filter(p) + tail.filter(
            p,
        )));
    }
}

/// Two orders of the same repositories that both keep those with equal keys as
/// they came are one order.
pub proof fn order_is_determined(a: Seq<Repo>, b: Seq<Repo>)
    requires
        sorted(keys(a), key_order()),
        sorted(keys(b), key_order()),
        forall|k: RepoKey| #[trigger] a.filter(with_key(k)) == b.filter(with_key(k)),
    ensures
        a == b,
    decreases a.len(),
{
    if a.len() == 0 {
        if b.len() > 0 {
            let p = with_key(b[0].key());
            lemma_first_is_kept(b);
            reveal(Seq::filter);
            assert(a.filter(p) == b.filter(p));
        }
        assert(a =~= b);
    } else {
        let p = with_key(a[0].key());
        lemma_first_is_kept(a);
        assert(a.filter(p) == b.filter(p));
        lemma_head_is_least(b, a);
        let q = with_key(b[0].key());
        lemma_first_is_kept(b);
        assert(a.filter(q) == b.filter(q));
        lemma_head_is_least(a, b);
        lemma_key_order();
        let lt = key_order();
        assert(lt(a[0].key(), b[0].key()) || lt(b[0].key(), a[0].key()) || a[0].key()
            == b[0].key());
        assert(a[0] == b[0]);
        let x = a.drop_first();
        let y = b.drop_first();
        assert forall|i: int, j: int| 0 <= i < j < x.len() implies !lt(
            #[trigger] keys(x)[j],
            #[trigger] keys(x)[i],
        ) by {
            assert(!lt(keys(a)[j + 1], keys(a)[i + 1]));
        }
        assert forall|i: int, j: int| 0 <= i < j < y.len() implies !lt(
            #[trigger] keys(y)[j],
            #[trigger] keys(y)[i],
        ) by {
            assert(!lt(keys(b)[j + 1], keys(b)[i + 1]));
        }
        assert forall|k: RepoKey| #[trigger] x.filter(with_key(k)) == y.filter(with_key(k)) by {
            let r = with_key(k);
            crate::seqs::lemma_filter_first(a, r);
            crate::seqs::lemma_filter_first(b, r);
            assert(a.filter(r) == b.filter(r));
            if r(a[0]) {
                assert(x.filter(r) =~= a.filter(r).drop_first());
                assert(y.filter(r) =~= b.filter(r).drop_first());
            }
        }
        order_is_determined(x, y);
        assert(a =~= seq![a[0]] + x);
        assert(b =~= seq![b[0]] + y);
    }
}

/// The first repository is the first of those with its key.
proof fn lemma_first_is_kept(a: Seq<Repo>)
    requires
        a.len() > 0,
    ensures
        a.filter(with_key(a[0].key())).len() > 0,
        a.filter(with_key(a[0].key()))[0] == a[0],
{
    crate::seqs::lemma_filter_first(a, with_key(a[0].key()));
}

/// No repository of a sorted sequence stands before the first of them.
proof fn lemma_head_is_least(s: Seq<Repo>, from: Seq<Repo>)
    requires
        from.len() > 0,
        sorted(keys(s), key_order()),
        s.filter(with_key(from[0].key())).len() > 0,
    ensures
        s.len() > 0,
        !key_order()(from[0].key(), s[0].key()),
{
    let p = with_key(from[0].key());
    crate::seqs::lemma_filter_within(s, p, 0);
    s.lemma_filter_pred(p, 0);
    let y = s.filter(p)[0];
    let i = choose|i: int| 0 <= i < s.len() && s[i] == y;
    lemma_key_order();
    if i > 0 {
        assert(!key_order()(keys(s)[i], keys(s)[0]));
    }
    assert(keys(s)[i] == from[0].key());
    assert(keys(s)[0] == s[0].key());
}

} // verus!
