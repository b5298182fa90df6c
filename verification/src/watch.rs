//! When the program is built anew while it runs.

use vstd::prelude::*;
use crate::text::{chars_of, ends, ends_with};

verus! {

broadcast use vstd::string::group_string_axioms;

/// What is watched beside the files in the source directory.
pub const MANIFEST: &'static str = "Cargo.toml";

/// What is watched beside the files in the source directory.
pub const LOCK: &'static str = "Cargo.lock";

/// The source directory.
pub const SOURCE_DIR: &'static str = "src";

/// Whether a file of the source directory is watched.
pub fn is_source(name: &str) -> (r: bool)
    ensures
        r == ends(name@, ".rs"@),
{
    ends_with(&chars_of(name), ".rs")
}

/// Whether a time is the latest of those that are known; the beginning of time,
/// where none is.
pub open spec fn is_latest(times: Seq<Option<u128>>, t: u128) -> bool {
    &&& forall|i: int| 0 <= i < times.len() && (#[trigger] times[i]) is Some ==> times[i]->0 <= t
    &&& t == 0 || times.contains(Some(t))
}

/// The latest of the times of change that are known.
pub fn latest_source_mtime(times: &Vec<Option<u128>>) -> (r: u128)
    ensures
        is_latest(times@, r),
{
    let mut latest: u128 = 0;
    let mut i: usize = 0;
    while i < times.len()
        invariant
            0 <= i <= times@.len(),
            forall|j: int|
                0 <= j < i && (#[trigger] times@[j]) is Some ==> times@[j]->0 <= latest,
            latest == 0 || times@.contains(Some(latest)),
        decreases times@.len() - i,
    {
        if let Some(t) = times[i] {
            if t > latest {
                latest = t;
                assert(times@[i as int] == Some(latest));
            }
        }
        i = i + 1;
    }
    latest
}

/// The watch over the sources.
#[derive(Debug, Clone, Copy, PartialEq, Eq, Structural)]
pub struct Watch {
    /// The latest change that was built.
    pub last_built: u128,
    /// Whether a build runs.
    pub building: bool,
    /// Whether there is a new program to run.
    pub reload: bool,
}

/// What the watch is told.
#[derive(Debug, Clone, Copy, PartialEq, Eq, Structural)]
pub enum Notice {
    /// A look at the sources: this is their latest change.
    Looked(u128),
    /// The build ended, with success or not; this is the latest change now.
    Built(u128, bool),
}

impl Watch {
    /// The watch at the start of the program, which was built from the sources
    /// as they are.
    pub fn new(latest: u128) -> (r: Watch)
        ensures
            r == (Watch { last_built: latest, building: false, reload: false }),
    {
        Watch { last_built: latest, building: false, reload: false }
    }

    /// Whether a build is called for, the latest change being this.
    pub open spec fn due(self, latest: u128) -> bool {
        !self.building && latest > self.last_built
    }

    /// Where a notice takes the watch: a build that is called for begins; one
    /// that ends is over, and if it succeeded there is a new program. The end of
    /// a build that never began changes nothing.
    pub open spec fn after(self, n: Notice) -> Watch {
        match n {
            Notice::Looked(latest) => Watch { building: self.building || self.due(latest), ..self },
            Notice::Built(latest, success) => if self.building {
                Watch { last_built: latest, building: false, reload: self.reload || success }
            } else {
                self
            },
        }
    }

    /// Where some notices, one after another, take the watch.
    pub open spec fn after_all(self, all: Seq<Notice>) -> Watch
        decreases all.len(),
    {
        if all.len() == 0 {
            self
        } else {
            self.after_all(all.drop_last()).after(all.last())
        }
    }

    /// Looks at the latest change, and says whether to build. A build that is
    /// called for is taken to run from now on.
    pub fn look(&mut self, latest: u128) -> (r: bool)
        ensures
            r == old(self).due(latest),
            *final(self) == old(self).after(Notice::Looked(latest)),
    {
        if self.building || latest <= self.last_built {
            return false;
        }
        self.building = true;
        true
    }

    /// The build is over, the latest change being this now; says whether there
    /// is a new program to run.
    pub fn finish(&mut self, latest: u128, success: bool) -> (r: bool)
        ensures
            *final(self) == old(self).after(Notice::Built(latest, success)),
            r == final(self).reload,
    {
        if self.building {
            self.last_built = latest;
            self.building = false;
            self.reload = self.reload || success;
        }
        self.reload
    }
}

/// While a build runs no other is called for; and once it is over, none until
/// the sources change again, whether it failed or not.
pub proof fn builds_do_not_repeat(w: Watch, at_end: u128, success: bool, later: u128)
    ensures
        w.building ==> !w.due(later),
        w.building ==> (w.after(Notice::Built(at_end, success)).due(later) <==> later > at_end),
{
}

/// Once there is a new program to run, there is one for good.
pub proof fn reload_stays(w: Watch, all: Seq<Notice>)
    requires
        w.reload,
    ensures
        w.after_all(all).reload,
    decreases all.len(),
{
    if all.len() > 0 {
        reload_stays(w, all.drop_last());
    }
}

/// One notice raises the flag only if it is the end of a build that runs and
/// succeeded; a failed build leaves the flag as it was.
pub proof fn only_success_raises(w: Watch, n: Notice)
    ensures
        w.after(n).reload == (w.reload || (w.building && n is Built && n->Built_1)),
{
}

/// A build that runs, where none ran at first, began at a look that showed a
/// later change than the last that was built.
proof fn lemma_build_has_a_cause(w: Watch, all: Seq<Notice>) -> (k: int)
    requires
        !w.building,
        w.after_all(all).building,
    ensures
        0 <= k < all.len(),
        all[k] is Looked,
        w.after_all(all.take(k)).due(all[k]->Looked_0),
    decreases all.len(),
{
    let before = all.drop_last();
    if w.after_all(before).building {
        let k = lemma_build_has_a_cause(w, before);
        assert(before.take(k) =~= all.take(k));
        k
    } else {
        assert(before =~= all.take(all.len() - 1));
        all.len() - 1
    }
}

/// There comes to be a new program only by a build that succeeded, begun because
/// a source had changed since the last build: whatever the notices, if the flag
/// is raised, then a look showed a later change than the last that was built,
/// and after it a build ended with success.
pub proof fn reload_has_a_cause(w: Watch, all: Seq<Notice>)
    requires
        !w.building,
        !w.reload,
        w.after_all(all).reload,
    ensures
        exists|i: int, j: int|
            #![trigger all[i], all[j]]
            {
                &&& 0 <= i < j < all.len()
                &&& all[i] is Looked
                &&& w.after_all(all.take(i)).due(all[i]->Looked_0)
                &&& w.after_all(all.take(j)).building
                &&& all[j] is Built
                &&& all[j]->Built_1
            },
    decreases all.len(),
{
    let before = all.drop_last();
    assert(before =~= all.take(all.len() - 1));
    if w.after_all(before).reload {
        reload_has_a_cause(w, before);
        let (i, j) = choose|i: int, j: int|
            #![trigger before[i], before[j]]
            {
                &&& 0 <= i < j < before.len()
                &&& before[i] is Looked
                &&& w.after_all(before.take(i)).due(before[i]->Looked_0)
                &&& w.after_all(before.take(j)).building
                &&& before[j] is Built
                &&& before[j]->Built_1
            };
        assert(before.take(i) =~= all.take(i));
        assert(before.take(j) =~= all.take(j));
        assert(all[i] == before[i] && all[j] == before[j]);
    } else {
        let i = lemma_build_has_a_cause(w, before);
        let j = all.len() - 1;
        assert(before.take(i) =~= all.take(i));
        assert(all[i] == before[i]);
        assert(all[j] is Built && all[j]->Built_1);
    }
}

/// Without a change since the start there is never a build, nor a new program.
pub proof fn no_change_no_build(w: Watch, all: Seq<Notice>)
    requires
        !w.building,
        forall|i: int|
            0 <= i < all.len() && (#[trigger] all[i]) is Looked ==> all[i]->Looked_0
                <= w.last_built,
    ensures
        w.after_all(all) == w,
    decreases all.len(),
{
    if all.len() > 0 {
        let before = all.drop_last();
        assert forall|i: int| 0 <= i < before.len() && (#[trigger] before[i]) is Looked implies
            before[i]->Looked_0 <= w.last_built by {
            assert(all[i] == before[i]);
        }
        no_change_no_build(w, before);
        assert(all[all.len() - 1] == all.last());
    }
}

/// The latest of the known times is one time only.
pub proof fn latest_is_one(times: Seq<Option<u128>>, a: u128, b: u128)
    requires
        is_latest(times, a),
        is_latest(times, b),
    ensures
        a == b,
{
    if a > b {
        let i = choose|i: int| 0 <= i < times.len() && times[i] == Some(a);
        assert(times[i] is Some);
    } else if b > a {
        let i = choose|i: int| 0 <= i < times.len() && times[i] == Some(b);
        assert(times[i] is Some);
    }
}

} // verus!
