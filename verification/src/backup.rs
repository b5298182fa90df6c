//! The backups: what is there, and what a run of the backup came to.

use vstd::prelude::*;
use crate::command::Ran;
use crate::text::{chars_of, text_of, texts, trim, trimmed};

verus! {

broadcast use vstd::string::group_string_axioms;

/// The directory below which the projects are.
pub const PROJECTS_ROOT: &'static str = "/home/nayem/Projects";

/// The script that makes the backups.
pub const BACKUP_SH: &'static str = "/home/nayem/Projects/workflows/backup.sh";

/// The directory that holds the backups.
pub const BACKUP_DIR: &'static str = "/home/nayem/Projects/Backups";

/// The arguments of `bash` that list the latest backups.
pub fn snapshot_args() -> (r: Vec<String>)
    ensures
        texts(r@) == seq!["-c"@, "ls -lt "@ + BACKUP_DIR@ + " 2>/dev/null | head -8"@],
{
    let mut list = "ls -lt ".to_owned();
    list.append(BACKUP_DIR);
    list.append(" 2>/dev/null | head -8");
    let r = vec!["-c".to_owned(), list];
    assert(texts(r@) =~= seq!["-c"@, "ls -lt "@ + BACKUP_DIR@ + " 2>/dev/null | head -8"@]);
    r
}

/// What the list of the latest backups says.
pub open spec fn snapshot(list: Ran) -> Seq<char> {
    match list {
        Ran::Done { stdout, .. } => trimmed(stdout@),
        Ran::Failed(_) => "(backup dir unreadable)"@,
    }
}

/// What the list of the latest backups says.
pub fn backup_snapshot(list: &Ran) -> (r: String)
    ensures
        r@ == snapshot(*list),
{
    match list {
        Ran::Done { stdout, .. } => text_of(&trim(&chars_of(stdout.as_str()))),
        Ran::Failed(_) => "(backup dir unreadable)".to_owned(),
    }
}

/// What is shown of a run of the backup: all that it wrote, or that it wrote
/// nothing, or why it did not run.
pub open spec fn backup_said(ran: Ran) -> Seq<char> {
    match ran {
        Ran::Done { stdout, stderr, .. } => if trimmed(stdout@ + stderr@).len() == 0 {
            "done (no output)"@
        } else {
            stdout@ + stderr@
        },
        Ran::Failed(why) => "failed to run backup.sh: "@ + why@,
    }
}

/// What is shown of a run of the backup.
pub fn backup_report(ran: &Ran) -> (r: String)
    ensures
        r@ == backup_said(*ran),
{
    match ran {
        Ran::Done { stdout, stderr, .. } => {
            let mut all = stdout.clone();
            all.append(stderr.as_str());
            if trim(&chars_of(all.as_str())).len() == 0 {
                "done (no output)".to_owned()
            } else {
                all
            }
        },
        Ran::Failed(why) => {
            let mut r = "failed to run backup.sh: ".to_owned();
            r.append(why.as_str());
            r
        },
    }
}

} // verus!
