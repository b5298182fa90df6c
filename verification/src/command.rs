//! What came of running a command.

use vstd::prelude::*;

verus! {

/// The end of a command: it could not be run, or it ran and wrote something.
#[derive(Debug)]
pub enum Ran {
    Failed(String),
    Done { success: bool, stdout: String, stderr: String },
}

impl Ran {
    /// What the command wrote to its standard output, if it ran and succeeded.
    pub open spec fn good(self) -> Option<Seq<char>> {
        match self {
            Ran::Done { success, stdout, .. } => if success {
                Some(stdout@)
            } else {
                None
            },
            Ran::Failed(_) => None,
        }
    }

    /// What the command wrote to its standard output, if it ran and succeeded.
    pub fn output(&self) -> (r: Option<&str>)
        ensures
            match r {
                Some(s) => self.good() == Some(s@),
                None => self.good() is None,
            },
    {
        match self {
            Ran::Done { success, stdout, .. } => if *success {
                Some(stdout.as_str())
            } else {
                None
            },
            Ran::Failed(_) => None,
        }
    }

    /// Whether the command ran and succeeded.
    pub fn succeeded(&self) -> (r: bool)
        ensures
            r == self.good() is Some,
    {
        match self {
            Ran::Done { success, .. } => *success,
            Ran::Failed(_) => false,
        }
    }
}

} // verus!
