//! What the tool learns from running `git`.
use vstd::prelude::*;
use crate::text::{trim, trimmed};

verus! {

/// How a run of a `git` command ended.
pub enum CommandOutcome {
    /// The command could not be started.
    NotRun,
    /// The command ran and reported failure.
    Failed,
    /// The command ran and succeeded; its standard output, decoded as UTF-8
    /// with invalid sequences replaced.
    Succeeded(String),
}

/// The trimmed output of a successful run, if the run succeeded.
pub open spec fn success_text(o: CommandOutcome) -> Option<Seq<char>> {
    match o {
        CommandOutcome::Succeeded(out) => Some(trimmed(out@)),
        _ => None,
    }
}

impl CommandOutcome {
    /// The output of a successful run without surrounding white space.
    pub fn trimmed_output(&self) -> (r: Option<String>)
        ensures
            match r {
                Some(s) => success_text(*self) == Some(s@),
                None => success_text(*self).is_none(),
            },
    {
        match self {
            CommandOutcome::Succeeded(out) => Some(trim(out.as_str()).to_owned()),
            _ => None,
        }
    }
}

} // verus!
