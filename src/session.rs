//! The decisions of one invocation around generation: whether there is
//! anything to do, what a dry run reports, and how the commit is invoked.

use vstd::prelude::*;
use vstd::string::*;

use crate::text::{decimal, decimal_string, trim, trimmed, views};

verus! {

pub const NO_STAGED_CHANGES: &'static str = "No staged changes to commit.";

pub const DRY_RUN_COUNT_LEAD: &'static str = "Dry run: Would generate ";

pub const DRY_RUN_COUNT_TAIL: &'static str = " candidates";

pub const COMMIT_FAILED_LEAD: &'static str = "git commit failed with exit code: ";

/// Whether generation is skipped: a live run with an empty (or whitespace-only)
/// diff has nothing to commit. A dry run always goes on.
pub fn should_skip_generation(diff: &str, dry_run: bool) -> (r: bool)
    ensures
        r == (!dry_run && trim(diff@).len() == 0),
{
    if dry_run {
        return false;
    }
    let t = trimmed(diff);
    t.as_str().is_empty()
}

/// What a dry run prints after the preview: the number of candidates a live
/// run would ask for when more than one, else the dry run's result.
pub fn dry_run_summary(response: &str, candidate_count: u32) -> (r: String)
    ensures
        candidate_count > 1 ==> r@ == DRY_RUN_COUNT_LEAD@ + decimal(candidate_count as nat)
            + DRY_RUN_COUNT_TAIL@,
        candidate_count <= 1 ==> r@ == response@,
{
    if candidate_count > 1 {
        let mut out = String::from_str(DRY_RUN_COUNT_LEAD);
        let n = decimal_string(candidate_count as u64);
        out.append(n.as_str());
        out.append(DRY_RUN_COUNT_TAIL);
        out
    } else {
        String::from_str(response)
    }
}

/// The arguments of the commit command, which reads the message from standard
/// input: `commit [--edit] -F -`.
pub open spec fn commit_argument_views(open_editor: bool) -> Seq<Seq<char>> {
    if open_editor {
        seq!["commit"@, "--edit"@, "-F"@, "-"@]
    } else {
        seq!["commit"@, "-F"@, "-"@]
    }
}

/// The arguments for the commit command.
pub fn commit_arguments(open_editor: bool) -> (r: Vec<String>)
    ensures
        views(r@) == commit_argument_views(open_editor),
{
    let mut r: Vec<String> = Vec::new();
    r.push(String::from_str("commit"));
    if open_editor {
        r.push(String::from_str("--edit"));
    }
    r.push(String::from_str("-F"));
    r.push(String::from_str("-"));
    assert(views(r@) =~= commit_argument_views(open_editor));
    r
}

/// The decimal notation of a signed number.
pub open spec fn signed_decimal(n: int) -> Seq<char> {
    if n < 0 {
        seq!['-'] + decimal((-n) as nat)
    } else {
        decimal(n as nat)
    }
}

/// Why a commit failed.
#[derive(Debug)]
pub enum CommitError {
    /// The commit command exited unsuccessfully; `None` where it had no exit
    /// code (it was stopped by a signal).
    ProcessFailed { code: Option<i32> },
}

impl CommitError {
    /// The error as a line of text; a missing exit code reads as -1.
    pub fn message(&self) -> (r: String)
        ensures
            r@ == COMMIT_FAILED_LEAD@ + signed_decimal(
                match self {
                    CommitError::ProcessFailed { code } => match code {
                        Some(c) => *c as int,
                        None => -1,
                    },
                },
            ),
    {
        let c: i32 = match self {
            CommitError::ProcessFailed { code } => match code {
                Some(c) => *c,
                None => -1,
            },
        };
        let mut out = String::from_str(COMMIT_FAILED_LEAD);
        if c < 0 {
            proof {
                reveal_strlit("-");
            }
            out.append("-");
            let magnitude: u64 = (-(c as i64)) as u64;
            let d = decimal_string(magnitude);
            out.append(d.as_str());
        } else {
            let d = decimal_string(c as u64);
            out.append(d.as_str());
        }
        out
    }
}

} // verus!
