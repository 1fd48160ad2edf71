//! The decisions of the select-or-regenerate loop: what to offer for a
//! response, and what a choice means. The loop itself, which shows the menu and
//! makes requests, runs outside the library.

use vstd::prelude::*;
use vstd::string::*;

use crate::candidates::{parse_candidates, parse_commit_message_candidates};
use crate::text::views;

verus! {

pub const RETRY_ONE_LABEL: &'static str = "🔄 Retry (generate new commit message)";

pub const RETRY_MANY_LABEL: &'static str = "🔄 Retry (generate new messages)";

pub const SELECT_ONE_TITLE: &'static str = "Select an option:";

pub const SELECT_MANY_TITLE: &'static str = "Select a commit message:";

pub const REGENERATE_ONE_NOTICE: &'static str = "🔄 Generating new commit message...";

pub const REGENERATE_MANY_NOTICE: &'static str = "🔄 Generating new commit messages...";

pub const NO_CANDIDATES_MESSAGE: &'static str = "No commit message candidates generated.";

/// The menu for a list of candidates: a regenerate option first, then one
/// option per candidate in order; the cursor starts on the first candidate.
pub struct Menu {
    pub title: String,
    pub options: Vec<String>,
    pub default_index: usize,
    pub candidates: Vec<String>,
    pub regenerate_notice: String,
}

/// What to do with a parsed response.
pub enum Presentation {
    /// Nothing to offer: the loop stops.
    NoCandidates,
    /// Offer this menu.
    Choose(Menu),
}

/// What a choice in the menu means.
#[derive(Debug)]
pub enum Selection {
    /// Ask the backend again, live, with the same prompt and diff.
    Regenerate,
    /// Commit this message.
    Commit(String),
}

/// Whether `m` is the menu for candidates `cands` (at least one).
pub open spec fn is_menu_for(m: Menu, cands: Seq<Seq<char>>) -> bool {
    let one = cands.len() == 1;
    &&& views(m.candidates@) == cands
    &&& views(m.options@) == seq![
        if one {
            RETRY_ONE_LABEL@
        } else {
            RETRY_MANY_LABEL@
        },
    ] + cands
    &&& m.default_index == 1
    &&& m.title@ == if one {
        SELECT_ONE_TITLE@
    } else {
        SELECT_MANY_TITLE@
    }
    &&& m.regenerate_notice@ == if one {
        REGENERATE_ONE_NOTICE@
    } else {
        REGENERATE_MANY_NOTICE@
    }
}

/// The presentation of candidates: no menu for none, else their menu.
pub fn present_candidates(candidates: Vec<String>) -> (r: Presentation)
    ensures
        candidates.len() == 0 ==> r is NoCandidates,
        candidates.len() > 0 ==> r is Choose && is_menu_for(r->Choose_0, views(candidates@)),
{
    let n = candidates.len();
    if n == 0 {
        return Presentation::NoCandidates;
    }
    let one = n == 1;
    let mut options: Vec<String> = Vec::new();
    options.push(String::from_str(if one { RETRY_ONE_LABEL } else { RETRY_MANY_LABEL }));
    let mut i: usize = 0;
    while i < n
        invariant
            n == candidates.len(),
            i <= n,
            options.len() == i + 1,
            options@[0]@ == if one { RETRY_ONE_LABEL@ } else { RETRY_MANY_LABEL@ },
            forall|j: int| 0 <= j < i ==> #[trigger] options@[j + 1]@ == candidates@[j]@,
        decreases n - i,
    {
        options.push(candidates[i].clone());
        i = i + 1;
    }
    let ghost label = if one { RETRY_ONE_LABEL@ } else { RETRY_MANY_LABEL@ };
    assert(views(options@) =~= seq![label] + views(candidates@)) by {
        assert forall|j: int| 0 <= j < options.len() implies #[trigger] views(options@)[j] == (
        seq![label] + views(candidates@))[j] by {
            if j > 0 {
                assert(options@[(j - 1) + 1]@ == candidates@[j - 1]@);
            }
        }
    }
    Presentation::Choose(
        Menu {
            title: String::from_str(if one { SELECT_ONE_TITLE } else { SELECT_MANY_TITLE }),
            options,
            default_index: 1,
            candidates,
            regenerate_notice: String::from_str(
                if one { REGENERATE_ONE_NOTICE } else { REGENERATE_MANY_NOTICE },
            ),
        },
    )
}

/// Parses a response and gives the menu for its candidates.
pub fn present_response(response: &str, candidate_count: u32) -> (r: Presentation)
    ensures
        r is Choose,
        is_menu_for(r->Choose_0, parse_candidates(response@, candidate_count)),
{
    let candidates = parse_commit_message_candidates(response, candidate_count);
    assert(views(candidates@).len() == candidates.len());
    assert(parse_candidates(response@, candidate_count).len() >= 1);
    present_candidates(candidates)
}

/// The meaning of option `choice` of the menu for `candidates`: the first
/// option regenerates, option `i` commits candidate `i - 1`.
pub fn resolve_choice(candidates: &Vec<String>, choice: usize) -> (r: Selection)
    requires
        choice <= candidates.len(),
    ensures
        choice == 0 ==> r is Regenerate,
        choice > 0 ==> r is Commit && r->Commit_0@ == candidates@[choice - 1]@,
{
    if choice == 0 {
        Selection::Regenerate
    } else {
        Selection::Commit(candidates[choice - 1].clone())
    }
}

} // verus!
