//! Assembly of the system prompt sent with every generation request.

use vstd::prelude::*;
use vstd::string::*;

use crate::text::{decimal, decimal_string};

verus! {

/// The instruction every system prompt starts with.
pub const DEFAULT_SYSTEM_PROMPT: &'static str = "You are an AI assistant that helps programmers who struggle with writing commit messages. Based on the following diff, generate a concise and informative commit message.";

/// The rule block placed before numbered conventions: a lower number wins.
pub const PRIORITY_GUIDELINE: &'static str = "**IMPORTANT PRIORITY RULES:**\n- Numbers indicate priority: 1 = HIGHEST priority, 2, 3, 4, 5... = lower priority\n- When instructions conflict, ALWAYS follow the higher priority (lower number)\n- Apply these rules when analyzing git diff and generating commit messages\n";

/// Text before the candidate count in the several-candidates directive.
pub const CANDIDATES_LEAD: &'static str = "\n\nGenerate ";

/// Text after the candidate count in the several-candidates directive.
pub const CANDIDATES_TAIL: &'static str = " different commit message options. Each message should be on a separate line and be concise and informative.";

/// The system prompt for resolved `conventions` and `candidate_count` candidates.
///
/// Without conventions it is the default instruction alone; with them, the
/// default instruction, a blank line, the priority rules, and the conventions.
/// Asking for more than one candidate appends a directive to produce exactly
/// that many, one per line.
pub open spec fn system_prompt(conventions: Seq<char>, candidate_count: u32) -> Seq<char> {
    let base = if conventions.len() == 0 {
        DEFAULT_SYSTEM_PROMPT@
    } else {
        DEFAULT_SYSTEM_PROMPT@ + seq!['\n', '\n'] + PRIORITY_GUIDELINE@ + seq!['\n'] + conventions
    };
    if candidate_count > 1 {
        base + CANDIDATES_LEAD@ + decimal(candidate_count as nat) + CANDIDATES_TAIL@
    } else {
        base
    }
}

/// Builds the system prompt from resolved conventions and the candidate count.
pub fn build_system_prompt(conventions: &str, candidate_count: u32) -> (r: String)
    ensures
        r@ == system_prompt(conventions@, candidate_count),
{
    proof {
        reveal_strlit("\n\n");
        reveal_strlit("\n");
    }
    let mut p = String::from_str(DEFAULT_SYSTEM_PROMPT);
    if !conventions.is_empty() {
        p.append("\n\n");
        p.append(PRIORITY_GUIDELINE);
        p.append("\n");
        p.append(conventions);
    }
    let ghost base = p@;
    if candidate_count > 1 {
        p.append(CANDIDATES_LEAD);
        let n = decimal_string(candidate_count as u64);
        p.append(n.as_str());
        p.append(CANDIDATES_TAIL);
    }
    proof {
        if conventions@.len() == 0 {
            assert(base == DEFAULT_SYSTEM_PROMPT@);
        } else {
            assert(base =~= DEFAULT_SYSTEM_PROMPT@ + seq!['\n', '\n'] + PRIORITY_GUIDELINE@
                + seq!['\n'] + conventions@);
        }
    }
    p
}

} // verus!
