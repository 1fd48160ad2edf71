//! Numbering of the convention snippets found on the way from the working
//! directory up to the filesystem root.

use vstd::prelude::*;
use vstd::string::*;

use crate::text::{decimal, decimal_string, trim, trimmed, views};

verus! {

/// Name of the file that holds a directory's commit conventions.
pub const CONVENTION_FILE_NAME: &'static str = ".committoconvention";

/// `parts` joined with `sep` between neighbours.
pub open spec fn join_with(parts: Seq<Seq<char>>, sep: Seq<char>) -> Seq<char>
    decreases parts.len(),
{
    if parts.len() == 0 {
        Seq::empty()
    } else if parts.len() == 1 {
        parts[0]
    } else {
        join_with(parts.drop_last(), sep) + sep + parts.last()
    }
}

/// The separator between numbered entries: one blank line.
pub open spec fn entry_separator() -> Seq<char> {
    seq!['\n', '\n']
}

/// Entry number `number`: the number, a period, a space, and the trimmed text.
pub open spec fn numbered_entry(number: nat, text: Seq<char>) -> Seq<char> {
    decimal(number) + seq!['.', ' '] + trim(text)
}

/// The numbered entries for snippets `found` in discovery order (closest
/// directory first): entry `i` (from zero) is numbered `i + 1` and holds the
/// snippet found `i` levels below the root-most one.
pub open spec fn convention_entries(found: Seq<Seq<char>>) -> Seq<Seq<char>> {
    Seq::new(found.len(), |i: int| numbered_entry((i + 1) as nat, found[found.len() - 1 - i]))
}

/// The resolved conventions text for snippets `found` in discovery order.
pub open spec fn resolved_conventions(found: Seq<Seq<char>>) -> Seq<char> {
    join_with(convention_entries(found), entry_separator())
}

/// Numbers and joins the convention snippets `found`, given in discovery order
/// (the working directory's first, the root's last).
///
/// The list is reversed so that the root-most snippet comes first and gets
/// number 1; each entry is `"<n>. <trimmed text>"` and entries are separated by
/// a blank line. No snippets give the empty string.
pub fn build_conventions(found: &Vec<String>) -> (r: String)
    ensures
        r@ == resolved_conventions(views(found@)),
{
    let n = found.len();
    let ghost f = views(found@);
    let ghost entries = convention_entries(f);
    let mut out = String::new();
    let mut i: usize = 0;
    while i < n
        invariant
            n == found.len(),
            f == views(found@),
            entries == convention_entries(f),
            i <= n,
            out@ == join_with(entries.take(i as int), entry_separator()),
        decreases n - i,
    {
        proof {
            reveal_strlit("\n\n");
            reveal_strlit(". ");
        }
        if i > 0 {
            out.append("\n\n");
        }
        let number = decimal_string((i + 1) as u64);
        out.append(number.as_str());
        out.append(". ");
        let text = trimmed(found[n - 1 - i].as_str());
        out.append(text.as_str());
        proof {
            let e = entries[i as int];
            assert(e == decimal((i + 1) as nat) + seq!['.', ' '] + trim(f[n - 1 - i]));
            assert(f[n - 1 - i] == found@[n - 1 - i]@);
            assert(entries.take(i + 1).drop_last() =~= entries.take(i as int));
            if i == 0 {
                assert(out@ =~= e);
                assert(entries.take(1) =~= seq![e]);
            } else {
                assert(out@ =~= join_with(entries.take(i as int), entry_separator())
                    + entry_separator() + e);
            }
        }
        i = i + 1;
    }
    assert(entries.take(n as int) =~= entries);
    out
}

/// For a chain of `n` directories with a snippet at each level, the resolved
/// text is exactly `n` entries numbered `1..n` joined by blank lines, entry 1
/// holding the root-most snippet and entry `n` the one closest to the working
/// directory.
pub proof fn lemma_conventions_numbered(found: Seq<Seq<char>>)
    ensures
        convention_entries(found).len() == found.len(),
        forall|i: int|
            0 <= i < found.len() ==> #[trigger] convention_entries(found)[i] == decimal(
                (i + 1) as nat,
            ) + seq!['.', ' '] + trim(found[found.len() - 1 - i]),
        found.len() > 0 ==> convention_entries(found)[0] == numbered_entry(
            1,
            found[found.len() - 1],
        ),
        found.len() > 0 ==> convention_entries(found)[found.len() - 1] == numbered_entry(
            found.len(),
            found[0],
        ),
        resolved_conventions(found) == join_with(convention_entries(found), entry_separator()),
{
}

} // verus!
