//! Turning a free-text model response into commit-message candidates.

use vstd::prelude::*;

use crate::text::{
    chars_of, lemma_trim_end_append, lemma_trim_end_prefix, lemma_trim_idempotent,
    lemma_trim_keeps, lemma_trim_of_half_trims, lemma_trim_start_append, lemma_trim_start_suffix,
    string_of_range, trim, trim_end, trim_range, trim_start, views,
};

verus! {

/// A character of a leading numbering or bullet marker.
pub open spec fn is_marker(c: char) -> bool {
    ('0' <= c && c <= '9') || c == '.' || c == ')' || c == '-' || c == '*' || c == ' '
}

/// `s` without its leading run of marker characters.
pub open spec fn strip_markers(s: Seq<char>) -> Seq<char>
    decreases s.len(),
{
    if s.len() > 0 && is_marker(s[0]) {
        strip_markers(s.drop_first())
    } else {
        s
    }
}

/// One line of a response as a candidate: trimmed, marker run removed, trimmed again.
pub open spec fn clean_line(l: Seq<char>) -> Seq<char> {
    trim(strip_markers(trim(l)))
}

/// The pieces of `s` between `'\n'` characters, as `str::split('\n')` gives them.
pub open spec fn split_lines(s: Seq<char>) -> Seq<Seq<char>>
    decreases s.len(),
{
    if s.len() == 0 {
        seq![Seq::<char>::empty()]
    } else {
        let p = split_lines(s.drop_last());
        if s.last() == '\n' {
            p.push(Seq::<char>::empty())
        } else {
            p.update(p.len() - 1, p.last().push(s.last()))
        }
    }
}

/// The cleaned lines of `s` that are not empty, in order.
pub open spec fn candidate_lines(s: Seq<char>) -> Seq<Seq<char>> {
    split_lines(s).map_values(|l: Seq<char>| clean_line(l)).filter(|c: Seq<char>| c.len() > 0)
}

/// The candidates that a response gives when `expected_count` were asked for.
///
/// One asked for: the whole trimmed response. Otherwise its cleaned non-empty
/// lines when there are at least two of them, else the whole trimmed response.
pub open spec fn parse_candidates(response: Seq<char>, expected_count: u32) -> Seq<Seq<char>> {
    let t = trim(response);
    if expected_count == 1 {
        seq![t]
    } else if candidate_lines(t).len() >= 2 {
        candidate_lines(t)
    } else {
        seq![t]
    }
}

pub proof fn lemma_split_lines_nonempty(s: Seq<char>)
    ensures
        split_lines(s).len() >= 1,
    decreases s.len(),
{
    if s.len() > 0 {
        lemma_split_lines_nonempty(s.drop_last());
    }
}

proof fn lemma_map_push(
    s: Seq<Seq<char>>,
    x: Seq<char>,
)
    ensures
        s.push(x).map_values(|l: Seq<char>| clean_line(l)) == s.map_values(
            |l: Seq<char>| clean_line(l),
        ).push(clean_line(x)),
{
    assert(s.push(x).map_values(|l: Seq<char>| clean_line(l)) =~= s.map_values(
        |l: Seq<char>| clean_line(l),
    ).push(clean_line(x)));
}

proof fn lemma_filter_push(s: Seq<Seq<char>>, x: Seq<char>)
    ensures
        s.push(x).filter(|c: Seq<char>| c.len() > 0) == if x.len() > 0 {
            s.filter(|c: Seq<char>| c.len() > 0).push(x)
        } else {
            s.filter(|c: Seq<char>| c.len() > 0)
        },
{
    reveal(Seq::filter);
    assert(s.push(x).drop_last() =~= s);
}

/// Finds the bounds of the cleaned form of the line `cs[lo..hi]`.
fn clean_range(cs: &Vec<char>, lo: usize, hi: usize) -> (r: (usize, usize))
    requires
        lo <= hi <= cs.len(),
    ensures
        r.0 <= r.1 <= cs.len(),
        cs@.subrange(r.0 as int, r.1 as int) == clean_line(cs@.subrange(lo as int, hi as int)),
{
    let (a, b) = trim_range(cs, lo, hi);
    let mut m: usize = a;
    while m < b && is_marker_char(cs[m])
        invariant
            a <= m <= b <= cs.len(),
            strip_markers(cs@.subrange(a as int, b as int)) == strip_markers(
                cs@.subrange(m as int, b as int),
            ),
        decreases b - m,
    {
        assert(cs@.subrange(m as int, b as int).drop_first() =~= cs@.subrange(
            m + 1,
            b as int,
        ));
        m = m + 1;
    }
    trim_range(cs, m, b)
}

fn is_marker_char(c: char) -> (r: bool)
    ensures
        r == is_marker(c),
{
    ('0' <= c && c <= '9') || c == '.' || c == ')' || c == '-' || c == '*' || c == ' '
}

/// Parses a model response into commit-message candidates.
///
/// With `expected_count == 1` the trimmed response is the single candidate,
/// newlines and all. Otherwise the response is split into lines; each is
/// trimmed, loses its leading numbering or bullet marker and is trimmed again,
/// and empty lines are dropped. At least two such lines are the candidates, in
/// order; fewer fall back to the whole trimmed response as the one candidate.
pub fn parse_commit_message_candidates(response: &str, expected_count: u32) -> (r: Vec<String>)
    ensures
        views(r@) == parse_candidates(response@, expected_count),
{
    let cs = chars_of(response);
    let n = cs.len();
    let (a, b) = trim_range(&cs, 0, n);
    proof {
        assert(cs@.subrange(0, n as int) =~= response@);
    }
    let ghost t = trim(response@);
    if expected_count == 1 {
        let whole = string_of_range(response, a, b);
        let r = vec![whole];
        assert(views(r@) =~= seq![t]);
        return r;
    }
    let mut out: Vec<String> = Vec::new();
    let ghost mut done: Seq<Seq<char>> = Seq::empty();
    let mut start: usize = a;
    let mut i: usize = a;
    assert(cs@.subrange(a as int, a as int) =~= Seq::<char>::empty());
    while i < b
        invariant
            cs@ == response@,
            a <= start <= i <= b <= cs.len(),
            cs@.subrange(a as int, b as int) == t,
            split_lines(cs@.subrange(a as int, i as int)) == done.push(
                cs@.subrange(start as int, i as int),
            ),
            views(out@) == done.map_values(|l: Seq<char>| clean_line(l)).filter(
                |c: Seq<char>| c.len() > 0,
            ),
        decreases b - i,
    {
        let c = cs[i];
        let ghost prefix = cs@.subrange(a as int, i + 1);
        assert(prefix.drop_last() =~= cs@.subrange(a as int, i as int));
        if c == '\n' {
            let (x, y) = clean_range(&cs, start, i);
            let ghost line = cs@.subrange(start as int, i as int);
            proof {
                lemma_map_push(done, line);
                lemma_filter_push(done.map_values(|l: Seq<char>| clean_line(l)), clean_line(line));
            }
            if x < y {
                let piece = string_of_range(response, x, y);
                let ghost before = out@;
                out.push(piece);
                assert(views(out@) =~= views(before).push(piece@)) by {
                    assert(out@ =~= before.push(piece));
                }
            } else {
                assert(clean_line(line).len() == 0);
            }
            proof {
                done = done.push(line);
                assert(cs@.subrange(i + 1, i + 1) =~= Seq::<char>::empty());
            }
            start = i + 1;
        } else {
            assert(cs@.subrange(start as int, i + 1) =~= cs@.subrange(
                start as int,
                i as int,
            ).push(c));
        }
        i = i + 1;
    }
    let (x, y) = clean_range(&cs, start, b);
    let ghost line = cs@.subrange(start as int, b as int);
    proof {
        lemma_map_push(done, line);
        lemma_filter_push(done.map_values(|l: Seq<char>| clean_line(l)), clean_line(line));
        done = done.push(line);
    }
    if x < y {
        let piece = string_of_range(response, x, y);
        let ghost before = out@;
        out.push(piece);
        assert(views(out@) =~= views(before).push(piece@)) by {
            assert(out@ =~= before.push(piece));
        }
    }
    assert(views(out@) == candidate_lines(t));
    if out.len() >= 2 {
        out
    } else {
        let whole = string_of_range(response, a, b);
        let r = vec![whole];
        assert(views(r@) =~= seq![t]);
        r
    }
}


/// The lines `ls` joined by `'\n'`.
pub open spec fn join_lines(ls: Seq<Seq<char>>) -> Seq<char>
    decreases ls.len(),
{
    if ls.len() == 0 {
        Seq::empty()
    } else if ls.len() == 1 {
        ls[0]
    } else {
        ls[0] + seq!['\n'] + join_lines(ls.drop_first())
    }
}

/// `s` holds no line break.
pub open spec fn single_line(s: Seq<char>) -> bool {
    forall|i: int| 0 <= i < s.len() ==> #[trigger] s[i] != '\n'
}

proof fn lemma_join_last(ls: Seq<Seq<char>>)
    requires
        ls.len() >= 2,
    ensures
        join_lines(ls) == join_lines(ls.drop_last()) + seq!['\n'] + ls.last(),
    decreases ls.len(),
{
    let d = ls.drop_first();
    if ls.len() > 2 {
        lemma_join_last(d);
        assert(d.drop_last() =~= ls.drop_last().drop_first());
        assert(join_lines(ls.drop_last()) == ls[0] + seq!['\n'] + join_lines(
            ls.drop_last().drop_first(),
        ));
        assert(join_lines(ls) =~= join_lines(ls.drop_last()) + seq!['\n'] + ls.last());
    } else {
        assert(d =~= seq![ls[1]]);
        assert(ls.drop_last() =~= seq![ls[0]]);
        assert(join_lines(d) == ls[1]);
        assert(join_lines(ls.drop_last()) == ls[0]);
    }
}

/// Appending a piece without line breaks extends the last line.
proof fn lemma_split_extend(a: Seq<char>, b: Seq<char>)
    requires
        single_line(b),
    ensures
        split_lines(a + b) == split_lines(a).update(
            split_lines(a).len() - 1,
            split_lines(a).last() + b,
        ),
    decreases b.len(),
{
    lemma_split_lines_nonempty(a);
    let p = split_lines(a);
    if b.len() == 0 {
        assert(a + b =~= a);
        assert(p.last() + b =~= p.last());
        assert(p.update(p.len() - 1, p.last()) =~= p);
    } else {
        let b0 = b.drop_last();
        assert(single_line(b0)) by {
            assert forall|i: int| 0 <= i < b0.len() implies #[trigger] b0[i] != '\n' by {
                assert(b0[i] == b[i]);
            }
        }
        lemma_split_extend(a, b0);
        assert((a + b).drop_last() =~= a + b0);
        assert(b.last() == b[b.len() - 1]);
        assert((p.last() + b0).push(b.last()) =~= p.last() + b);
        assert(p.update(p.len() - 1, p.last() + b0).update(p.len() - 1, p.last() + b) =~= p.update(
            p.len() - 1,
            p.last() + b,
        ));
    }
}

proof fn lemma_split_join(ls: Seq<Seq<char>>)
    requires
        ls.len() >= 1,
        forall|j: int| 0 <= j < ls.len() ==> single_line(#[trigger] ls[j]),
    ensures
        split_lines(join_lines(ls)) == ls,
    decreases ls.len(),
{
    if ls.len() == 1 {
        lemma_split_extend(Seq::<char>::empty(), ls[0]);
        assert(Seq::<char>::empty() + ls[0] =~= ls[0]);
        assert(split_lines(Seq::<char>::empty()) =~= seq![Seq::<char>::empty()]);
        assert(seq![Seq::<char>::empty()].update(0, Seq::<char>::empty() + ls[0]) =~= ls);
    } else {
        let init = ls.drop_last();
        lemma_split_join(init);
        lemma_join_last(ls);
        let a = join_lines(init) + seq!['\n'];
        assert(a.drop_last() =~= join_lines(init));
        assert(split_lines(a) == init.push(Seq::<char>::empty()));
        lemma_split_extend(a, ls.last());
        assert(Seq::<char>::empty() + ls.last() =~= ls.last());
        assert(init.push(Seq::<char>::empty()).update(init.len() as int, ls.last()) =~= ls);
    }
}

proof fn lemma_clean_nonempty(l: Seq<char>)
    requires
        clean_line(l).len() > 0,
    ensures
        trim_start(l).len() > 0,
        trim_end(l).len() > 0,
{
    if trim(l).len() == 0 {
        assert(strip_markers(trim(l)) == trim(l));
        assert(trim_start(Seq::<char>::empty()) == Seq::<char>::empty());
    }
    lemma_trim_start_suffix(l);
    let u = trim_start(l);
    lemma_trim_end_prefix(u);
    let t = trim_end(u);
    let p = l.len() - u.len() + t.len() - 1;
    assert(l[p] == t.last());
    lemma_trim_keeps(l, p);
}

/// `ls` with the leading whitespace of its first line and the trailing
/// whitespace of its last line removed.
spec fn trim_outer(ls: Seq<Seq<char>>) -> Seq<Seq<char>> {
    ls.update(0, trim_start(ls[0])).update(ls.len() - 1, trim_end(ls[ls.len() - 1]))
}

proof fn lemma_trim_joined(ls: Seq<Seq<char>>)
    requires
        ls.len() >= 2,
        trim_start(ls[0]).len() > 0,
        trim_end(ls[ls.len() - 1]).len() > 0,
    ensures
        trim(join_lines(ls)) == join_lines(trim_outer(ls)),
{
    let k = ls.len();
    let first = ls[0];
    let ls1 = ls.update(0, trim_start(first));
    let rest = seq!['\n'] + join_lines(ls.drop_first());
    assert(ls1.drop_first() =~= ls.drop_first());
    lemma_trim_start_append(first, rest);
    assert(join_lines(ls) =~= first + rest);
    assert(join_lines(ls1) =~= trim_start(first) + rest);
    let ls2 = trim_outer(ls);
    assert(ls1[k - 1] == ls[k - 1]);
    lemma_join_last(ls1);
    lemma_join_last(ls2);
    assert(ls2.drop_last() =~= ls1.drop_last());
    lemma_trim_end_append(join_lines(ls1.drop_last()) + seq!['\n'], ls1.last());
}

proof fn lemma_trim_outer_lines(ls: Seq<Seq<char>>)
    requires
        ls.len() >= 2,
        forall|j: int| 0 <= j < ls.len() ==> single_line(#[trigger] ls[j]),
    ensures
        forall|j: int| 0 <= j < ls.len() ==> single_line(#[trigger] trim_outer(ls)[j]),
        forall|j: int|
            0 <= j < ls.len() ==> clean_line(#[trigger] trim_outer(ls)[j]) == clean_line(ls[j]),
{
    let k = ls.len();
    let ls2 = trim_outer(ls);
    let first = ls[0];
    let last = ls[k - 1];
    lemma_trim_start_suffix(first);
    lemma_trim_end_prefix(last);
    lemma_trim_of_half_trims(first);
    lemma_trim_of_half_trims(last);
    assert forall|j: int| 0 <= j < k implies single_line(#[trigger] ls2[j]) by {
        assert forall|i: int| 0 <= i < ls2[j].len() implies #[trigger] ls2[j][i] != '\n' by {
            if j == 0 {
                assert(ls2[j][i] == first[first.len() - ls2[j].len() + i]);
            } else if j == k - 1 {
                assert(ls2[j][i] == last[i]);
            } else {
                assert(ls2[j] == ls[j]);
            }
        }
    }
}

/// Cleaning the lines of the trimmed text of `k >= 2` lines, each with a
/// non-empty candidate, gives each line's candidate.
proof fn lemma_candidates_of_joined(ls: Seq<Seq<char>>)
    requires
        ls.len() >= 2,
        forall|j: int| 0 <= j < ls.len() ==> single_line(#[trigger] ls[j]),
        forall|j: int| 0 <= j < ls.len() ==> (#[trigger] clean_line(ls[j])).len() > 0,
    ensures
        candidate_lines(trim(join_lines(ls))) == ls.map_values(|l: Seq<char>| clean_line(l)),
{
    let k = ls.len();
    lemma_clean_nonempty(ls[0]);
    lemma_clean_nonempty(ls[k - 1]);
    lemma_trim_joined(ls);
    lemma_trim_outer_lines(ls);
    let ls2 = trim_outer(ls);
    lemma_split_join(ls2);
    let m = ls2.map_values(|l: Seq<char>| clean_line(l));
    assert(m =~= ls.map_values(|l: Seq<char>| clean_line(l)));
    lemma_filter_all(m);
}

proof fn lemma_filter_all(m: Seq<Seq<char>>)
    requires
        forall|j: int| 0 <= j < m.len() ==> (#[trigger] m[j]).len() > 0,
    ensures
        m.filter(|c: Seq<char>| c.len() > 0) == m,
    decreases m.len(),
{
    reveal(Seq::filter);
    if m.len() > 0 {
        lemma_filter_all(m.drop_last());
        assert(m.drop_last().push(m.last()) =~= m);
    }
}

/// With one candidate asked for, the response is never split: the single
/// candidate is the whole trimmed response, line breaks included.
pub proof fn lemma_single_count_never_splits(response: Seq<char>)
    ensures
        parse_candidates(response, 1) == seq![trim(response)],
{
}

/// Parsing the one candidate of a one-candidate parse again gives the same result.
pub proof fn lemma_single_count_idempotent(response: Seq<char>)
    ensures
        parse_candidates(parse_candidates(response, 1)[0], 1) == parse_candidates(response, 1),
{
    lemma_trim_idempotent(response);
}

/// With several candidates asked for, a single-line response is the one candidate,
/// trimmed.
pub proof fn lemma_single_line_falls_back(response: Seq<char>, expected_count: u32)
    requires
        expected_count != 1,
        single_line(response),
    ensures
        parse_candidates(response, expected_count) == seq![trim(response)],
{
    let t = trim(response);
    lemma_trim_start_suffix(response);
    lemma_trim_end_prefix(trim_start(response));
    assert(single_line(t)) by {
        assert forall|i: int| 0 <= i < t.len() implies #[trigger] t[i] != '\n' by {
            assert(t[i] == response[response.len() - trim_start(response).len() + i]);
        }
    }
    lemma_split_join(seq![t]);
    assert(join_lines(seq![t]) == t);
    let m = split_lines(t).map_values(|l: Seq<char>| clean_line(l));
    assert(m.len() == 1);
    m.lemma_filter_len(|c: Seq<char>| c.len() > 0);
}

/// With several candidates asked for, a response of `k >= 2` lines, each with a
/// non-empty candidate once its marker is stripped, gives exactly those `k`
/// candidates in order.
pub proof fn lemma_lines_become_candidates(ls: Seq<Seq<char>>, expected_count: u32)
    requires
        expected_count != 1,
        ls.len() >= 2,
        forall|j: int| 0 <= j < ls.len() ==> single_line(#[trigger] ls[j]),
        forall|j: int| 0 <= j < ls.len() ==> (#[trigger] clean_line(ls[j])).len() > 0,
    ensures
        parse_candidates(join_lines(ls), expected_count) == ls.map_values(
            |l: Seq<char>| clean_line(l),
        ),
{
    lemma_candidates_of_joined(ls);
}

} // verus!
