//! Locating a hunk's context in the lines of a file.
use vstd::prelude::*;

use crate::patch::error::{ErrorModel, MatchMode, PatchError};
use crate::patch::types::{HunkLine, LineModel, PatchHunk};
use crate::text::{
    chars_eq, chars_of, lines, lines_of, normalize_newlines, normalize_newlines_chars,
    normalize_whitespace_chars, normalize_ws, string_of, trim, trim_chars, views,
};

verus! {

/// `line.split_whitespace().collect::<Vec<_>>().join(" ")`.
pub fn normalize_whitespace(line: &str) -> (r: String)
    ensures
        r@ == normalize_ws(line@),
{
    let c = chars_of(line);
    let n = normalize_whitespace_chars(c.as_slice());
    string_of(n.as_slice())
}

/// Whether a hunk line and a file line agree under `mode`.
pub open spec fn line_matches(expected: Seq<char>, actual: Seq<char>, mode: MatchMode) -> bool {
    match mode {
        MatchMode::Exact => expected == actual,
        MatchMode::Trimmed => trim(expected) == trim(actual),
        MatchMode::NormalizedWhitespace => normalize_ws(expected) == normalize_ws(actual),
    }
}

/// Whether a hunk line and a file line agree under `mode`.
pub fn lines_match_mode(expected: &[char], actual: &[char], mode: MatchMode) -> (r: bool)
    ensures
        r == line_matches(expected@, actual@, mode),
{
    match mode {
        MatchMode::Exact => chars_eq(expected, actual),
        MatchMode::Trimmed => {
            let a = trim_chars(expected);
            let b = trim_chars(actual);
            chars_eq(a.as_slice(), b.as_slice())
        },
        MatchMode::NormalizedWhitespace => {
            let a = normalize_whitespace_chars(expected);
            let b = normalize_whitespace_chars(actual);
            chars_eq(a.as_slice(), b.as_slice())
        },
    }
}

/// Position of `mode` in the order in which modes are tried.
pub open spec fn mode_rank(mode: MatchMode) -> int {
    match mode {
        MatchMode::Exact => 0,
        MatchMode::Trimmed => 1,
        MatchMode::NormalizedWhitespace => 2,
    }
}

/// The mode tried in position `i`.
pub open spec fn mode_at(i: int) -> MatchMode {
    if i == 0 {
        MatchMode::Exact
    } else if i == 1 {
        MatchMode::Trimmed
    } else {
        MatchMode::NormalizedWhitespace
    }
}

fn mode_for(i: usize) -> (m: MatchMode)
    ensures
        m == mode_at(i as int),
{
    if i == 0 {
        MatchMode::Exact
    } else if i == 1 {
        MatchMode::Trimmed
    } else {
        MatchMode::NormalizedWhitespace
    }
}

/// The lines a hunk expects in the file: its context and removed lines.
pub open spec fn expected_of(h: Seq<LineModel>) -> Seq<Seq<char>>
    decreases h.len(),
{
    if h.len() == 0 {
        Seq::empty()
    } else {
        let r = expected_of(h.drop_last());
        match h.last() {
            LineModel::Context(t) => r.push(t),
            LineModel::Remove(t) => r.push(t),
            LineModel::Add(_) => r,
        }
    }
}

/// The hunk's expected lines as character vectors.
fn expected_lines(hunk: &PatchHunk) -> (r: Vec<Vec<char>>)
    ensures
        views(r@) == expected_of(hunk@),
{
    let mut r: Vec<Vec<char>> = Vec::new();
    let mut i: usize = 0;
    while i < hunk.lines.len()
        invariant
            i <= hunk.lines.len(),
            views(r@) == expected_of(hunk@.take(i as int)),
        decreases hunk.lines.len() - i,
    {
        assert(hunk@.take((i + 1) as int).drop_last() =~= hunk@.take(i as int));
        match &hunk.lines[i] {
            HunkLine::Context(t) => {
                let c = chars_of(t.as_str());
                r.push(c);
            },
            HunkLine::Remove(t) => {
                let c = chars_of(t.as_str());
                r.push(c);
            },
            HunkLine::Add(_) => {},
        }
        assert(views(r@) =~= expected_of(hunk@.take((i + 1) as int)));
        i += 1;
    }
    assert(hunk@.take(i as int) =~= hunk@);
    r
}

/// The expected lines lie at `start` of the file, each agreeing under `mode`.
pub open spec fn block_matches(
    old: Seq<Seq<char>>,
    exp: Seq<Seq<char>>,
    start: int,
    mode: MatchMode,
) -> bool {
    &&& 0 <= start
    &&& start + exp.len() <= old.len()
    &&& forall|k: int| 0 <= k < exp.len() ==> line_matches(#[trigger] exp[k], old[start + k], mode)
}

/// Some position at or after `cursor` holds the expected lines under `mode`.
pub open spec fn has_match(
    old: Seq<Seq<char>>,
    exp: Seq<Seq<char>>,
    cursor: int,
    mode: MatchMode,
) -> bool {
    exists|s: int| cursor <= s && #[trigger] block_matches(old, exp, s, mode)
}

/// `s` is the first position at or after `cursor` holding the expected lines.
pub open spec fn is_first_match(
    old: Seq<Seq<char>>,
    exp: Seq<Seq<char>>,
    cursor: int,
    mode: MatchMode,
    s: int,
) -> bool {
    &&& cursor <= s
    &&& block_matches(old, exp, s, mode)
    &&& forall|t: int| cursor <= t < s ==> !#[trigger] block_matches(old, exp, t, mode)
}

/// Last position at which the whole block could start (`saturating_sub`).
pub open spec fn last_start(old: Seq<Seq<char>>, exp: Seq<Seq<char>>) -> int {
    if exp.len() <= old.len() {
        old.len() - exp.len()
    } else {
        0
    }
}

/// Whether the expected lines lie at `start` under `mode`.
fn block_at(old: &Vec<Vec<char>>, exp: &Vec<Vec<char>>, start: usize, mode: MatchMode) -> (r: bool)
    requires
        start <= old.len(),
    ensures
        r == block_matches(views(old@), views(exp@), start as int, mode),
{
    if exp.len() > old.len() - start {
        return false;
    }
    let mut k: usize = 0;
    while k < exp.len()
        invariant
            start + exp.len() <= old.len(),
            k <= exp.len(),
            forall|j: int| 0 <= j < k ==> line_matches(#[trigger] views(exp@)[j], views(old@)[start + j], mode),
        decreases exp.len() - k,
    {
        if !lines_match_mode(exp[k].as_slice(), old[start + k].as_slice(), mode) {
            assert(views(exp@)[k as int] == exp@[k as int]@);
            assert(views(old@)[start + k] == old@[start + k]@);
            assert(!line_matches(views(exp@)[k as int], views(old@)[start + k], mode));
            return false;
        }
        assert(views(exp@)[k as int] == exp@[k as int]@);
        assert(views(old@)[start + k] == old@[start + k]@);
        k += 1;
    }
    true
}

/// First position at or after `cursor` where the expected lines agree under `mode`.
fn try_find_hunk_start(
    old_lines: &Vec<Vec<char>>,
    cursor: usize,
    expected: &Vec<Vec<char>>,
    mode: MatchMode,
) -> (r: Option<usize>)
    ensures
        match r {
            Some(s) => is_first_match(views(old_lines@), views(expected@), cursor as int, mode, s as int),
            None => !has_match(views(old_lines@), views(expected@), cursor as int, mode),
        },
{
    let ghost old = views(old_lines@);
    let ghost exp = views(expected@);
    let max_start = if expected.len() <= old_lines.len() {
        old_lines.len() - expected.len()
    } else {
        0
    };
    if cursor > max_start {
        assert forall|s: int| cursor <= s implies !#[trigger] block_matches(old, exp, s, mode) by {}
        return None;
    }
    let mut start = cursor;
    loop
        invariant
            cursor <= start <= max_start,
            max_start == last_start(old, exp),
            max_start <= old_lines.len(),
            old == views(old_lines@),
            exp == views(expected@),
            forall|t: int| cursor <= t < start ==> !#[trigger] block_matches(old, exp, t, mode),
        decreases max_start - start,
    {
        if block_at(old_lines, expected, start, mode) {
            return Some(start);
        }
        if start == max_start {
            assert forall|s: int| cursor <= s implies !#[trigger] block_matches(old, exp, s, mode) by {
                if s > start {
                }
            }
            return None;
        }
        start += 1;
    }
}


/// The anchor chosen after scanning `h` from position `i`: the first context
/// line, replaced by any later non-blank context line that is longer in bytes.
/// Positions count context and removed lines.
pub open spec fn anchor_scan(
    h: Seq<LineModel>,
    i: int,
    seq_index: int,
    best: Option<(int, Seq<char>)>,
) -> Option<(int, Seq<char>)>
    decreases h.len() - i,
{
    if i < 0 || i >= h.len() {
        best
    } else {
        match h[i] {
            LineModel::Context(t) => {
                let beats = trim(t).len() > 0 && match best {
                    Some(b) => crate::text::byte_len(t) > crate::text::byte_len(b.1),
                    None => true,
                };
                let next = if beats || best is None {
                    Some((seq_index, t))
                } else {
                    best
                };
                anchor_scan(h, i + 1, seq_index + 1, next)
            },
            LineModel::Remove(_) => anchor_scan(h, i + 1, seq_index + 1, best),
            LineModel::Add(_) => anchor_scan(h, i + 1, seq_index, best),
        }
    }
}

proof fn lemma_anchor_scan_step(h: Seq<LineModel>, i: int, seq_index: int, best: Option<(int, Seq<char>)>)
    requires
        0 <= i < h.len(),
    ensures
        anchor_scan(h, i, seq_index, best) == match h[i] {
            LineModel::Context(t) => {
                let beats = trim(t).len() > 0 && match best {
                    Some(b) => crate::text::byte_len(t) > crate::text::byte_len(b.1),
                    None => true,
                };
                anchor_scan(h, i + 1, seq_index + 1, if beats || best is None {
                    Some((seq_index, t))
                } else {
                    best
                })
            },
            LineModel::Remove(_) => anchor_scan(h, i + 1, seq_index + 1, best),
            LineModel::Add(_) => anchor_scan(h, i + 1, seq_index, best),
        },
{
}

/// View of a chosen anchor.
pub open spec fn anchor_view(best: Option<(usize, Vec<char>)>) -> Option<(int, Seq<char>)> {
    match best {
        Some((k, t)) => Some((k as int, t@)),
        None => None,
    }
}

/// A chosen anchor names one of the expected lines.
pub open spec fn anchor_fits(best: Option<(int, Seq<char>)>, exp: Seq<Seq<char>>) -> bool {
    match best {
        Some((k, t)) => 0 <= k < exp.len() && exp[k] == t,
        None => true,
    }
}

/// Picks a distinctive context line of the hunk, with its position among the
/// hunk's expected lines.
fn select_hunk_anchor(hunk: &PatchHunk) -> (r: Option<(usize, Vec<char>)>)
    ensures
        match r {
            Some((i, t)) => anchor_scan(hunk@, 0, 0, None) == Some((i as int, t@))
                && i < expected_of(hunk@).len() && expected_of(hunk@)[i as int] == t@,
            None => anchor_scan(hunk@, 0, 0, None) is None,
        },
{
    let ghost h = hunk@;
    let mut sequence_index: usize = 0;
    let mut best: Option<(usize, Vec<char>)> = None;
    let mut i: usize = 0;
    while i < hunk.lines.len()
        invariant
            h == hunk@,
            i <= hunk.lines.len(),
            sequence_index == expected_of(h.take(i as int)).len(),
            sequence_index <= i,
            anchor_scan(h, 0, 0, None) == anchor_scan(h, i as int, sequence_index as int, anchor_view(best)),
            anchor_fits(anchor_view(best), expected_of(h.take(i as int))),
        decreases hunk.lines.len() - i,
    {
        let ghost gbest = anchor_view(best);
        proof { lemma_anchor_scan_step(h, i as int, sequence_index as int, gbest); }
        assert(h.take((i + 1) as int).drop_last() =~= h.take(i as int));
        assert(h[i as int] == hunk.lines@[i as int]@);
        match &hunk.lines[i] {
            HunkLine::Context(text) => {
                let t = chars_of(text.as_str());
                let tt = trim_chars(t.as_slice());
                let beats = tt.len() > 0 && match &best {
                    Some((_, b)) => crate::text::byte_len_wide(t.as_slice()) > crate::text::byte_len_wide(b.as_slice()),
                    None => true,
                };
                if beats || best.is_none() {
                    best = Some((sequence_index, t));
                }
                sequence_index += 1;
            },
            HunkLine::Remove(_) => {
                sequence_index += 1;
            },
            HunkLine::Add(_) => {},
        }
        i += 1;
    }
    assert(h.take(i as int) =~= h);
    best
}

/// First position at or after `cursor` where the anchor line and then all
/// expected lines agree under `mode`.
fn try_find_hunk_start_from_anchor(
    old_lines: &Vec<Vec<char>>,
    cursor: usize,
    expected: &Vec<Vec<char>>,
    anchor: (usize, &Vec<char>),
    mode: MatchMode,
) -> (r: Option<usize>)
    requires
        anchor.0 < expected@.len(),
        expected@[anchor.0 as int]@ == anchor.1@,
    ensures
        match r {
            Some(s) => is_first_match(views(old_lines@), views(expected@), cursor as int, mode, s as int),
            None => !has_match(views(old_lines@), views(expected@), cursor as int, mode),
        },
{
    let ghost old = views(old_lines@);
    let ghost exp = views(expected@);
    let (anchor_index, anchor_text) = anchor;
    let max_start = if expected.len() <= old_lines.len() {
        old_lines.len() - expected.len()
    } else {
        0
    };
    if cursor > max_start {
        assert forall|s: int| cursor <= s implies !#[trigger] block_matches(old, exp, s, mode) by {}
        return None;
    }
    let mut start = cursor;
    loop
        invariant
            cursor <= start <= max_start,
            max_start == last_start(old, exp),
            max_start <= old_lines.len(),
            old == views(old_lines@),
            exp == views(expected@),
            anchor_index < expected@.len(),
            expected@[anchor_index as int]@ == anchor_text@,
            forall|t: int| cursor <= t < start ==> !#[trigger] block_matches(old, exp, t, mode),
        decreases max_start - start,
    {
        let anchor_ok = if anchor_index < old_lines.len() - start {
            lines_match_mode(anchor_text.as_slice(), old_lines[start + anchor_index].as_slice(), mode)
        } else {
            false
        };
        if anchor_ok && block_at(old_lines, expected, start, mode) {
            return Some(start);
        }
        proof {
            if block_matches(old, exp, start as int, mode) {
                assert(exp[anchor_index as int] == anchor_text@);
                assert(line_matches(exp[anchor_index as int], old[start + anchor_index], mode));
                assert(old[start + anchor_index] == old_lines@[start + anchor_index]@);
            }
        }
        if start == max_start {
            assert forall|s: int| cursor <= s implies !#[trigger] block_matches(old, exp, s, mode) by {
                if s > start {
                }
            }
            return None;
        }
        start += 1;
    }
}


/// The file line at `i`, or `<EOF>` past the end.
pub open spec fn line_at(old: Seq<Seq<char>>, i: int) -> Seq<char> {
    if 0 <= i < old.len() {
        old[i]
    } else {
        "<EOF>"@
    }
}

/// Number of consecutive expected lines, from the `k`-th on, that agree with
/// the file lines from `s + k` on (past the end the file reads `<EOF>`).
pub open spec fn prefix_from(
    old: Seq<Seq<char>>,
    exp: Seq<Seq<char>>,
    s: int,
    mode: MatchMode,
    k: int,
) -> nat
    decreases exp.len() - k,
{
    if k < 0 || k >= exp.len() {
        0
    } else if line_matches(exp[k], line_at(old, s + k), mode) {
        1 + prefix_from(old, exp, s, mode, k + 1)
    } else {
        0
    }
}

/// Number of leading expected lines that agree with the file at `s`.
pub open spec fn prefix_len(old: Seq<Seq<char>>, exp: Seq<Seq<char>>, s: int, mode: MatchMode) -> nat {
    prefix_from(old, exp, s, mode, 0)
}

proof fn lemma_prefix_bound(old: Seq<Seq<char>>, exp: Seq<Seq<char>>, s: int, mode: MatchMode, k: int)
    requires
        0 <= k <= exp.len(),
    ensures
        prefix_from(old, exp, s, mode, k) <= exp.len() - k,
    decreases exp.len() - k,
{
    if k < exp.len() {
        lemma_prefix_bound(old, exp, s, mode, k + 1);
    }
}

proof fn lemma_prefix_split(old: Seq<Seq<char>>, exp: Seq<Seq<char>>, s: int, mode: MatchMode, k: int)
    requires
        0 <= k <= exp.len(),
        forall|j: int| 0 <= j < k ==> line_matches(#[trigger] exp[j], line_at(old, s + j), mode),
    ensures
        prefix_len(old, exp, s, mode) == k + prefix_from(old, exp, s, mode, k),
    decreases k,
{
    if k > 0 {
        lemma_prefix_split(old, exp, s, mode, k - 1);
        assert(line_matches(exp[k - 1], line_at(old, s + (k - 1)), mode));
    }
}

/// Candidate `(mode position, start)` pairs for a partial match.
pub open spec fn is_candidate(old: Seq<Seq<char>>, exp: Seq<Seq<char>>, cursor: int, m: int, s: int) -> bool {
    0 <= m < 3 && cursor <= s <= last_start(old, exp)
}

/// Candidates are tried mode by mode, each from the cursor upward.
pub open spec fn tried_before(m1: int, s1: int, m2: int, s2: int) -> bool {
    m1 < m2 || (m1 == m2 && s1 < s2)
}

/// `(s, p, mode)` is the closest partial match: the first candidate, in the
/// order tried, whose matched prefix `p` is the longest, and `p > 0`.
pub open spec fn is_best_partial(
    old: Seq<Seq<char>>,
    exp: Seq<Seq<char>>,
    cursor: int,
    s: int,
    p: int,
    mode: MatchMode,
) -> bool {
    &&& is_candidate(old, exp, cursor, mode_rank(mode), s)
    &&& p == prefix_len(old, exp, s, mode)
    &&& p > 0
    &&& forall|m: int, t: int|
        is_candidate(old, exp, cursor, m, t) ==> #[trigger] prefix_len(old, exp, t, mode_at(m)) <= p
    &&& forall|m: int, t: int|
        is_candidate(old, exp, cursor, m, t) && tried_before(m, t, mode_rank(mode), s) ==> #[trigger] prefix_len(
            old,
            exp,
            t,
            mode_at(m),
        ) < p
}

/// Some candidate matches at least one leading line.
pub open spec fn has_partial(old: Seq<Seq<char>>, exp: Seq<Seq<char>>, cursor: int) -> bool {
    exists|m: int, t: int| is_candidate(old, exp, cursor, m, t) && #[trigger] prefix_len(old, exp, t, mode_at(m)) > 0
}

/// The closest partial match, if any line matches anywhere.
pub open spec fn best_partial(old: Seq<Seq<char>>, exp: Seq<Seq<char>>, cursor: int) -> Option<(int, int, MatchMode)> {
    if has_partial(old, exp, cursor) {
        Some(choose|r: (int, int, MatchMode)| is_best_partial(old, exp, cursor, r.0, r.1, r.2))
    } else {
        None
    }
}

proof fn lemma_mode_rank(mode: MatchMode)
    ensures
        mode_at(mode_rank(mode)) == mode,
        0 <= mode_rank(mode) < 3,
{
}

/// The closest partial match is unique.
proof fn lemma_best_partial_unique(
    old: Seq<Seq<char>>,
    exp: Seq<Seq<char>>,
    cursor: int,
    s: int,
    p: int,
    mode: MatchMode,
)
    requires
        is_best_partial(old, exp, cursor, s, p, mode),
    ensures
        best_partial(old, exp, cursor) == Some((s, p, mode)),
{
    lemma_mode_rank(mode);
    assert(prefix_len(old, exp, s, mode_at(mode_rank(mode))) > 0);
    assert(has_partial(old, exp, cursor));
    let w = (s, p, mode);
    assert(is_best_partial(old, exp, cursor, w.0, w.1, w.2));
    let r = choose|r: (int, int, MatchMode)| is_best_partial(old, exp, cursor, r.0, r.1, r.2);
    assert(is_best_partial(old, exp, cursor, r.0, r.1, r.2));
    lemma_mode_rank(r.2);
    assert(prefix_len(old, exp, r.0, mode_at(mode_rank(r.2))) <= p);
    assert(prefix_len(old, exp, s, mode_at(mode_rank(mode))) <= r.1);
    if tried_before(mode_rank(r.2), r.0, mode_rank(mode), s) {
        assert(prefix_len(old, exp, r.0, mode_at(mode_rank(r.2))) < p);
    }
    if tried_before(mode_rank(mode), s, mode_rank(r.2), r.0) {
        assert(prefix_len(old, exp, s, mode_at(mode_rank(mode))) < r.1);
    }
    assert(mode_rank(r.2) == mode_rank(mode));
    assert(r.2 == mode);
}

/// Number of leading expected lines that agree with the file at `start`.
fn prefix_at(old: &Vec<Vec<char>>, exp: &Vec<Vec<char>>, start: usize, mode: MatchMode, eof: &Vec<char>) -> (r: usize)
    requires
        eof@ == "<EOF>"@,
    ensures
        r == prefix_len(views(old@), views(exp@), start as int, mode),
        r <= exp@.len(),
{
    let ghost o = views(old@);
    let ghost e = views(exp@);
    let mut matched: usize = 0;
    while matched < exp.len()
        invariant
            matched <= exp.len(),
            o == views(old@),
            e == views(exp@),
            eof@ == "<EOF>"@,
            forall|j: int| 0 <= j < matched ==> line_matches(#[trigger] e[j], line_at(o, start + j), mode),
        decreases exp.len() - matched,
    {
        let actual: &Vec<char> = if matched < old.len() && start < old.len() - matched {
            &old[start + matched]
        } else {
            eof
        };
        assert(actual@ == line_at(o, start + matched));
        assert(e[matched as int] == exp@[matched as int]@);
        if lines_match_mode(exp[matched].as_slice(), actual.as_slice(), mode) {
            matched += 1;
        } else {
            proof {
                lemma_prefix_split(o, e, start as int, mode, matched as int);
            }
            return matched;
        }
    }
    proof {
        lemma_prefix_split(o, e, start as int, mode, matched as int);
    }
    matched
}

/// The closest partial match of the expected lines at or after `cursor`:
/// `(start, matched prefix, mode)`.
fn best_hunk_partial_match(
    old_lines: &Vec<Vec<char>>,
    cursor: usize,
    expected: &Vec<Vec<char>>,
) -> (r: Option<(usize, usize, MatchMode)>)
    requires
        expected@.len() > 0,
    ensures
        match r {
            Some((s, p, mode)) => is_best_partial(views(old_lines@), views(expected@), cursor as int, s as int, p as int, mode),
            None => !has_partial(views(old_lines@), views(expected@), cursor as int),
        },
{
    let ghost old = views(old_lines@);
    let ghost exp = views(expected@);
    let eof = chars_of("<EOF>");
    let mut best_start: Option<usize> = None;
    let mut best_prefix: usize = 0;
    let mut best_mode = MatchMode::Exact;
    let max_start = if expected.len() <= old_lines.len() {
        old_lines.len() - expected.len()
    } else {
        0
    };
    let mut mi: usize = 0;
    while mi < 3
        invariant
            mi <= 3,
            max_start < usize::MAX,
            old == views(old_lines@),
            exp == views(expected@),
            eof@ == "<EOF>"@,
            max_start == last_start(old, exp),
            best_start is None <==> best_prefix == 0,
            forall|m: int, t: int|
                is_candidate(old, exp, cursor as int, m, t) && m < mi ==> #[trigger] prefix_len(old, exp, t, mode_at(m)) <= best_prefix,
            best_start matches Some(bs) ==> {
                &&& is_candidate(old, exp, cursor as int, mode_rank(best_mode), bs as int)
                &&& mode_rank(best_mode) < mi
                &&& best_prefix == prefix_len(old, exp, bs as int, best_mode)
                &&& forall|m: int, t: int|
                    is_candidate(old, exp, cursor as int, m, t) && tried_before(m, t, mode_rank(best_mode), bs as int)
                        ==> #[trigger] prefix_len(old, exp, t, mode_at(m)) < best_prefix
            },
        decreases 3 - mi,
    {
        let mode = mode_for(mi);
        if cursor <= max_start {
            let mut start = cursor;
            while start <= max_start
                invariant
                    mi < 3,
                    mode == mode_at(mi as int),
                    cursor <= start <= max_start + 1,
                    max_start < usize::MAX,
                    old == views(old_lines@),
                    exp == views(expected@),
                    eof@ == "<EOF>"@,
                    max_start == last_start(old, exp),
                    best_start is None <==> best_prefix == 0,
                    forall|m: int, t: int|
                        is_candidate(old, exp, cursor as int, m, t) && tried_before(m, t, mi as int, start as int)
                            ==> #[trigger] prefix_len(old, exp, t, mode_at(m)) <= best_prefix,
                    best_start matches Some(bs) ==> {
                        &&& is_candidate(old, exp, cursor as int, mode_rank(best_mode), bs as int)
                        &&& tried_before(mode_rank(best_mode), bs as int, mi as int, start as int)
                        &&& best_prefix == prefix_len(old, exp, bs as int, best_mode)
                        &&& forall|m: int, t: int|
                            is_candidate(old, exp, cursor as int, m, t) && tried_before(m, t, mode_rank(best_mode), bs as int)
                                ==> #[trigger] prefix_len(old, exp, t, mode_at(m)) < best_prefix
                    },
                decreases max_start + 1 - start,
            {
                let matched = prefix_at(old_lines, expected, start, mode, &eof);
                if matched > best_prefix {
                    best_prefix = matched;
                    best_start = Some(start);
                    best_mode = mode;
                }
                start += 1;
            }
        }
        mi += 1;
    }
    match best_start {
        Some(s) => Some((s, best_prefix, best_mode)),
        None => None,
    }
}


/// Where a hunk was located and how strictly it matched.
#[derive(Debug, Clone, Copy, PartialEq, Eq, Structural)]
pub struct HunkMatch {
    pub start: usize,
    pub mode: MatchMode,
}

/// The first position at or after `cursor` holding the expected lines.
pub open spec fn first_match(old: Seq<Seq<char>>, exp: Seq<Seq<char>>, cursor: int, mode: MatchMode) -> int {
    choose|s: int| is_first_match(old, exp, cursor, mode, s)
}

proof fn lemma_first_match_unique(old: Seq<Seq<char>>, exp: Seq<Seq<char>>, cursor: int, mode: MatchMode, s: int)
    requires
        is_first_match(old, exp, cursor, mode, s),
    ensures
        first_match(old, exp, cursor, mode) == s,
{
    let t = first_match(old, exp, cursor, mode);
    assert(is_first_match(old, exp, cursor, mode, t));
    if t < s {
        assert(!block_matches(old, exp, t, mode));
    }
    if s < t {
        assert(!block_matches(old, exp, s, mode));
    }
}

/// A match at or after `cursor` implies a first one.
proof fn lemma_first_match_exists(old: Seq<Seq<char>>, exp: Seq<Seq<char>>, cursor: int, mode: MatchMode, s0: int)
    requires
        cursor <= s0,
        block_matches(old, exp, s0, mode),
    ensures
        is_first_match(old, exp, cursor, mode, first_match(old, exp, cursor, mode)),
    decreases s0 - cursor,
{
    if exists|t: int| cursor <= t < s0 && #[trigger] block_matches(old, exp, t, mode) {
        let t = choose|t: int| cursor <= t < s0 && #[trigger] block_matches(old, exp, t, mode);
        lemma_first_match_exists(old, exp, cursor, mode, t);
    } else {
        assert(is_first_match(old, exp, cursor, mode, s0));
    }
}

/// A located hunk starts at or after the cursor and, when it expects lines,
/// they all lie there under the mode found.
pub proof fn lemma_location_matches(old: Seq<Seq<char>>, exp: Seq<Seq<char>>, cursor: int)
    requires
        hunk_location(old, exp, cursor) is Ok,
    ensures
        ({
            let (start, mode) = hunk_location(old, exp, cursor)->Ok_0;
            &&& exp.len() == 0 ==> start == cursor
            &&& exp.len() > 0 ==> is_first_match(old, exp, cursor, mode, start)
        }),
{
    if exp.len() > 0 {
        let (start, mode) = hunk_location(old, exp, cursor)->Ok_0;
        assert(has_match(old, exp, cursor, mode));
        let s0 = choose|s: int| cursor <= s && #[trigger] block_matches(old, exp, s, mode);
        lemma_first_match_exists(old, exp, cursor, mode, s0);
    }
}

/// The error reported when a hunk's lines are found nowhere.
pub open spec fn not_found(old: Seq<Seq<char>>, exp: Seq<Seq<char>>, cursor: int) -> ErrorModel {
    match best_partial(old, exp, cursor) {
        Some((s, p, m)) => ErrorModel::ContextNotFound {
            mode: m,
            start: s,
            mismatch_at: p,
            expected: if p < exp.len() {
                exp[p]
            } else {
                "<none>"@
            },
            actual: line_at(old, s + p),
        },
        None => ErrorModel::NoPartialMatch,
    }
}

/// Where the expected lines of a hunk are found at or after `cursor`: the first
/// position in the first mode (exact, then trimmed, then whitespace-normalized)
/// that has one. A hunk that expects nothing sits at the cursor.
pub open spec fn hunk_location(old: Seq<Seq<char>>, exp: Seq<Seq<char>>, cursor: int) -> Result<
    (int, MatchMode),
    ErrorModel,
> {
    if exp.len() == 0 {
        Ok((cursor, MatchMode::Exact))
    } else if has_match(old, exp, cursor, MatchMode::Exact) {
        Ok((first_match(old, exp, cursor, MatchMode::Exact), MatchMode::Exact))
    } else if has_match(old, exp, cursor, MatchMode::Trimmed) {
        Ok((first_match(old, exp, cursor, MatchMode::Trimmed), MatchMode::Trimmed))
    } else if has_match(old, exp, cursor, MatchMode::NormalizedWhitespace) {
        Ok(
            (
                first_match(old, exp, cursor, MatchMode::NormalizedWhitespace),
                MatchMode::NormalizedWhitespace,
            ),
        )
    } else {
        Err(not_found(old, exp, cursor))
    }
}

/// View of the result of [`find_hunk_start`].
pub open spec fn location_view(r: Result<HunkMatch, PatchError>) -> Result<(int, MatchMode), ErrorModel> {
    match r {
        Ok(m) => Ok((m.start as int, m.mode)),
        Err(e) => Err(e@),
    }
}

/// Locates the hunk's expected lines in `old_lines` at or after `cursor`.
pub fn find_hunk_start(old_lines: &Vec<Vec<char>>, cursor: usize, hunk: &PatchHunk) -> (r: Result<
    HunkMatch,
    PatchError,
>)
    ensures
        location_view(r) == hunk_location(views(old_lines@), expected_of(hunk@), cursor as int),
{
    let ghost old = views(old_lines@);
    let expected = expected_lines(hunk);
    let ghost exp = views(expected@);
    if expected.len() == 0 {
        return Ok(HunkMatch { start: cursor, mode: MatchMode::Exact });
    }
    let mut mi: usize = 0;
    while mi < 3
        invariant
            mi <= 3,
            old == views(old_lines@),
            exp == views(expected@),
            exp == expected_of(hunk@),
            exp.len() > 0,
            forall|k: int| 0 <= k < mi ==> !has_match(old, exp, cursor as int, #[trigger] mode_at(k)),
        decreases 3 - mi,
    {
        let mode = mode_for(mi);
        if let Some(start) = try_find_hunk_start(old_lines, cursor, &expected, mode) {
            proof {
                lemma_first_match_unique(old, exp, cursor as int, mode, start as int);
                assert(mi >= 1 ==> !has_match(old, exp, cursor as int, mode_at(0)));
                assert(mi >= 2 ==> !has_match(old, exp, cursor as int, mode_at(1)));
            }
            return Ok(HunkMatch { start, mode });
        }
        mi += 1;
    }
    assert(!has_match(old, exp, cursor as int, mode_at(0)));
    assert(!has_match(old, exp, cursor as int, mode_at(1)));
    assert(!has_match(old, exp, cursor as int, mode_at(2)));
    if let Some((anchor_index, anchor_text)) = select_hunk_anchor(hunk) {
        let mut mi: usize = 0;
        while mi < 3
            invariant
                mi <= 3,
                old == views(old_lines@),
                exp == views(expected@),
                anchor_index < expected@.len(),
                expected@[anchor_index as int]@ == anchor_text@,
                forall|k: int| 0 <= k < 3 ==> !has_match(old, exp, cursor as int, #[trigger] mode_at(k)),
            decreases 3 - mi,
        {
            let mode = mode_for(mi);
            if let Some(start) = try_find_hunk_start_from_anchor(
                old_lines,
                cursor,
                &expected,
                (anchor_index, &anchor_text),
                mode,
            ) {
                assert(block_matches(old, exp, start as int, mode));
                assert(!has_match(old, exp, cursor as int, mode_at(mi as int)));
                return Ok(HunkMatch { start, mode });
            }
            mi += 1;
        }
    }
    match best_hunk_partial_match(old_lines, cursor, &expected) {
        Some((best_start, best_prefix, best_mode)) => {
            proof {
                lemma_best_partial_unique(old, exp, cursor as int, best_start as int, best_prefix as int, best_mode);
                lemma_prefix_bound(old, exp, best_start as int, best_mode, 0);
            }
            let expected_line = if best_prefix < expected.len() {
                string_of(expected[best_prefix].as_slice())
            } else {
                string_of(chars_of("<none>").as_slice())
            };
            let actual = if best_prefix < old_lines.len() && best_start < old_lines.len() - best_prefix {
                string_of(old_lines[best_start + best_prefix].as_slice())
            } else {
                string_of(chars_of("<EOF>").as_slice())
            };
            Err(
                PatchError::ContextNotFound {
                    mode: best_mode,
                    start: best_start,
                    mismatch_at: best_prefix,
                    expected: expected_line,
                    actual,
                },
            )
        },
        None => Err(PatchError::NoPartialMatch),
    }
}

/// `content.replace("\r\n", "\n").replace('\r', "\n").lines()`, as character vectors.
pub fn normalized_line_chars(content: &str) -> (r: Vec<Vec<char>>)
    ensures
        views(r@) == lines(normalize_newlines(content@)),
{
    let c = chars_of(content);
    let n = normalize_newlines_chars(c.as_slice());
    lines_of(n.as_slice())
}

/// The lines of `content` after normalizing `\r\n` and `\r` to `\n`.
pub fn normalized_lines(content: &str) -> (r: Vec<String>)
    ensures
        r@.len() == lines(normalize_newlines(content@)).len(),
        forall|i: int| 0 <= i < r@.len() ==> #[trigger] r@[i]@ == lines(normalize_newlines(content@))[i],
{
    let ls = normalized_line_chars(content);
    let mut r: Vec<String> = Vec::new();
    let mut i: usize = 0;
    while i < ls.len()
        invariant
            i <= ls.len(),
            views(ls@) == lines(normalize_newlines(content@)),
            r@.len() == i,
            forall|k: int| 0 <= k < i ==> #[trigger] r@[k]@ == lines(normalize_newlines(content@))[k],
        decreases ls.len() - i,
    {
        r.push(string_of(ls[i].as_slice()));
        i += 1;
    }
    r
}

} // verus!
