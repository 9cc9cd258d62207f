//! The directory listing of the `ls` tool: which directory, in what order,
//! and how it reads.
use vstd::prelude::*;

use crate::text::{chars_of, extend_chars, join, join_chars, string_of, views};

verus! {

broadcast use vstd::seq_lib::group_to_multiset_ensures;

/// What a tool hands back to the model.
#[derive(Clone, Debug, PartialEq, Eq)]
pub struct ToolOutput {
    pub content: String,
    pub is_error: bool,
    /// Structured data kept beside the content, as JSON text.
    pub metadata: Option<String>,
}

impl ToolOutput {
    /// A successful result.
    pub fn success(content: &str) -> (r: ToolOutput)
        ensures
            r.content@ == content@,
            !r.is_error,
            r.metadata is None,
    {
        ToolOutput { content: content.to_owned(), is_error: false, metadata: None }
    }

    /// A failed result.
    pub fn error(content: &str) -> (r: ToolOutput)
        ensures
            r.content@ == content@,
            r.is_error,
            r.metadata is None,
    {
        ToolOutput { content: content.to_owned(), is_error: true, metadata: None }
    }
}

// ---------------------------------------------------------------- base

/// `PathBuf::join` for `/`-separated paths: an absolute `path` replaces
/// `base`; otherwise it is appended after a separator when `base` is not
/// empty and does not already end in one.
pub open spec fn joined_path(base: Seq<char>, path: Seq<char>) -> Seq<char> {
    if path.len() > 0 && path[0] == '/' {
        path
    } else if base.len() == 0 {
        path
    } else if base.last() == '/' {
        base + path
    } else {
        base + seq!['/'] + path
    }
}

/// The directory that `ls` lists: the requested path resolved against the
/// working directory, or the working directory itself.
pub open spec fn ls_base_path(cwd: Seq<char>, path: Option<Seq<char>>) -> Seq<char> {
    match path {
        Some(p) => joined_path(cwd, p),
        None => cwd,
    }
}

/// The directory that `ls` lists.
pub fn ls_base(cwd: &str, path: Option<&str>) -> (r: String)
    ensures
        r@ == ls_base_path(
            cwd@,
            match path {
                Some(p) => Some(p@),
                None => None,
            },
        ),
{
    let p = match path {
        Some(p) => chars_of(p),
        None => {
            return cwd.to_owned();
        },
    };
    if p.len() > 0 && p[0] == '/' {
        return string_of(p.as_slice());
    }
    let mut out = chars_of(cwd);
    if out.len() > 0 && out[out.len() - 1] != '/' {
        out.push('/');
    }
    extend_chars(&mut out, p.as_slice());
    string_of(out.as_slice())
}

// ---------------------------------------------------------------- order

/// `a` sorts before `b` by code point, character by character, a proper
/// prefix first (the order of `str`).
pub open spec fn name_before(a: Seq<char>, b: Seq<char>) -> bool
    decreases a.len(),
{
    if a.len() == 0 {
        b.len() > 0
    } else if b.len() == 0 {
        false
    } else if a[0] != b[0] {
        (a[0] as u32) < (b[0] as u32)
    } else {
        name_before(a.drop_first(), b.drop_first())
    }
}

/// Directories before files; by name within each group.
pub open spec fn entry_before(a: (Seq<char>, bool), b: (Seq<char>, bool)) -> bool {
    (a.1 && !b.1) || (a.1 == b.1 && name_before(a.0, b.0))
}

/// No entry sorts before an earlier one.
pub open spec fn listed_in_order(s: Seq<(Seq<char>, bool)>) -> bool {
    forall|i: int, j: int| 0 <= i < j < s.len() ==> !entry_before(#[trigger] s[j], #[trigger] s[i])
}

/// The views of directory entries.
pub open spec fn entry_views(v: Seq<(String, bool)>) -> Seq<(Seq<char>, bool)> {
    v.map_values(|e: (String, bool)| (e.0@, e.1))
}

/// `name_before` is transitive.
pub proof fn lemma_name_before_transitive(a: Seq<char>, b: Seq<char>, c: Seq<char>)
    requires
        name_before(a, b),
        name_before(b, c),
    ensures
        name_before(a, c),
    decreases a.len(),
{
    if a.len() > 0 && b.len() > 0 && c.len() > 0 && a[0] == b[0] && b[0] == c[0] {
        lemma_name_before_transitive(a.drop_first(), b.drop_first(), c.drop_first());
    }
}

/// No name sorts before itself.
pub proof fn lemma_name_before_irreflexive(a: Seq<char>)
    ensures
        !name_before(a, a),
    decreases a.len(),
{
    if a.len() > 0 {
        lemma_name_before_irreflexive(a.drop_first());
    }
}

/// `entry_before` is transitive.
pub proof fn lemma_entry_before_transitive(a: (Seq<char>, bool), b: (Seq<char>, bool), c: (Seq<char>, bool))
    requires
        entry_before(a, b),
        entry_before(b, c),
    ensures
        entry_before(a, c),
{
    if a.1 == b.1 && b.1 == c.1 {
        lemma_name_before_transitive(a.0, b.0, c.0);
    }
}

pub(crate) fn name_less(a: &[char], b: &[char]) -> (r: bool)
    ensures
        r == name_before(a@, b@),
{
    let mut i: usize = 0;
    assert(a@.skip(0) =~= a@);
    assert(b@.skip(0) =~= b@);
    while i < a.len() && i < b.len() && a[i] == b[i]
        invariant
            i <= a.len(),
            i <= b.len(),
            name_before(a@, b@) == name_before(a@.skip(i as int), b@.skip(i as int)),
        decreases a.len() - i,
    {
        assert(a@.skip(i as int).drop_first() =~= a@.skip(i + 1));
        assert(b@.skip(i as int).drop_first() =~= b@.skip(i + 1));
        i += 1;
    }
    assert(a@.skip(i as int).len() == a.len() - i);
    assert(b@.skip(i as int).len() == b.len() - i);
    if i == a.len() {
        i < b.len()
    } else if i == b.len() {
        false
    } else {
        (a[i] as u32) < (b[i] as u32)
    }
}

fn entry_less(a: &(String, bool), b: &(String, bool)) -> (r: bool)
    ensures
        r == entry_before((a.0@, a.1), (b.0@, b.1)),
{
    if a.1 && !b.1 {
        true
    } else if a.1 == b.1 {
        name_less(chars_of(a.0.as_str()).as_slice(), chars_of(b.0.as_str()).as_slice())
    } else {
        false
    }
}

/// `a` sorts before `b` by code point: at the first position where they
/// differ, `a` has the smaller character, or `a` is a proper prefix of `b`.
pub open spec fn code_point_before(a: Seq<char>, b: Seq<char>) -> bool {
    exists|k: int|
        0 <= k <= a.len() && k <= b.len() && #[trigger] a.take(k) == b.take(k) && ((k == a.len() && k < b.len()) || (k
            < a.len() && k < b.len() && (a[k] as u32) < (b[k] as u32)))
}

/// Names are ordered by code point, character by character.
pub proof fn law_name_order_is_code_point_order(a: Seq<char>, b: Seq<char>)
    ensures
        name_before(a, b) <==> code_point_before(a, b),
    decreases a.len(),
{
    if a.len() == 0 {
        if b.len() > 0 {
            assert(a.take(0) =~= b.take(0));
        }
    } else if b.len() == 0 {
        if code_point_before(a, b) {
            let k = choose|k: int|
                0 <= k <= a.len() && k <= b.len() && #[trigger] a.take(k) == b.take(k) && ((k == a.len() && k < b.len())
                    || (k < a.len() && k < b.len() && (a[k] as u32) < (b[k] as u32)));
        }
    } else if a[0] != b[0] {
        if (a[0] as u32) < (b[0] as u32) {
            assert(a.take(0) =~= b.take(0));
        }
        if code_point_before(a, b) {
            let k = choose|k: int|
                0 <= k <= a.len() && k <= b.len() && #[trigger] a.take(k) == b.take(k) && ((k == a.len() && k < b.len())
                    || (k < a.len() && k < b.len() && (a[k] as u32) < (b[k] as u32)));
            if k > 0 {
                assert(a.take(k)[0] == b.take(k)[0]);
            }
        }
    } else {
        let a1 = a.drop_first();
        let b1 = b.drop_first();
        law_name_order_is_code_point_order(a1, b1);
        if code_point_before(a1, b1) {
            let k = choose|k: int|
                0 <= k <= a1.len() && k <= b1.len() && #[trigger] a1.take(k) == b1.take(k) && ((k == a1.len() && k
                    < b1.len()) || (k < a1.len() && k < b1.len() && (a1[k] as u32) < (b1[k] as u32)));
            assert(a.take(k + 1) =~= seq![a[0]] + a1.take(k));
            assert(b.take(k + 1) =~= seq![b[0]] + b1.take(k));
            assert(a[k + 1] == a1[k] || k == a1.len());
        }
        if code_point_before(a, b) {
            let k = choose|k: int|
                0 <= k <= a.len() && k <= b.len() && #[trigger] a.take(k) == b.take(k) && ((k == a.len() && k < b.len())
                    || (k < a.len() && k < b.len() && (a[k] as u32) < (b[k] as u32)));
            if k == 0 {
                assert(a[0] == b[0]);
            } else {
                assert(a1.take(k - 1) =~= a.take(k).drop_first());
                assert(b1.take(k - 1) =~= b.take(k).drop_first());
                assert(a1.take(k - 1) == b1.take(k - 1));
                if k < a.len() {
                    assert(a1[k - 1] == a[k]);
                }
                if k < b.len() {
                    assert(b1[k - 1] == b[k]);
                }
            }
        }
    }
}

/// Directories come before files, and two entries of the same kind come in
/// the code-point order of their names.
pub open spec fn grouped_by_kind_then_name(s: Seq<(Seq<char>, bool)>) -> bool {
    forall|i: int, j: int|
        0 <= i < j < s.len() ==> !(!(#[trigger] s[i]).1 && (#[trigger] s[j]).1) && (s[i].1 == s[j].1
            ==> !code_point_before(s[j].0, s[i].0))
}

/// A listing in order has its directories first, then its files, and within
/// each kind no name sorts before an earlier one's.
pub proof fn law_listing_directories_first_then_by_name(s: Seq<(Seq<char>, bool)>)
    requires
        listed_in_order(s),
    ensures
        grouped_by_kind_then_name(s),
{
    assert forall|i: int, j: int| 0 <= i < j < s.len() implies !(!(#[trigger] s[i]).1 && (#[trigger] s[j]).1) && (s[i].1
        == s[j].1 ==> !code_point_before(s[j].0, s[i].0)) by {
        assert(!entry_before(s[j], s[i]));
        law_name_order_is_code_point_order(s[j].0, s[i].0);
    }
}

/// Sorts directory entries: directories first, then files, each group by
/// name. The result holds the same entries.
pub fn sort_entries(entries: Vec<(String, bool)>) -> (r: Vec<(String, bool)>)
    ensures
        entry_views(r@).to_multiset() == entry_views(entries@).to_multiset(),
        listed_in_order(entry_views(r@)),
        grouped_by_kind_then_name(entry_views(r@)),
{
    let ghost input = entry_views(entries@);
    let mut rest = entries;
    let mut out: Vec<(String, bool)> = Vec::new();
    assert(entry_views(out@) =~= Seq::<(Seq<char>, bool)>::empty());
    assert(entry_views(out@) + entry_views(rest@) =~= input);
    while rest.len() > 0
        invariant
            (entry_views(out@) + entry_views(rest@)).to_multiset() == input.to_multiset(),
            listed_in_order(entry_views(out@)),
            forall|i: int, j: int| 0 <= i < out@.len() && 0 <= j < rest@.len() ==> !entry_before(
                #[trigger] entry_views(rest@)[j],
                #[trigger] entry_views(out@)[i],
            ),
        decreases rest@.len(),
    {
        let ghost rv = entry_views(rest@);
        let mut k: usize = 0;
        let mut idx: usize = 1;
        proof {
            lemma_name_before_irreflexive(rv[0].0);
        }
        while idx < rest.len()
            invariant
                rv == entry_views(rest@),
                k < rest@.len(),
                1 <= idx <= rest@.len(),
                forall|j: int| 0 <= j < idx ==> !entry_before(#[trigger] rv[j], rv[k as int]),
            decreases rest@.len() - idx,
        {
            if entry_less(&rest[idx], &rest[k]) {
                proof {
                    lemma_name_before_irreflexive(rv[idx as int].0);
                    assert forall|j: int| 0 <= j <= idx implies !entry_before(#[trigger] rv[j], rv[idx as int]) by {
                        if entry_before(rv[j], rv[idx as int]) {
                            lemma_entry_before_transitive(rv[j], rv[idx as int], rv[k as int]);
                        }
                    }
                }
                k = idx;
            }
            idx += 1;
        }
        let ghost ov = entry_views(out@);
        let m = rest.remove(k);
        proof {
            assert(entry_views(rest@) =~= rv.remove(k as int));
            assert((m.0@, m.1) == rv[k as int]);
        }
        out.push(m);
        proof {
            let nv = entry_views(out@);
            let nr = entry_views(rest@);
            assert(nv =~= ov.push(rv[k as int]));
            assert(listed_in_order(nv)) by {
                assert forall|i: int, j: int| 0 <= i < j < nv.len() implies !entry_before(#[trigger] nv[j], #[trigger] nv[i]) by {
                    if j == nv.len() - 1 {
                        assert(nv[i] == ov[i]);
                        assert(!entry_before(rv[k as int], ov[i]));
                    } else {
                        assert(nv[i] == ov[i]);
                        assert(nv[j] == ov[j]);
                    }
                }
            }
            assert forall|i: int, j: int| 0 <= i < nv.len() && 0 <= j < nr.len() implies !entry_before(#[trigger] nr[j], #[trigger] nv[i]) by {
                let oj = if j < k { j } else { j + 1 };
                assert(nr[j] == rv[oj]);
                if i < ov.len() {
                    assert(nv[i] == ov[i]);
                }
            }
            assert((ov + rv).to_multiset() == input.to_multiset());
            assert(rv.remove(k as int).to_multiset() =~= rv.to_multiset().remove(rv[k as int]));
            assert((nv + nr).to_multiset() =~= input.to_multiset()) by {
                vstd::seq_lib::lemma_multiset_commutative(ov, rv);
                vstd::seq_lib::lemma_multiset_commutative(nv, nr);
                assert(nv.to_multiset() =~= ov.to_multiset().insert(rv[k as int]));
            }
        }
    }
    assert(entry_views(out@) + entry_views(rest@) =~= entry_views(out@));
    proof {
        law_listing_directories_first_then_by_name(entry_views(out@));
    }
    out
}

// ---------------------------------------------------------------- listing

/// How an entry is listed: directories with a trailing slash.
pub open spec fn entry_line(e: (Seq<char>, bool)) -> Seq<char> {
    if e.1 {
        e.0.push('/')
    } else {
        e.0
    }
}

/// The listing of entries in the given order, one per line; an empty
/// directory says so.
pub open spec fn listing_text(s: Seq<(Seq<char>, bool)>) -> Seq<char> {
    if s.len() == 0 {
        "(empty directory)"@
    } else {
        join(s.map_values(|e: (Seq<char>, bool)| entry_line(e)), seq!['\n'])
    }
}

/// Lists entries in the given order.
pub fn format_listing(entries: &[(String, bool)]) -> (r: String)
    ensures
        r@ == listing_text(entry_views(entries@)),
{
    if entries.len() == 0 {
        return "(empty directory)".to_owned();
    }
    let ghost ev = entry_views(entries@);
    let ghost lines = ev.map_values(|e: (Seq<char>, bool)| entry_line(e));
    let mut rows: Vec<Vec<char>> = Vec::new();
    let mut i: usize = 0;
    while i < entries.len()
        invariant
            i <= entries.len(),
            ev == entry_views(entries@),
            lines == ev.map_values(|e: (Seq<char>, bool)| entry_line(e)),
            views(rows@) == lines.take(i as int),
        decreases entries.len() - i,
    {
        let mut row = chars_of(entries[i].0.as_str());
        if entries[i].1 {
            row.push('/');
        }
        let ghost before = rows@;
        rows.push(row);
        proof {
            crate::text::lemma_views_push(before, row);
            assert(ev[i as int] == (entries@[i as int].0@, entries@[i as int].1));
            assert(views(rows@) =~= lines.take((i + 1) as int));
        }
        i += 1;
    }
    assert(lines.take(i as int) =~= lines);
    let nl: Vec<char> = vec!['\n'];
    assert(nl@ =~= seq!['\n']);
    string_of(join_chars(&rows, nl.as_slice()).as_slice())
}

/// What `ls` answers for the entries of a directory: them in order,
/// directories first, one per line.
pub fn ls_output(entries: Vec<(String, bool)>) -> (r: ToolOutput)
    ensures
        !r.is_error,
        r.metadata is None,
        exists|s: Seq<(Seq<char>, bool)>|
            s.to_multiset() == entry_views(entries@).to_multiset() && listed_in_order(s) && grouped_by_kind_then_name(s)
                && r.content@ == listing_text(s),
{
    let sorted = sort_entries(entries);
    let text = format_listing(sorted.as_slice());
    ToolOutput::success(text.as_str())
}

} // verus!
