//! What applying hunks keeps: text in normal form survives untouched when
//! nothing changes it.
use vstd::prelude::*;

use crate::patch::apply::{apply_from, hunk_output, patched_text, render_lines};
use crate::patch::hunk_match::{expected_of, hunk_location, lemma_location_matches};
use crate::patch::parse::{close_hunk, hunk_block, is_git_metadata, is_hunk_header, parsed_patch};
use crate::patch::types::LineModel;
use crate::text::{join, lines, normalize_newlines, split_on, starts_with, strip_cr};

verus! {

/// Every line of the hunk is a context line.
pub open spec fn context_only(h: Seq<LineModel>) -> bool {
    forall|i: int| 0 <= i < h.len() ==> #[trigger] h[i] is Context
}

/// Text in the form that applying hunks produces: no carriage return, and a
/// line feed at the end unless the text is empty.
pub open spec fn normal_form(s: Seq<char>) -> bool {
    &&& forall|i: int| 0 <= i < s.len() ==> #[trigger] s[i] != '\r'
    &&& (s.len() == 0 || s.last() == '\n')
}

proof fn lemma_context_only_expected(h: Seq<LineModel>)
    requires
        context_only(h),
    ensures
        expected_of(h).len() == h.len(),
    decreases h.len(),
{
    if h.len() > 0 {
        let p = h.drop_last();
        assert(context_only(p)) by {
            assert forall|i: int| 0 <= i < p.len() implies #[trigger] p[i] is Context by {
                assert(p[i] == h[i]);
            }
        }
        lemma_context_only_expected(p);
        assert(h[h.len() - 1] is Context);
    }
}

proof fn lemma_context_only_output(old: Seq<Seq<char>>, h: Seq<LineModel>, start: int)
    requires
        context_only(h),
        0 <= start,
        start + h.len() <= old.len(),
    ensures
        expected_of(h).len() == h.len(),
        hunk_output(old, h, start) == old.subrange(start, start + h.len()),
    decreases h.len(),
{
    if h.len() > 0 {
        let p = h.drop_last();
        assert(context_only(p)) by {
            assert forall|i: int| 0 <= i < p.len() implies #[trigger] p[i] is Context by {
                assert(p[i] == h[i]);
            }
        }
        lemma_context_only_output(old, p, start);
        assert(h[h.len() - 1] is Context);
        assert(old.subrange(start, start + h.len()) =~= old.subrange(start, start + p.len()).push(
            old[start + p.len()],
        ));
    }
}

/// A hunk made only of context lines changes nothing: wherever it is found,
/// and however loosely its lines matched, the file's own lines are kept.
pub proof fn law_context_hunk_changes_nothing(text: Seq<char>, h: Seq<LineModel>)
    requires
        context_only(h),
        patched_text(text, seq![h]) is Ok,
    ensures
        patched_text(text, seq![h]) == Ok::<Seq<char>, crate::patch::error::ErrorModel>(
            render_lines(lines(normalize_newlines(text))),
        ),
{
    let old = lines(normalize_newlines(text));
    let hs = seq![h];
    let exp = expected_of(h);
    assert(hs[0] == h);
    assert(hunk_location(old, exp, 0) is Ok);
    lemma_location_matches(old, exp, 0);
    let (start, _mode) = hunk_location(old, exp, 0)->Ok_0;
    if exp.len() == 0 {
        assert(start == 0);
    }
    lemma_context_only_expected(h);
    assert(start + exp.len() <= old.len());
    lemma_context_only_output(old, h, start);
    assert(hs.drop_first() =~= Seq::<Seq<LineModel>>::empty());
    let tail = old.subrange(start + h.len(), old.len() as int);
    assert(apply_from(old, hs.drop_first(), start + exp.len()) == Ok::<Seq<Seq<char>>, crate::patch::error::ErrorModel>(
        tail,
    ));
    assert(old.subrange(0, start) + old.subrange(start, start + h.len()) + tail =~= old);
    assert(apply_from(old, hs, 0) == Ok::<Seq<Seq<char>>, crate::patch::error::ErrorModel>(
        old.subrange(0, start) + hunk_output(old, h, start) + tail,
    ));
    assert(apply_from(old, hs, 0) == Ok::<Seq<Seq<char>>, crate::patch::error::ErrorModel>(old));
}

proof fn lemma_normalize_without_cr(s: Seq<char>)
    requires
        forall|i: int| 0 <= i < s.len() ==> #[trigger] s[i] != '\r',
    ensures
        normalize_newlines(s) == s,
    decreases s.len(),
{
    if s.len() > 0 {
        let t = s.drop_first();
        assert forall|i: int| 0 <= i < t.len() implies #[trigger] t[i] != '\r' by {
            assert(t[i] == s[i + 1]);
        }
        lemma_normalize_without_cr(t);
        assert(seq![s[0]] + t =~= s);
    }
}

proof fn lemma_join_split(s: Seq<char>, sep: char)
    ensures
        join(split_on(s, sep), seq![sep]) == s,
    decreases s.len(),
{
    if s.len() == 0 {
        assert(split_on(s, sep) =~= seq![Seq::<char>::empty()]);
    } else {
        let p = s.drop_last();
        let parts = split_on(p, sep);
        lemma_join_split(p, sep);
        crate::text::lemma_split_on_nonempty(p, sep);
        if s.last() == sep {
            let q = parts.push(Seq::empty());
            assert(q.drop_last() =~= parts);
            assert(join(q, seq![sep]) =~= s);
        } else {
            let q = parts.update(parts.len() - 1, parts.last().push(s.last()));
            assert(s =~= p.push(s.last()));
            assert(q.last() == parts.last().push(s.last()));
            if parts.len() == 1 {
                assert(join(q, seq![sep]) == q[0]);
                assert(join(parts, seq![sep]) == parts[0]);
                assert(join(q, seq![sep]) =~= s);
            } else {
                assert(q.drop_last() =~= parts.drop_last());
                assert(join(q, seq![sep]) == join(parts.drop_last(), seq![sep]) + seq![sep] + q.last());
                assert(join(parts, seq![sep]) == join(parts.drop_last(), seq![sep]) + seq![sep] + parts.last());
                assert(join(q, seq![sep]) =~= s);
            }
        }
    }
}

proof fn lemma_split_avoids(s: Seq<char>, sep: char, c: char)
    requires
        forall|i: int| 0 <= i < s.len() ==> #[trigger] s[i] != c,
    ensures
        forall|k: int, j: int|
            0 <= k < split_on(s, sep).len() && 0 <= j < split_on(s, sep)[k].len() ==> #[trigger] split_on(s, sep)[k][j]
                != c,
    decreases s.len(),
{
    if s.len() > 0 {
        let p = s.drop_last();
        assert forall|i: int| 0 <= i < p.len() implies #[trigger] p[i] != c by {
            assert(p[i] == s[i]);
        }
        lemma_split_avoids(p, sep, c);
        crate::text::lemma_split_on_nonempty(p, sep);
        let parts = split_on(p, sep);
        let q = split_on(s, sep);
        assert forall|k: int, j: int| 0 <= k < q.len() && 0 <= j < q[k].len() implies #[trigger] q[k][j] != c by {
            if s.last() == sep {
                if k < parts.len() {
                    assert(q[k] == parts[k]);
                }
            } else {
                if k < parts.len() - 1 {
                    assert(q[k] == parts[k]);
                } else {
                    assert(q[k] == parts.last().push(s.last()));
                    if j < parts.last().len() {
                        assert(q[k][j] == parts[parts.len() - 1][j]);
                    } else {
                        assert(q[k][j] == s[s.len() - 1]);
                    }
                }
            }
        }
    }
}

/// Text in normal form is rendered back exactly from its lines.
pub proof fn law_normal_form_round_trip(s: Seq<char>)
    requires
        normal_form(s),
    ensures
        render_lines(lines(normalize_newlines(s))) == s,
{
    lemma_normalize_without_cr(s);
    if s.len() > 0 {
        let parts = split_on(s, '\n');
        lemma_join_split(s, '\n');
        lemma_split_avoids(s, '\n', '\r');
        let p = s.drop_last();
        crate::text::lemma_split_on_nonempty(p, '\n');
        assert(parts =~= split_on(p, '\n').push(Seq::empty()));
        let kept = parts.drop_last();
        assert(lines(s) =~= kept.map_values(|l: Seq<char>| strip_cr(l)));
        assert forall|k: int| 0 <= k < kept.len() implies strip_cr(#[trigger] kept[k]) == kept[k] by {
            assert(kept[k] == parts[k]);
            if kept[k].len() > 0 {
                assert(parts[k][kept[k].len() - 1] != '\r');
            }
        }
        assert(lines(s) =~= kept);
        assert(join(parts, seq!['\n']) == join(kept, seq!['\n']) + seq!['\n'] + Seq::<char>::empty());
        assert(render_lines(kept) =~= s);
    }
}

/// Applying no hunks to text in normal form gives it back unchanged.
pub proof fn law_no_hunks_keep_normal_text(s: Seq<char>)
    requires
        normal_form(s),
    ensures
        patched_text(s, Seq::empty()) == Ok::<Seq<char>, crate::patch::error::ErrorModel>(s),
{
    let old = lines(normalize_newlines(s));
    assert(old.subrange(0, old.len() as int) =~= old);
    law_normal_form_round_trip(s);
}

/// A hunk of context lines applied to text in normal form gives it back
/// unchanged, when it is found at all.
pub proof fn law_context_hunk_keeps_normal_text(s: Seq<char>, h: Seq<LineModel>)
    requires
        normal_form(s),
        context_only(h),
        patched_text(s, seq![h]) is Ok,
    ensures
        patched_text(s, seq![h]) == Ok::<Seq<char>, crate::patch::error::ErrorModel>(s),
{
    law_context_hunk_changes_nothing(s, h);
    law_normal_form_round_trip(s);
}

// ---------------------------------------------------------------- line endings

/// `t` with each line feed written as `end`.
pub open spec fn with_line_ends(t: Seq<char>, end: Seq<char>) -> Seq<char>
    decreases t.len(),
{
    if t.len() == 0 {
        Seq::empty()
    } else if t[0] == '\n' {
        end + with_line_ends(t.drop_first(), end)
    } else {
        seq![t[0]] + with_line_ends(t.drop_first(), end)
    }
}

/// `t` holds no carriage return.
pub open spec fn no_cr(t: Seq<char>) -> bool {
    forall|i: int| 0 <= i < t.len() ==> #[trigger] t[i] != '\r'
}

proof fn lemma_normalize_plain(t: Seq<char>)
    requires
        no_cr(t),
    ensures
        normalize_newlines(t) == t,
    decreases t.len(),
{
    if t.len() > 0 {
        assert(no_cr(t.drop_first())) by {
            assert forall|i: int| 0 <= i < t.drop_first().len() implies #[trigger] t.drop_first()[i] != '\r' by {
                assert(t.drop_first()[i] == t[i + 1]);
            }
        }
        lemma_normalize_plain(t.drop_first());
        assert(seq![t[0]] + t.drop_first() =~= t);
    }
}

proof fn lemma_crlf_normalizes(t: Seq<char>)
    requires
        no_cr(t),
    ensures
        normalize_newlines(with_line_ends(t, "\r\n"@)) == t,
    decreases t.len(),
{
    reveal_strlit("\r\n");
    if t.len() > 0 {
        let rest = t.drop_first();
        assert(no_cr(rest)) by {
            assert forall|i: int| 0 <= i < rest.len() implies #[trigger] rest[i] != '\r' by {
                assert(rest[i] == t[i + 1]);
            }
        }
        lemma_crlf_normalizes(rest);
        let w = with_line_ends(t, "\r\n"@);
        let rw = with_line_ends(rest, "\r\n"@);
        if t[0] == '\n' {
            assert(w == "\r\n"@ + rw);
            assert(w[0] == '\r' && w[1] == '\n');
            assert(w.skip(2) =~= rw);
        } else {
            assert(w == seq![t[0]] + rw);
            assert(w.drop_first() =~= rw);
        }
        assert(seq![t[0]] + rest =~= t);
    }
}

proof fn lemma_cr_normalizes(t: Seq<char>)
    requires
        no_cr(t),
    ensures
        normalize_newlines(with_line_ends(t, "\r"@)) == t,
    decreases t.len(),
{
    reveal_strlit("\r");
    if t.len() > 0 {
        let rest = t.drop_first();
        assert(no_cr(rest)) by {
            assert forall|i: int| 0 <= i < rest.len() implies #[trigger] rest[i] != '\r' by {
                assert(rest[i] == t[i + 1]);
            }
        }
        lemma_cr_normalizes(rest);
        let w = with_line_ends(t, "\r"@);
        let rw = with_line_ends(rest, "\r"@);
        if t[0] == '\n' {
            assert(w == "\r"@ + rw);
            assert(w.drop_first() =~= rw);
            if rw.len() > 0 {
                if rest[0] == '\n' {
                    assert(rw == "\r"@ + with_line_ends(rest.drop_first(), "\r"@));
                    assert(rw[0] == '\r');
                } else {
                    assert(rw == seq![rest[0]] + with_line_ends(rest.drop_first(), "\r"@));
                }
                assert(w[1] == rw[0]);
            }
        } else {
            assert(w == seq![t[0]] + rw);
            assert(w.drop_first() =~= rw);
        }
        assert(seq![t[0]] + rest =~= t);
    }
}

/// A patch reads the same whether its lines end in LF, CRLF or CR.
pub proof fn law_line_endings_parse_alike(t: Seq<char>)
    requires
        no_cr(t),
    ensures
        parsed_patch(with_line_ends(t, "\r\n"@)) == parsed_patch(t),
        parsed_patch(with_line_ends(t, "\r"@)) == parsed_patch(t),
{
    lemma_normalize_plain(t);
    lemma_crlf_normalizes(t);
    lemma_cr_normalizes(t);
}

// ---------------------------------------------------------------- hunks of an update

/// A hunk line as written in a patch: ` ` keeps, `+` adds, `-` removes.
pub open spec fn written_line(l: LineModel) -> Seq<char> {
    match l {
        LineModel::Context(t) => seq![' '] + t,
        LineModel::Add(t) => seq!['+'] + t,
        LineModel::Remove(t) => seq!['-'] + t,
    }
}

/// Hunks as written in an update's block: each an `@@` line followed by
/// its lines.
pub open spec fn written_hunks(hs: Seq<Seq<LineModel>>) -> Seq<Seq<char>>
    decreases hs.len(),
{
    if hs.len() == 0 {
        Seq::empty()
    } else {
        seq!["@@"@] + hs[0].map_values(|l: LineModel| written_line(l)) + written_hunks(hs.drop_first())
    }
}

proof fn lemma_written_line_plain(l: LineModel)
    ensures
        written_line(l).len() > 0,
        !starts_with(written_line(l), "*** "@),
        written_line(l) != "*** End of File"@,
        !is_hunk_header(written_line(l)),
{
    reveal_strlit("*** ");
    reveal_strlit("*** End of File");
    reveal_strlit("@@");
    reveal_strlit("@@ ");
    let w = written_line(l);
    assert(w[0] != '*');
    assert("*** "@[0] == '*');
    if starts_with(w, "*** "@) {
        assert(w.take(4)[0] == w[0]);
    }
    if starts_with(w, "@@ "@) {
        assert(w.take(3)[0] == w[0]);
    }
    assert(w != "@@"@) by {
        assert("@@"@[0] == '@');
    }
    assert(w != "*** End of File"@) by {
        assert("*** End of File"@[0] == '*');
    }
}

proof fn lemma_header_line()
    ensures
        !starts_with("@@"@, "*** "@),
        "@@"@ != "*** End of File"@,
        is_hunk_header("@@"@),
        !is_git_metadata("@@"@),
{
    reveal_strlit("*** ");
    reveal_strlit("*** End of File");
    reveal_strlit("@@");
    reveal_strlit("diff --git ");
    reveal_strlit("index ");
    reveal_strlit("--- ");
    reveal_strlit("+++ ");
    assert("@@"@.len() != "*** End of File"@.len());
}

/// The lines of one hunk, written from line `i`, go into the open hunk in
/// order.
proof fn lemma_hunk_body(lines: Seq<Seq<char>>, i: int, acc: Seq<Seq<LineModel>>, cur: Seq<LineModel>, h: Seq<LineModel>)
    requires
        0 <= i,
        i + h.len() <= lines.len(),
        forall|k: int| 0 <= k < h.len() ==> lines[i + k] == written_line(#[trigger] h[k]),
    ensures
        hunk_block(lines, i, acc, Some(cur), true) == hunk_block(lines, i + h.len(), acc, Some(cur + h), true),
    decreases h.len(),
{
    if h.len() == 0 {
        assert(cur + h =~= cur);
    } else {
        let line = lines[i];
        assert(line == written_line(h[0]));
        lemma_written_line_plain(h[0]);
        let rest = h.drop_first();
        assert forall|k: int| 0 <= k < rest.len() implies lines[(i + 1) + k] == written_line(#[trigger] rest[k]) by {
            assert(rest[k] == h[k + 1]);
        }
        lemma_hunk_body(lines, i + 1, acc, cur.push(h[0]), rest);
        assert(cur.push(h[0]) + rest =~= cur + h);
        match h[0] {
            LineModel::Context(t) => {
                assert(line[0] == ' ');
                assert(line.drop_first() =~= t);
            },
            LineModel::Add(t) => {
                assert(line[0] == '+');
                assert(line.drop_first() =~= t);
            },
            LineModel::Remove(t) => {
                assert(line[0] == '-');
                assert(line.drop_first() =~= t);
            },
        }
    }
}

/// Hunks written from line `i` each become a hunk of the block, in order,
/// the last one still open at the end of them.
proof fn lemma_written_hunks(
    lines: Seq<Seq<char>>,
    i: int,
    hs: Seq<Seq<LineModel>>,
    acc: Seq<Seq<LineModel>>,
    cur: Option<Seq<LineModel>>,
    saw: bool,
)
    requires
        0 <= i,
        hs.len() > 0,
        i + written_hunks(hs).len() <= lines.len(),
        forall|k: int| 0 <= k < written_hunks(hs).len() ==> lines[i + k] == #[trigger] written_hunks(hs)[k],
    ensures
        hunk_block(lines, i, acc, cur, saw) == hunk_block(
            lines,
            i + written_hunks(hs).len(),
            close_hunk(acc, cur) + hs.drop_last(),
            Some(hs.last()),
            true,
        ),
    decreases hs.len(),
{
    let w = written_hunks(hs);
    let body = hs[0].map_values(|l: LineModel| written_line(l));
    let rest = hs.drop_first();
    assert(w == seq!["@@"@] + body + written_hunks(rest));
    assert(lines[i] == w[0]);
    lemma_header_line();
    assert(lines[i] == "@@"@);
    let acc1 = close_hunk(acc, cur);
    assert(hunk_block(lines, i, acc, cur, saw) == hunk_block(lines, i + 1, acc1, Some(Seq::empty()), true));
    assert forall|k: int| 0 <= k < hs[0].len() implies lines[(i + 1) + k] == written_line(#[trigger] hs[0][k]) by {
        assert(w[1 + k] == body[k]);
    }
    lemma_hunk_body(lines, i + 1, acc1, Seq::empty(), hs[0]);
    assert(Seq::<LineModel>::empty() + hs[0] =~= hs[0]);
    let j = i + 1 + hs[0].len();
    if hs.len() == 1 {
        assert(rest.len() == 0);
        assert(w.len() == 1 + hs[0].len());
        assert(acc1 + hs.drop_last() =~= acc1);
    } else {
        assert forall|k: int| 0 <= k < written_hunks(rest).len() implies lines[j + k] == #[trigger] written_hunks(rest)[k] by {
            assert(w[1 + hs[0].len() + k] == written_hunks(rest)[k]);
        }
        lemma_written_hunks(lines, j, rest, acc1, Some(hs[0]), true);
        assert(close_hunk(acc1, Some(hs[0])) + rest.drop_last() =~= acc1 + hs.drop_last());
    }
}

/// Every `@@` header of an update starts a hunk of the result: the block's
/// hunks, written one after another and ended by `*** End Patch`, are read
/// back as exactly those hunks, each with its lines in order, and the block
/// ends at the marker.
pub proof fn law_update_block_keeps_every_hunk(hs: Seq<Seq<LineModel>>)
    requires
        hs.len() > 0,
    ensures
        hunk_block(written_hunks(hs).push("*** End Patch"@), 0, Seq::empty(), None, false) == Ok::<
            (Seq<Seq<LineModel>>, int),
            crate::patch::error::ErrorModel,
        >((hs, written_hunks(hs).len() as int)),
{
    let lines = written_hunks(hs).push("*** End Patch"@);
    let n = written_hunks(hs).len() as int;
    assert forall|k: int| 0 <= k < n implies lines[0 + k] == #[trigger] written_hunks(hs)[k] by {}
    lemma_written_hunks(lines, 0, hs, Seq::empty(), None, false);
    reveal_strlit("*** End Patch");
    reveal_strlit("*** ");
    reveal_strlit("*** End of File");
    assert(lines[n] == "*** End Patch"@);
    assert(starts_with(lines[n], "*** "@)) by {
        assert(lines[n].take(4) =~= "*** "@);
    }
    assert(!starts_with(lines[n], "*** End of File"@)) by {
        if starts_with(lines[n], "*** End of File"@) {
            assert(lines[n].take(15)[4] == lines[n][4]);
        }
    }
    let acc = close_hunk(Seq::<Seq<LineModel>>::empty(), None) + hs.drop_last();
    assert(close_hunk(acc, Some(hs.last())) =~= hs);
}

} // verus!
