//! Applying located hunks to the lines of a file.
use vstd::prelude::*;

use crate::patch::error::{err_view, ErrorModel, PatchError};
use crate::patch::hunk_match::{
    block_matches, expected_of, find_hunk_start, hunk_location, lemma_location_matches,
    location_view, normalized_line_chars,
};
use crate::patch::types::{hunks_view, HunkLine, LineModel, PatchHunk};
use crate::text::{chars_of, copy_chars, copy_lines_into, extend_chars, lemma_views_push, join, join_chars, lines, normalize_newlines, string_of, views};

verus! {

/// Expected lines of a concatenation are the concatenation of expected lines.
pub proof fn lemma_expected_append(a: Seq<LineModel>, b: Seq<LineModel>)
    ensures
        expected_of(a + b) == expected_of(a) + expected_of(b),
    decreases b.len(),
{
    if b.len() == 0 {
        assert(a + b =~= a);
        assert(expected_of(a) + expected_of(b) =~= expected_of(a));
    } else {
        lemma_expected_append(a, b.drop_last());
        assert((a + b).drop_last() =~= a + b.drop_last());
        assert((a + b).last() == b.last());
        match b.last() {
            LineModel::Add(_) => {},
            _ => {
                assert(expected_of(a) + expected_of(b) =~= (expected_of(a) + expected_of(b.drop_last())).push(
                    expected_of(b).last()));
            },
        }
    }
}

/// The lines one hunk contributes when placed at `start`: context lines are
/// copied from the file, added lines come from the hunk, removed lines are
/// dropped.
pub open spec fn hunk_output(old: Seq<Seq<char>>, h: Seq<LineModel>, start: int) -> Seq<Seq<char>>
    decreases h.len(),
{
    if h.len() == 0 {
        Seq::empty()
    } else {
        let prev = hunk_output(old, h.drop_last(), start);
        let pos = start + expected_of(h.drop_last()).len();
        match h.last() {
            LineModel::Context(_) => prev.push(old[pos]),
            LineModel::Add(t) => prev.push(t),
            LineModel::Remove(_) => prev,
        }
    }
}

/// Applies `hunks` in order to `old`, each located at or after the position
/// where the previous one ended; the result is the new list of lines.
pub open spec fn apply_from(old: Seq<Seq<char>>, hunks: Seq<Seq<LineModel>>, cursor: int) -> Result<
    Seq<Seq<char>>,
    ErrorModel,
>
    decreases hunks.len(),
{
    if hunks.len() == 0 {
        Ok(old.subrange(cursor, old.len() as int))
    } else {
        let h = hunks[0];
        match hunk_location(old, expected_of(h), cursor) {
            Err(e) => Err(e),
            Ok((start, _)) => match apply_from(old, hunks.drop_first(), start + expected_of(h).len()) {
                Ok(rest) => Ok(old.subrange(cursor, start) + hunk_output(old, h, start) + rest),
                Err(e) => Err(e),
            },
        }
    }
}

/// Lines joined with line feeds, each line terminated by one.
pub open spec fn render_lines(ls: Seq<Seq<char>>) -> Seq<char> {
    if ls.len() == 0 {
        Seq::empty()
    } else {
        join(ls, seq!['\n']) + seq!['\n']
    }
}

/// The text that results from applying `hunks` to `old_content`.
pub open spec fn patched_text(old_content: Seq<char>, hunks: Seq<Seq<LineModel>>) -> Result<Seq<char>, ErrorModel> {
    match apply_from(lines(normalize_newlines(old_content)), hunks, 0) {
        Ok(ls) => Ok(render_lines(ls)),
        Err(e) => Err(e),
    }
}

/// `prefix` followed by the outcome `r`.
pub open spec fn prepend(prefix: Seq<Seq<char>>, r: Result<Seq<Seq<char>>, ErrorModel>) -> Result<
    Seq<Seq<char>>,
    ErrorModel,
> {
    match r {
        Ok(rest) => Ok(prefix + rest),
        Err(e) => Err(e),
    }
}

proof fn lemma_prepend_assoc(a: Seq<Seq<char>>, b: Seq<Seq<char>>, r: Result<Seq<Seq<char>>, ErrorModel>)
    ensures
        prepend(a, prepend(b, r)) == prepend(a + b, r),
{
    match r {
        Ok(rest) => {
            assert(a + (b + rest) =~= (a + b) + rest);
        },
        Err(_) => {},
    }
}

/// View of a string result.
pub open spec fn text_view(r: Result<String, PatchError>) -> Result<Seq<char>, ErrorModel> {
    match r {
        Ok(s) => Ok(s@),
        Err(e) => Err(e@),
    }
}

/// Appends the output of `hunk` placed at `start` and returns the position
/// after its expected lines.
fn emit_hunk(output: &mut Vec<Vec<char>>, old_lines: &Vec<Vec<char>>, hunk: &PatchHunk, start: usize) -> (position: usize)
    requires
        start + expected_of(hunk@).len() <= old_lines.len(),
    ensures
        position == start + expected_of(hunk@).len(),
        views(final(output)@) == views(old(output)@) + hunk_output(views(old_lines@), hunk@, start as int),
{
    let ghost old = views(old_lines@);
    let ghost h = hunk@;
    let ghost exp = expected_of(h);
    let ghost mid = views(output@);
    let mut position = start;
    let mut j: usize = 0;
    assert(h.take(0) =~= Seq::<LineModel>::empty());
    assert(h.skip(0) =~= h);
    assert(Seq::<Seq<char>>::empty() + exp =~= exp);
    assert(mid + Seq::<Seq<char>>::empty() =~= mid);
    while j < hunk.lines.len()
        invariant
            j <= hunk.lines.len(),
            h == hunk@,
            exp == expected_of(h),
            old == views(old_lines@),
            start + exp.len() <= old_lines.len(),
            position == start + expected_of(h.take(j as int)).len(),
            expected_of(h.take(j as int)) + expected_of(h.skip(j as int)) == exp,
            views(output@) == mid + hunk_output(old, h.take(j as int), start as int),
        decreases hunk.lines.len() - j,
    {
        let ghost pre = h.take(j as int);
        let ghost nxt = h.take(j + 1);
        let ghost prev = output@;
        assert(nxt.drop_last() =~= pre);
        assert(nxt.last() == h[j as int]);
        assert(h[j as int] == hunk.lines@[j as int]@);
        proof {
            lemma_expected_append(nxt, h.skip(j + 1));
            assert(nxt + h.skip(j + 1) =~= h);
            lemma_expected_append(pre, h.skip(j as int));
            assert(pre + h.skip(j as int) =~= h);
        }
        match &hunk.lines[j] {
            HunkLine::Context(_) => {
                let c = copy_chars(&old_lines[position]);
                output.push(c);
                proof {
                    lemma_views_push(prev, c);
                    assert(old_lines@[position as int]@ == old[position as int]);
                    assert(views(output@) =~= mid + hunk_output(old, nxt, start as int));
                }
                position += 1;
            },
            HunkLine::Remove(_) => {
                position += 1;
            },
            HunkLine::Add(text) => {
                let t = chars_of(text.as_str());
                output.push(t);
                proof {
                    lemma_views_push(prev, t);
                    assert(views(output@) =~= mid + hunk_output(old, nxt, start as int));
                }
            },
        }
        j += 1;
    }
    assert(h.take(j as int) =~= h);
    position
}

/// Applies `hunks`, in order, to the text `old_content`.
pub fn apply_hunks(old_content: &str, hunks: &[PatchHunk]) -> (r: Result<String, PatchError>)
    ensures
        text_view(r) == patched_text(old_content@, hunks_view(hunks@)),
{
    let old_lines = normalized_line_chars(old_content);
    let ghost old = views(old_lines@);
    let ghost hv = hunks_view(hunks@);
    let mut output: Vec<Vec<char>> = Vec::new();
    let mut cursor: usize = 0;
    let mut i: usize = 0;
    assert(hv.skip(0) =~= hv);
    assert(Seq::<Seq<char>>::empty() + Seq::<Seq<char>>::empty() =~= Seq::<Seq<char>>::empty());
    while i < hunks.len()
        invariant
            i <= hunks.len(),
            old == views(old_lines@),
            old == lines(normalize_newlines(old_content@)),
            hv == hunks_view(hunks@),
            cursor <= old_lines.len(),
            prepend(views(output@), apply_from(old, hv.skip(i as int), cursor as int)) == apply_from(old, hv, 0),
        decreases hunks.len() - i,
    {
        let hunk = &hunks[i];
        let ghost h = hunk@;
        let ghost exp = expected_of(h);
        assert(hv.skip(i as int)[0] == h);
        assert(hv.skip(i as int).drop_first() =~= hv.skip(i + 1));
        let found = find_hunk_start(&old_lines, cursor, hunk);
        let matched = match found {
            Ok(m) => m,
            Err(e) => {
                assert(hunk_location(old, exp, cursor as int) == Err::<(int, crate::patch::error::MatchMode), ErrorModel>(e@));
                assert(apply_from(old, hv.skip(i as int), cursor as int) == Err::<Seq<Seq<char>>, ErrorModel>(e@));
                assert(apply_from(old, hv, 0) == Err::<Seq<Seq<char>>, ErrorModel>(e@));
                assert(old == lines(normalize_newlines(old_content@)));
                assert(patched_text(old_content@, hv) == Err::<Seq<char>, ErrorModel>(e@));
                return Err(e);
            },
        };
        let start = matched.start;
        proof {
            lemma_location_matches(old, exp, cursor as int);
        }
        let ghost before = views(output@);
        copy_lines_into(&mut output, &old_lines, cursor, start);
        let position = emit_hunk(&mut output, &old_lines, hunk, start);
        proof {
            let piece = old.subrange(cursor as int, start as int) + hunk_output(old, h, start as int);
            assert(views(output@) =~= before + piece);
            assert(hunk_location(old, exp, cursor as int) == Ok::<(int, crate::patch::error::MatchMode), ErrorModel>((start as int, matched.mode)));
            let tail = apply_from(old, hv.skip(i + 1), position as int);
            assert(apply_from(old, hv.skip(i as int), cursor as int) == prepend(piece, tail));
            lemma_prepend_assoc(before, piece, tail);
        }
        cursor = position;
        i += 1;
    }
    let ghost before = views(output@);
    copy_lines_into(&mut output, &old_lines, cursor, old_lines.len());
    assert(hv.skip(i as int) =~= Seq::<Seq<LineModel>>::empty());
    assert(views(output@) =~= before + old.subrange(cursor as int, old.len() as int));
    assert(apply_from(old, hv, 0) == Ok::<Seq<Seq<char>>, ErrorModel>(views(output@)));
    assert(old == lines(normalize_newlines(old_content@)));
    if output.len() == 0 {
        assert(render_lines(views(output@)) =~= Seq::<char>::empty());
        Ok(String::new())
    } else {
        let nl: Vec<char> = vec!['\n'];
        let mut text = join_chars(&output, nl.as_slice());
        let ghost joined = text@;
        text.push('\n');
        assert(nl@ =~= seq!['\n']);
        assert(text@ =~= joined + seq!['\n']);
        Ok(string_of(text.as_slice()))
    }
}

} // verus!
