//! Parsing the text of a patch into file operations.
use vstd::prelude::*;

use crate::patch::error::{ErrorModel, PatchError};
use crate::patch::types::{
    changes_view, hunks_view, ChangeModel, HunkLine, LineModel, PatchChange, PatchHunk, PatchKind,
};
use crate::text::{
    chars_eq, chars_of, has_prefix, lines, lines_of, normalize_newlines, normalize_newlines_chars,
    slice_chars, starts_with, string_of, views,
};

verus! {

/// The line starts an add, delete or update operation.
pub open spec fn is_file_header(line: Seq<char>) -> bool {
    ||| starts_with(line, "*** Add File: "@)
    ||| starts_with(line, "*** Delete File: "@)
    ||| starts_with(line, "*** Update File: "@)
}

/// The line starts an add, delete or update operation.
pub fn is_file_header_line(line: &[char]) -> (r: bool)
    ensures
        r == is_file_header(line@),
{
    has_prefix(line, chars_of("*** Add File: ").as_slice()) || has_prefix(
        line,
        chars_of("*** Delete File: ").as_slice(),
    ) || has_prefix(line, chars_of("*** Update File: ").as_slice())
}

/// The line opens a hunk.
pub open spec fn is_hunk_header(line: Seq<char>) -> bool {
    line == "@@"@ || starts_with(line, "@@ "@)
}

/// The line opens a hunk.
pub fn is_hunk_header_line(line: &[char]) -> (r: bool)
    ensures
        r == is_hunk_header(line@),
{
    chars_eq(line, chars_of("@@").as_slice()) || has_prefix(line, chars_of("@@ ").as_slice())
}

/// The line is `git diff` metadata, tolerated before the first hunk.
pub open spec fn is_git_metadata(line: Seq<char>) -> bool {
    ||| starts_with(line, "diff --git "@)
    ||| starts_with(line, "index "@)
    ||| starts_with(line, "--- "@)
    ||| starts_with(line, "+++ "@)
}

/// The line is `git diff` metadata, tolerated before the first hunk.
pub fn is_git_diff_metadata_line(line: &[char]) -> (r: bool)
    ensures
        r == is_git_metadata(line@),
{
    has_prefix(line, chars_of("diff --git ").as_slice()) || has_prefix(
        line,
        chars_of("index ").as_slice(),
    ) || has_prefix(line, chars_of("--- ").as_slice()) || has_prefix(line, chars_of("+++ ").as_slice())
}

/// The body of an added file, from line `i` up to the next `*** ` line:
/// every line must start with `+`, which is dropped; each line ends with a
/// line feed. `acc` is what was collected before `i`; the result also gives
/// the index of the first line not consumed.
pub open spec fn plus_block(lines: Seq<Seq<char>>, i: int, acc: Seq<char>) -> Result<(Seq<char>, int), ErrorModel>
    decreases lines.len() - i,
{
    if i < 0 || i >= lines.len() || starts_with(lines[i], "*** "@) {
        Ok((acc, i))
    } else if lines[i].len() > 0 && lines[i][0] == '+' {
        plus_block(lines, i + 1, acc + lines[i].drop_first() + seq!['\n'])
    } else {
        Err(ErrorModel::AddLineWithoutPlus(lines[i]))
    }
}

pub proof fn lemma_plus_block_index(lines: Seq<Seq<char>>, i: int, acc: Seq<char>)
    requires
        0 <= i,
    ensures
        plus_block(lines, i, acc) matches Ok((_, j)) ==> i <= j && (i <= lines.len() ==> j <= lines.len()),
    decreases lines.len() - i,
{
    if 0 <= i < lines.len() && !starts_with(lines[i], "*** "@) && lines[i].len() > 0 && lines[i][0] == '+' {
        lemma_plus_block_index(lines, i + 1, acc + lines[i].drop_first() + seq!['\n']);
    }
}

/// Collects the body of an added file starting at line `start`.
pub fn collect_plus_block(lines: &Vec<Vec<char>>, start: usize) -> (r: Result<(String, usize), PatchError>)
    ensures
        match r {
            Ok((content, next)) => plus_block(views(lines@), start as int, Seq::empty()) == Ok::<
                (Seq<char>, int),
                ErrorModel,
            >((content@, next as int)),
            Err(e) => plus_block(views(lines@), start as int, Seq::empty()) == Err::<(Seq<char>, int), ErrorModel>(e@),
        },
{
    let ghost ls = views(lines@);
    let star = chars_of("*** ");
    let mut content: Vec<char> = Vec::new();
    let mut i = start;
    loop
        invariant
            start <= i,
            i <= lines.len() || i == start,
            ls == views(lines@),
            star@ == "*** "@,
            plus_block(ls, start as int, Seq::empty()) == plus_block(ls, i as int, content@),
        decreases lines.len() - i,
    {
        if i >= lines.len() {
            return Ok((string_of(content.as_slice()), i));
        }
        let line = &lines[i];
        assert(line@ == ls[i as int]);
        if has_prefix(line.as_slice(), star.as_slice()) {
            return Ok((string_of(content.as_slice()), i));
        }
        if line.len() > 0 && line[0] == '+' {
            let ghost before = content@;
            let mut k: usize = 1;
            while k < line.len()
                invariant
                    1 <= k <= line.len(),
                    content@ == before + line@.subrange(1, k as int),
                decreases line.len() - k,
            {
                content.push(line[k]);
                k += 1;
                assert(content@ =~= before + line@.subrange(1, k as int));
            }
            content.push('\n');
            assert(line@.subrange(1, line@.len() as int) =~= line@.drop_first());
            assert(content@ =~= before + line@.drop_first() + seq!['\n']);
            i += 1;
        } else {
            return Err(PatchError::AddLineWithoutPlus(string_of(line.as_slice())));
        }
    }
}

/// `hunks` with the open hunk, if any, appended.
pub open spec fn close_hunk(hunks: Seq<Seq<LineModel>>, cur: Option<Seq<LineModel>>) -> Seq<Seq<LineModel>> {
    match cur {
        Some(h) => hunks.push(h),
        None => hunks,
    }
}

/// End of an update's hunk block: an update without any `@@` header and
/// without any line is rejected.
pub open spec fn finish_hunks(
    hunks: Seq<Seq<LineModel>>,
    cur: Option<Seq<LineModel>>,
    saw_hunk: bool,
    next: int,
) -> Result<(Seq<Seq<LineModel>>, int), ErrorModel> {
    let hs = close_hunk(hunks, cur);
    if !saw_hunk && forall|k: int| 0 <= k < hs.len() ==> (#[trigger] hs[k]).len() == 0 {
        Err(ErrorModel::NoHunks)
    } else {
        Ok((hs, next))
    }
}

/// The hunks of an update, from line `i` up to the next `*** ` line other than
/// `*** End of File` (a `*** End of File` line itself ends the block and is
/// consumed). Git metadata lines are skipped before the first hunk; each `@@`
/// line opens a hunk; `+`, ` ` and `-` lines add, keep and remove; an empty
/// line keeps an empty line.
pub open spec fn hunk_block(
    lines: Seq<Seq<char>>,
    i: int,
    hunks: Seq<Seq<LineModel>>,
    cur: Option<Seq<LineModel>>,
    saw_hunk: bool,
) -> Result<(Seq<Seq<LineModel>>, int), ErrorModel>
    decreases lines.len() - i,
{
    if i < 0 || i >= lines.len() || (starts_with(lines[i], "*** "@) && !starts_with(
        lines[i],
        "*** End of File"@,
    )) {
        finish_hunks(hunks, cur, saw_hunk, i)
    } else {
        let line = lines[i];
        if line == "*** End of File"@ {
            finish_hunks(hunks, cur, saw_hunk, i + 1)
        } else if cur is None && is_git_metadata(line) {
            hunk_block(lines, i + 1, hunks, cur, saw_hunk)
        } else if is_hunk_header(line) {
            hunk_block(lines, i + 1, close_hunk(hunks, cur), Some(Seq::empty()), true)
        } else {
            match cur {
                None => Err(ErrorModel::LineBeforeHunkHeader),
                Some(h) => if line.len() == 0 {
                    hunk_block(lines, i + 1, hunks, Some(h.push(LineModel::Context(Seq::empty()))), saw_hunk)
                } else if line[0] == '+' {
                    hunk_block(lines, i + 1, hunks, Some(h.push(LineModel::Add(line.drop_first()))), saw_hunk)
                } else if line[0] == ' ' {
                    hunk_block(lines, i + 1, hunks, Some(h.push(LineModel::Context(line.drop_first()))), saw_hunk)
                } else if line[0] == '-' {
                    hunk_block(lines, i + 1, hunks, Some(h.push(LineModel::Remove(line.drop_first()))), true)
                } else {
                    Err(ErrorModel::UnsupportedHunkLine(line))
                },
            }
        }
    }
}

pub proof fn lemma_hunk_block_index(
    lines: Seq<Seq<char>>,
    i: int,
    hunks: Seq<Seq<LineModel>>,
    cur: Option<Seq<LineModel>>,
    saw_hunk: bool,
)
    requires
        0 <= i,
    ensures
        hunk_block(lines, i, hunks, cur, saw_hunk) matches Ok((_, j)) ==> i <= j && (i <= lines.len() ==> j <= lines.len()),
    decreases lines.len() - i,
{
    if 0 <= i < lines.len() && !(starts_with(lines[i], "*** "@) && !starts_with(lines[i], "*** End of File"@)) {
        let line = lines[i];
        if line == "*** End of File"@ {
        } else if cur is None && is_git_metadata(line) {
            lemma_hunk_block_index(lines, i + 1, hunks, cur, saw_hunk);
        } else if is_hunk_header(line) {
            lemma_hunk_block_index(lines, i + 1, close_hunk(hunks, cur), Some(Seq::empty()), true);
        } else {
            match cur {
                None => {},
                Some(h) => if line.len() == 0 {
                    lemma_hunk_block_index(lines, i + 1, hunks, Some(h.push(LineModel::Context(Seq::empty()))), saw_hunk);
                } else if line[0] == '+' {
                    lemma_hunk_block_index(lines, i + 1, hunks, Some(h.push(LineModel::Add(line.drop_first()))), saw_hunk);
                } else if line[0] == ' ' {
                    lemma_hunk_block_index(lines, i + 1, hunks, Some(h.push(LineModel::Context(line.drop_first()))), saw_hunk);
                } else if line[0] == '-' {
                    lemma_hunk_block_index(lines, i + 1, hunks, Some(h.push(LineModel::Remove(line.drop_first()))), true);
                } else {
                },
            }
        }
    }
}


/// View of the lines of the hunk being collected, if one is open.
pub open spec fn cur_view(open: bool, cur: Seq<HunkLine>) -> Option<Seq<LineModel>> {
    if open {
        Some(cur.map_values(|l: HunkLine| l@))
    } else {
        None
    }
}

/// Closes the open hunk and checks that the block had one.
fn finish_hunk_block(
    done: Vec<PatchHunk>,
    open: bool,
    cur: Vec<HunkLine>,
    saw_hunk: bool,
    next: usize,
) -> (r: Result<(Vec<PatchHunk>, usize), PatchError>)
    ensures
        match r {
            Ok((hs, j)) => finish_hunks(hunks_view(done@), cur_view(open, cur@), saw_hunk, next as int) == Ok::<
                (Seq<Seq<LineModel>>, int),
                ErrorModel,
            >((hunks_view(hs@), j as int)),
            Err(e) => finish_hunks(hunks_view(done@), cur_view(open, cur@), saw_hunk, next as int) == Err::<
                (Seq<Seq<LineModel>>, int),
                ErrorModel,
            >(e@),
        },
{
    let mut hunks = done;
    let ghost before = hunks_view(hunks@);
    let ghost cv = cur_view(open, cur@);
    if open {
        let ghost prev = hunks@;
        hunks.push(PatchHunk { lines: cur });
        assert(hunks_view(hunks@) =~= hunks_view(prev).push(cur_view(open, cur@)->Some_0));
    }
    let ghost hs = hunks_view(hunks@);
    assert(hs == close_hunk(before, cur_view(open, cur@)));
    if !saw_hunk {
        let mut k: usize = 0;
        while k < hunks.len()
            invariant
                k <= hunks.len(),
                hs == hunks_view(hunks@),
                hs == close_hunk(before, cv),
                before == hunks_view(done@),
                cv == cur_view(open, cur@),
                forall|t: int| 0 <= t < k ==> (#[trigger] hs[t]).len() == 0,
            decreases hunks.len() - k,
        {
            assert(hs[k as int] == hunks@[k as int]@);
            if hunks[k].lines.len() != 0 {
                assert(hs[k as int].len() != 0);
                assert(!(forall|t: int| 0 <= t < hs.len() ==> (#[trigger] hs[t]).len() == 0));
                assert(finish_hunks(before, cv, saw_hunk, next as int) == Ok::<
                    (Seq<Seq<LineModel>>, int),
                    ErrorModel,
                >((hs, next as int)));
                return Ok((hunks, next));
            }
            k += 1;
        }
        return Err(PatchError::NoHunks);
    }
    Ok((hunks, next))
}

/// Collects the hunks of an update starting at line `start`.
pub fn collect_hunk_block(lines: &Vec<Vec<char>>, start: usize) -> (r: Result<(Vec<PatchHunk>, usize), PatchError>)
    ensures
        match r {
            Ok((hs, next)) => hunk_block(views(lines@), start as int, Seq::empty(), None, false) == Ok::<
                (Seq<Seq<LineModel>>, int),
                ErrorModel,
            >((hunks_view(hs@), next as int)),
            Err(e) => hunk_block(views(lines@), start as int, Seq::empty(), None, false) == Err::<
                (Seq<Seq<LineModel>>, int),
                ErrorModel,
            >(e@),
        },
{
    let ghost ls = views(lines@);
    let star = chars_of("*** ");
    let eof_marker = chars_of("*** End of File");
    let mut hunks: Vec<PatchHunk> = Vec::new();
    let mut open = false;
    let mut cur: Vec<HunkLine> = Vec::new();
    let mut saw_hunk = false;
    let mut i = start;
    assert(hunks_view(hunks@) =~= Seq::<Seq<LineModel>>::empty());
    loop
        invariant
            start <= i,
            i <= lines.len() || i == start,
            ls == views(lines@),
            star@ == "*** "@,
            eof_marker@ == "*** End of File"@,
            hunk_block(ls, start as int, Seq::empty(), None, false) == hunk_block(
                ls,
                i as int,
                hunks_view(hunks@),
                cur_view(open, cur@),
                saw_hunk,
            ),
        decreases lines.len() - i,
    {
        if i >= lines.len() {
            return finish_hunk_block(hunks, open, cur, saw_hunk, i);
        }
        let line = &lines[i];
        assert(line@ == ls[i as int]);
        if has_prefix(line.as_slice(), star.as_slice()) && !has_prefix(line.as_slice(), eof_marker.as_slice()) {
            return finish_hunk_block(hunks, open, cur, saw_hunk, i);
        }
        if chars_eq(line.as_slice(), eof_marker.as_slice()) {
            return finish_hunk_block(hunks, open, cur, saw_hunk, i + 1);
        }
        if !open && is_git_diff_metadata_line(line.as_slice()) {
            i += 1;
        } else if is_hunk_header_line(line.as_slice()) {
            saw_hunk = true;
            if open {
                let ghost prev = hunks@;
                let h = PatchHunk { lines: cur };
                hunks.push(h);
                assert(hunks_view(hunks@) =~= hunks_view(prev).push(h@));
            }
            open = true;
            cur = Vec::new();
            assert(cur_view(open, cur@)->Some_0 =~= Seq::<LineModel>::empty());
            i += 1;
        } else if !open {
            return Err(PatchError::LineBeforeHunkHeader);
        } else {
            let ghost prev = cur@;
            if line.len() == 0 {
                cur.push(HunkLine::Context(String::new()));
            } else if line[0] == '+' {
                let rest = slice_chars(line.as_slice(), 1, line.len());
                cur.push(HunkLine::Add(string_of(rest.as_slice())));
            } else if line[0] == ' ' {
                let rest = slice_chars(line.as_slice(), 1, line.len());
                cur.push(HunkLine::Context(string_of(rest.as_slice())));
            } else if line[0] == '-' {
                saw_hunk = true;
                let rest = slice_chars(line.as_slice(), 1, line.len());
                cur.push(HunkLine::Remove(string_of(rest.as_slice())));
            } else {
                return Err(PatchError::UnsupportedHunkLine(string_of(line.as_slice())));
            }
            assert(line@.subrange(1, line@.len() as int) =~= line@.drop_first());
            assert(cur_view(open, cur@)->Some_0 =~= cur_view(open, prev)->Some_0.push(cur@.last()@));
            i += 1;
        }
    }
}


/// `s` with every leading repetition of `p` removed (`str::trim_start_matches`).
pub open spec fn strip_all_prefix(s: Seq<char>, p: Seq<char>) -> Seq<char>
    decreases s.len(),
{
    if p.len() > 0 && starts_with(s, p) {
        strip_all_prefix(s.skip(p.len() as int), p)
    } else {
        s
    }
}

/// `str::trim_start_matches` with a string pattern.
pub fn trim_start_matches_chars(s: &[char], p: &[char]) -> (r: Vec<char>)
    ensures
        r@ == strip_all_prefix(s@, p@),
{
    let mut i: usize = 0;
    if p.len() == 0 {
        assert(s@.subrange(0, s@.len() as int) =~= s@);
        return slice_chars(s, 0, s.len());
    }
    assert(s@.skip(0) =~= s@);
    loop
        invariant
            p.len() > 0,
            i <= s.len(),
            strip_all_prefix(s@, p@) == strip_all_prefix(s@.skip(i as int), p@),
        decreases s.len() - i,
    {
        let rest = slice_chars(s, i, s.len());
        assert(rest@ =~= s@.skip(i as int));
        if !has_prefix(rest.as_slice(), p) {
            assert(s@.subrange(i as int, s@.len() as int) =~= s@.skip(i as int));
            return rest;
        }
        assert(s@.skip(i as int).skip(p@.len() as int) =~= s@.skip(i + p.len()));
        i = i + p.len();
    }
}

/// The change an operation header at line `i` begins, and the index of the
/// first line after its body.
pub open spec fn parse_ops(lines: Seq<Seq<char>>, i: int, acc: Seq<ChangeModel>) -> Result<(Seq<ChangeModel>, bool), ErrorModel>
    decreases lines.len() - i,
{
    if i < 0 || i >= lines.len() {
        Ok((acc, false))
    } else {
        let line = lines[i];
        if line == "*** End Patch"@ {
            Ok((acc, true))
        } else if line == "*** End of File"@ {
            parse_ops(lines, i + 1, acc)
        } else if starts_with(line, "*** Add File: "@) {
            match plus_block(lines, i + 1, Seq::empty()) {
                Err(e) => Err(e),
                Ok((content, j)) => {
                    proof {
                        lemma_plus_block_index(lines, i + 1, Seq::empty());
                    }
                    parse_ops(
                        lines,
                        j,
                        acc.push(
                            ChangeModel {
                                path: line.skip("*** Add File: "@.len() as int),
                                move_path: None,
                                content,
                                hunks: Seq::empty(),
                                kind: PatchKind::Add,
                            },
                        ),
                    )
                },
            }
        } else if starts_with(line, "*** Delete File: "@) {
            parse_ops(
                lines,
                i + 1,
                acc.push(
                    ChangeModel {
                        path: line.skip("*** Delete File: "@.len() as int),
                        move_path: None,
                        content: Seq::empty(),
                        hunks: Seq::empty(),
                        kind: PatchKind::Delete,
                    },
                ),
            )
        } else if starts_with(line, "*** Update File: "@) {
            let has_move = i + 1 < lines.len() && starts_with(lines[i + 1], "*** Move to: "@);
            let k = if has_move {
                i + 2
            } else {
                i + 1
            };
            match hunk_block(lines, k, Seq::empty(), None, false) {
                Err(e) => Err(e),
                Ok((hunks, j)) => {
                    proof {
                        lemma_hunk_block_index(lines, k, Seq::empty(), None, false);
                    }
                    parse_ops(
                        lines,
                        j,
                        acc.push(
                            ChangeModel {
                                path: line.skip("*** Update File: "@.len() as int),
                                move_path: if has_move {
                                    Some(strip_all_prefix(lines[i + 1], "*** Move to: "@))
                                } else {
                                    None
                                },
                                content: Seq::empty(),
                                hunks,
                                kind: if has_move {
                                    PatchKind::Move
                                } else {
                                    PatchKind::Update
                                },
                            },
                        ),
                    )
                },
            }
        } else {
            Err(ErrorModel::UnexpectedHeader(line))
        }
    }
}

/// The file operations a patch text describes. Line endings are normalized
/// first. An empty text has none; otherwise the first line is
/// `*** Begin Patch` (then `*** End Patch` must end the operations) or a file
/// header, and at least one operation must follow.
pub open spec fn parsed_patch(text: Seq<char>) -> Result<Seq<ChangeModel>, ErrorModel> {
    let ls = lines(normalize_newlines(text));
    if ls.len() == 0 {
        Ok(Seq::empty())
    } else {
        let wrapped = ls[0] == "*** Begin Patch"@;
        if !wrapped && !is_file_header(ls[0]) {
            Err(ErrorModel::MissingStartHeader)
        } else {
            match parse_ops(ls, if wrapped { 1 } else { 0 }, Seq::empty()) {
                Err(e) => Err(e),
                Ok((changes, saw_end)) => if changes.len() == 0 {
                    Err(ErrorModel::NoOperations)
                } else if wrapped && !saw_end {
                    Err(ErrorModel::MissingEndPatch)
                } else {
                    Ok(changes)
                },
            }
        }
    }
}

/// View of the result of [`parse_patch`].
pub open spec fn parse_view(r: Result<Vec<PatchChange>, PatchError>) -> Result<Seq<ChangeModel>, ErrorModel> {
    match r {
        Ok(v) => Ok(changes_view(v@)),
        Err(e) => Err(e@),
    }
}

/// Parses a patch into its file operations.
pub fn parse_patch(patch_text: &str) -> (r: Result<Vec<PatchChange>, PatchError>)
    ensures
        parse_view(r) == parsed_patch(patch_text@),
{
    let text = chars_of(patch_text);
    let normalized = normalize_newlines_chars(text.as_slice());
    let lines = lines_of(normalized.as_slice());
    let ghost ls = views(lines@);
    assert(ls == crate::text::lines(normalize_newlines(patch_text@)));
    if lines.len() == 0 {
        let none: Vec<PatchChange> = Vec::new();
        assert(changes_view(none@) =~= Seq::<ChangeModel>::empty());
        return Ok(none);
    }
    let begin = chars_of("*** Begin Patch");
    let end_patch = chars_of("*** End Patch");
    let end_of_file = chars_of("*** End of File");
    let add_prefix = chars_of("*** Add File: ");
    let delete_prefix = chars_of("*** Delete File: ");
    let update_prefix = chars_of("*** Update File: ");
    let move_prefix = chars_of("*** Move to: ");
    assert(lines@[0]@ == ls[0]);
    let wrapped = chars_eq(lines[0].as_slice(), begin.as_slice());
    if !wrapped && !is_file_header_line(lines[0].as_slice()) {
        return Err(PatchError::MissingStartHeader);
    }
    let mut changes: Vec<PatchChange> = Vec::new();
    let mut saw_end_patch = false;
    let mut i: usize = if wrapped { 1 } else { 0 };
    let ghost first = i as int;
    assert(changes_view(changes@) =~= Seq::<ChangeModel>::empty());
    loop
        invariant_except_break
            !saw_end_patch,
        invariant
            i <= lines.len(),
            ls == views(lines@),
            end_patch@ == "*** End Patch"@,
            end_of_file@ == "*** End of File"@,
            add_prefix@ == "*** Add File: "@,
            delete_prefix@ == "*** Delete File: "@,
            update_prefix@ == "*** Update File: "@,
            move_prefix@ == "*** Move to: "@,
            wrapped == (ls[0] == "*** Begin Patch"@),
            first == (if wrapped { 1int } else { 0int }),
            ls == crate::text::lines(normalize_newlines(patch_text@)),
            ls.len() > 0,
            wrapped || is_file_header(ls[0]),
            parse_ops(ls, first, Seq::empty()) == parse_ops(ls, i as int, changes_view(changes@)),
        ensures
            i <= lines.len(),
            parse_ops(ls, first, Seq::empty()) == Ok::<(Seq<ChangeModel>, bool), ErrorModel>(
                (changes_view(changes@), saw_end_patch),
            ),
        decreases lines.len() - i,
    {
        if i >= lines.len() {
            break;
        }
        let line = &lines[i];
        assert(line@ == ls[i as int]);
        let ghost acc = changes_view(changes@);
        if chars_eq(line.as_slice(), end_patch.as_slice()) {
            saw_end_patch = true;
            break;
        }
        if chars_eq(line.as_slice(), end_of_file.as_slice()) {
            i += 1;
            continue;
        }
        if has_prefix(line.as_slice(), add_prefix.as_slice()) {
            let path = slice_chars(line.as_slice(), add_prefix.len(), line.len());
            match collect_plus_block(&lines, i + 1) {
                Err(e) => {
                    assert(parse_ops(ls, i as int, acc) == Err::<(Seq<ChangeModel>, bool), ErrorModel>(e@));
                    return Err(e);
                },
                Ok((content, j)) => {
                    proof {
                        lemma_plus_block_index(ls, i + 1, Seq::empty());
                    }
                    let change = PatchChange {
                        path: string_of(path.as_slice()),
                        move_path: None,
                        content,
                        hunks: Vec::new(),
                        kind: PatchKind::Add,
                    };
                    changes.push(change);
                    assert(path@ =~= line@.skip("*** Add File: "@.len() as int));
                    assert(hunks_view(change.hunks@) =~= Seq::<Seq<LineModel>>::empty());
                    assert(changes_view(changes@) =~= acc.push(change@));
                    i = j;
                },
            }
            continue;
        }
        if has_prefix(line.as_slice(), delete_prefix.as_slice()) {
            let path = slice_chars(line.as_slice(), delete_prefix.len(), line.len());
            let change = PatchChange {
                path: string_of(path.as_slice()),
                move_path: None,
                content: String::new(),
                hunks: Vec::new(),
                kind: PatchKind::Delete,
            };
            changes.push(change);
            assert(path@ =~= line@.skip("*** Delete File: "@.len() as int));
            assert(hunks_view(change.hunks@) =~= Seq::<Seq<LineModel>>::empty());
            assert(changes_view(changes@) =~= acc.push(change@));
            i += 1;
            continue;
        }
        if has_prefix(line.as_slice(), update_prefix.as_slice()) {
            let path = slice_chars(line.as_slice(), update_prefix.len(), line.len());
            let mut move_path: Option<String> = None;
            let mut k = i + 1;
            if i + 1 < lines.len() && has_prefix(lines[i + 1].as_slice(), move_prefix.as_slice()) {
                assert(lines@[i + 1]@ == ls[i + 1]);
                let mp = trim_start_matches_chars(lines[i + 1].as_slice(), move_prefix.as_slice());
                move_path = Some(string_of(mp.as_slice()));
                k = i + 2;
            }
            match collect_hunk_block(&lines, k) {
                Err(e) => {
                    assert(parse_ops(ls, i as int, acc) == Err::<(Seq<ChangeModel>, bool), ErrorModel>(e@));
                    return Err(e);
                },
                Ok((hunks, j)) => {
                    proof {
                        lemma_hunk_block_index(ls, k as int, Seq::empty(), None, false);
                    }
                    let kind = if move_path.is_some() {
                        PatchKind::Move
                    } else {
                        PatchKind::Update
                    };
                    let change = PatchChange {
                        path: string_of(path.as_slice()),
                        move_path,
                        content: String::new(),
                        hunks,
                        kind,
                    };
                    changes.push(change);
                    assert(path@ =~= line@.skip("*** Update File: "@.len() as int));
                    assert(changes_view(changes@) =~= acc.push(change@));
                    i = j;
                },
            }
            continue;
        }
        return Err(PatchError::UnexpectedHeader(string_of(line.as_slice())));
    }
    if changes.len() == 0 {
        return Err(PatchError::NoOperations);
    }
    if wrapped && !saw_end_patch {
        return Err(PatchError::MissingEndPatch);
    }
    Ok(changes)
}

} // verus!
