//! Plain-text rendering of transcript items for scrollback output.
use vstd::prelude::*;

use crate::patch::paths::{strip_path_prefix, stripped};
use crate::text::{
    byte_len, byte_len_le, byte_len_wide, chars_of, copy_chars, decimal, extend_chars, join,
    join_chars, lines, lines_of, push_decimal, slice_chars, split_chars, split_on,
    split_whitespace, string_of, strings, strings_of, trim, trim_chars, views, words,
};

verus! {

/// The kinds of transcript entries.
#[derive(Clone, Copy, Debug, PartialEq, Eq, Structural)]
pub enum TranscriptItemKind {
    User,
    Assistant,
    Reasoning,
    ToolCall,
    ToolResult,
    Error,
    System,
    ApprovalPrompt,
    ApprovalResolution,
}

/// One entry of the conversation transcript.
#[derive(Clone, Debug, PartialEq, Eq)]
pub struct TranscriptItem {
    pub kind: TranscriptItemKind,
    pub title: String,
    pub body: String,
    /// How far a tool result is folded: 0 shows it whole, 1 and 2 fold it to
    /// fewer lines, anything higher hides it.
    pub fold_stage: u8,
}

impl TranscriptItem {
    /// An unfolded item.
    pub fn new(kind: TranscriptItemKind, title: &str, body: &str) -> (r: TranscriptItem)
        ensures
            r.kind == kind,
            r.title@ == title@,
            r.body@ == body@,
            r.fold_stage == 0,
    {
        TranscriptItem { kind, title: title.to_owned(), body: body.to_owned(), fold_stage: 0 }
    }

    /// A tool call titled by its summary, with no body.
    pub fn tool_call(title: &str) -> (r: TranscriptItem)
        ensures
            r.view() == (TranscriptItemKind::ToolCall, title@, Seq::<char>::empty(), 0u8),
    {
        proof {
            reveal_strlit("");
        }
        TranscriptItem::new(TranscriptItemKind::ToolCall, title, "")
    }

    /// A tool result restored from a saved session, titled by its call.
    pub fn restored_tool_result(title: &str, body: &str) -> (r: TranscriptItem)
        ensures
            r.view() == (TranscriptItemKind::ToolResult, title@, body@, 0u8),
    {
        TranscriptItem::new(TranscriptItemKind::ToolResult, title, body)
    }

    /// A failed tool call, titled by its call.
    pub fn tool_error(title: &str, body: &str) -> (r: TranscriptItem)
        ensures
            r.view() == (TranscriptItemKind::Error, title@, body@, 0u8),
    {
        TranscriptItem::new(TranscriptItemKind::Error, title, body)
    }
}

impl View for TranscriptItem {
    type V = (TranscriptItemKind, Seq<char>, Seq<char>, u8);

    open spec fn view(&self) -> (TranscriptItemKind, Seq<char>, Seq<char>, u8) {
        (self.kind, self.title@, self.body@, self.fold_stage)
    }
}

/// How many lines of a tool result are shown before the rest is folded.
pub const TOOL_RESULT_PREVIEW_LINE_LIMIT: usize = 6;

// ---------------------------------------------------------------- widths

/// Columns left for text after `prefix` on a line of `width` columns:
/// `width.saturating_sub(prefix.len() as u16).max(1)`.
pub open spec fn lane(width: u16, prefix: Seq<char>) -> nat {
    let p = byte_len(prefix) % 65536;
    if width > p {
        (width - p) as nat
    } else {
        1
    }
}

/// `width.saturating_sub(prefix.len() as u16).max(1)`.
pub fn lane_width(width: u16, prefix: &str) -> (r: usize)
    ensures
        r == lane(width, prefix@),
{
    let b = byte_len_wide(chars_of(prefix).as_slice());
    let p = (b % 65536) as u16;
    if width > p {
        (width - p) as usize
    } else {
        1
    }
}

// ---------------------------------------------------------------- wrapping

/// `n`, but at least one.
pub open spec fn at_least_one(n: nat) -> nat {
    if n > 1 {
        n
    } else {
        1
    }
}

/// Greedy packing of `ws` into lines: the finished lines, the line being
/// filled, and the width that line may take. A word joins the current line
/// (after one space) while the joined line's UTF-8 length fits the width; the
/// first line may take `first`, every later one `rest`.
pub open spec fn pack(ws: Seq<Seq<char>>, first: nat, rest: nat) -> (Seq<Seq<char>>, Seq<char>, nat)
    decreases ws.len(),
{
    if ws.len() == 0 {
        (Seq::empty(), Seq::empty(), at_least_one(first))
    } else {
        let (done, cur, w) = pack(ws.drop_last(), first, rest);
        let word = ws.last();
        if cur.len() == 0 {
            (done, word, w)
        } else if byte_len(cur + seq![' '] + word) <= w {
            (done, cur + seq![' '] + word, w)
        } else {
            (done.push(cur), word, at_least_one(rest))
        }
    }
}

/// Word wrap that never splits a word: the whitespace-separated words of
/// `text` packed greedily into lines, the first at most `first` bytes wide
/// and the others at most `rest` (a single longer word stands alone); an
/// empty or blank text gives one empty line.
pub open spec fn wrap_tokens(text: Seq<char>, first: nat, rest: nat) -> Seq<Seq<char>> {
    if text.len() == 0 {
        seq![Seq::empty()]
    } else {
        let (done, cur, _w) = pack(words(text), first, rest);
        let all = if cur.len() > 0 {
            done.push(cur)
        } else {
            done
        };
        if all.len() == 0 {
            seq![Seq::empty()]
        } else {
            all
        }
    }
}

/// Wraps `text` on whitespace without ever breaking a word.
pub fn wrap_token_safe_with_first_and_subsequent_widths(
    text: &str,
    first_width: usize,
    subsequent_width: usize,
) -> (r: Vec<String>)
    ensures
        strings(r@) == wrap_tokens(text@, first_width as nat, subsequent_width as nat),
{
    let chars = chars_of(text);
    if chars.len() == 0 {
        let r: Vec<String> = vec![String::new()];
        assert(strings(r@) =~= seq![Seq::<char>::empty()]);
        return r;
    }
    let ws = split_whitespace(chars.as_slice());
    let ghost all_words = words(text@);
    assert(views(ws@) =~= all_words);
    let mut lines: Vec<Vec<char>> = Vec::new();
    let mut current: Vec<char> = Vec::new();
    let mut width: usize = if first_width > 1 {
        first_width
    } else {
        1
    };
    let mut i: usize = 0;
    while i < ws.len()
        invariant
            i <= ws.len(),
            views(ws@) == all_words,
            pack(all_words.take(i as int), first_width as nat, subsequent_width as nat) == (
                views(lines@),
                current@,
                width as nat,
            ),
        decreases ws.len() - i,
    {
        assert(all_words.take((i + 1) as int).drop_last() =~= all_words.take(i as int));
        assert(all_words[i as int] == ws@[i as int]@);
        if current.len() == 0 {
            current = copy_chars(&ws[i]);
        } else {
            let mut candidate = copy_chars(&current);
            candidate.push(' ');
            extend_chars(&mut candidate, ws[i].as_slice());
            assert(candidate@ =~= current@ + seq![' '] + ws@[i as int]@);
            if byte_len_le(candidate.as_slice(), width) {
                current = candidate;
            } else {
                let ghost before = lines@;
                lines.push(current);
                assert(views(lines@) =~= views(before).push(views(lines@).last()));
                current = copy_chars(&ws[i]);
                width = if subsequent_width > 1 {
                    subsequent_width
                } else {
                    1
                };
            }
        }
        i += 1;
    }
    assert(all_words.take(i as int) =~= all_words);
    if current.len() > 0 {
        let ghost before = lines@;
        lines.push(current);
        assert(views(lines@) =~= views(before).push(views(lines@).last()));
    }
    if lines.len() == 0 {
        let r: Vec<String> = vec![String::new()];
        assert(strings(r@) =~= seq![Seq::<char>::empty()]);
        return r;
    }
    strings_of(&lines)
}

/// Splits a pending assistant line into the wrapped lines that are complete
/// and the last one, which may still grow.
pub open spec fn pending_split(wrapped: Seq<Seq<char>>, pending: Seq<char>) -> (Seq<Seq<char>>, Seq<char>) {
    if wrapped.len() <= 1 {
        (Seq::empty(), pending)
    } else {
        (wrapped.drop_last(), wrapped.last())
    }
}

/// The first-line prefix of assistant output.
pub open spec fn assistant_prefix(include_header: bool) -> Seq<char> {
    if include_header {
        "assistant> "@
    } else {
        "  "@
    }
}

/// Splits a streamed assistant line into wrapped lines ready to print and
/// the remainder that stays pending.
pub fn split_assistant_pending_line(width: u16, pending: &str, include_header: bool) -> (r: (
    Vec<String>,
    String,
))
    ensures
        (strings(r.0@), r.1@) == pending_split(
            wrap_tokens(
                pending@,
                lane(width, assistant_prefix(include_header)),
                lane(width, "  "@),
            ),
            pending@,
        ),
{
    let first_prefix = if include_header {
        "assistant> "
    } else {
        "  "
    };
    let first_width = lane_width(width, first_prefix);
    let continuation_width = lane_width(width, "  ");
    let wrapped = wrap_token_safe_with_first_and_subsequent_widths(pending, first_width, continuation_width);
    if wrapped.len() <= 1 {
        let flushed: Vec<String> = Vec::new();
        assert(strings(flushed@) =~= Seq::<Seq<char>>::empty());
        return (flushed, string_of(chars_of(pending).as_slice()));
    }
    let mut flushed: Vec<String> = Vec::new();
    let mut i: usize = 0;
    while i + 1 < wrapped.len()
        invariant
            i + 1 <= wrapped.len(),
            strings(flushed@) == strings(wrapped@).take(i as int),
        decreases wrapped.len() - i,
    {
        let ghost before = flushed@;
        flushed.push(string_of(chars_of(wrapped[i].as_str()).as_slice()));
        assert(strings(wrapped@)[i as int] == wrapped@[i as int]@);
        assert(strings(flushed@) =~= strings(before).push(wrapped@[i as int]@));
        assert(strings(flushed@) =~= strings(wrapped@).take((i + 1) as int));
        i += 1;
    }
    assert(strings(wrapped@).take(i as int) =~= strings(wrapped@).drop_last());
    let remainder = string_of(chars_of(wrapped[wrapped.len() - 1].as_str()).as_slice());
    assert(strings(wrapped@).last() == wrapped@[wrapped@.len() - 1]@);
    (flushed, remainder)
}

// ---------------------------------------------------------------- rows

/// `n` dashes.
pub open spec fn dashes(n: nat) -> Seq<char> {
    Seq::new(n, |i: int| '-')
}

/// The head of a separator line: `---`, or `--- title ` for a title that is
/// not blank.
pub open spec fn separator_prefix(title: Seq<char>) -> Seq<char> {
    let t = trim(title);
    if t.len() == 0 {
        "---"@
    } else {
        "--- "@ + t + seq![' ']
    }
}

/// A separator line: its head, filled with dashes to `width` bytes when the
/// head is shorter.
pub open spec fn separator_line(title: Seq<char>, width: u16) -> Seq<char> {
    let p = separator_prefix(title);
    if width > byte_len(p) {
        p + dashes((width - byte_len(p)) as nat)
    } else {
        p
    }
}

pub(crate) fn push_str(out: &mut Vec<char>, s: &str)
    ensures
        final(out)@ == old(out)@ + s@,
{
    let c = chars_of(s);
    extend_chars(out, c.as_slice());
}

fn separator_chars(title: &[char], width: u16) -> (r: Vec<char>)
    ensures
        r@ == separator_line(title@, width),
{
    let t = trim_chars(title);
    let mut p: Vec<char> = Vec::new();
    if t.len() == 0 {
        push_str(&mut p, "---");
    } else {
        push_str(&mut p, "--- ");
        extend_chars(&mut p, t.as_slice());
        p.push(' ');
    }
    assert(p@ =~= separator_prefix(title@));
    let plen = byte_len_wide(p.as_slice());
    if (width as u128) > plen {
        let fill = (width as u128 - plen) as usize;
        let ghost head = p@;
        let mut k: usize = 0;
        while k < fill
            invariant
                k <= fill,
                p@ == head + dashes(k as nat),
            decreases fill - k,
        {
            p.push('-');
            k += 1;
            assert(p@ =~= head + dashes(k as nat));
        }
    }
    p
}

/// A separator line titled `title`, `width` columns wide.
pub fn separator(title: &str, width: u16) -> (r: String)
    ensures
        r@ == separator_line(title@, width),
{
    string_of(separator_chars(chars_of(title).as_slice(), width).as_slice())
}

/// Rows, each followed by a line feed.
pub open spec fn row_text(rows: Seq<Seq<char>>) -> Seq<char>
    decreases rows.len(),
{
    if rows.len() == 0 {
        Seq::empty()
    } else {
        row_text(rows.drop_last()) + rows.last() + seq!['\n']
    }
}

/// Wrapped segments behind their prefixes: `first` before the first segment
/// and `rest` before the others; no segment gives one row holding `first`.
pub open spec fn prefixed(segs: Seq<Seq<char>>, first: Seq<char>, rest: Seq<char>) -> Seq<Seq<char>> {
    if segs.len() == 0 {
        seq![first]
    } else {
        Seq::new(segs.len(), |i: int| if i == 0 { first + segs[0] } else { rest + segs[i] })
    }
}

/// The rows of logical lines `ls`: the first row of all behind `fp` and
/// wrapped at `fw` first, every other row behind `cp` and wrapped at `cw`.
pub open spec fn body_rows(ls: Seq<Seq<char>>, fp: Seq<char>, cp: Seq<char>, fw: nat, cw: nat) -> Seq<Seq<char>>
    decreases ls.len(),
{
    if ls.len() == 0 {
        Seq::empty()
    } else if ls.len() == 1 {
        prefixed(wrap_tokens(ls[0], fw, cw), fp, cp)
    } else {
        body_rows(ls.drop_last(), fp, cp, fw, cw) + prefixed(wrap_tokens(ls.last(), cw, cw), cp, cp)
    }
}

/// The note that replaces folded lines.
pub open spec fn folded_note(prefix: Seq<char>, remaining: nat) -> Seq<char> {
    prefix + "... "@ + decimal(remaining) + " more lines folded"@
}

/// `body_rows` of the first `limit` logical lines (all of them when there
/// is no limit), then a note counting the lines left out.
pub open spec fn folded_rows(
    ls: Seq<Seq<char>>,
    fp: Seq<char>,
    cp: Seq<char>,
    fw: nat,
    cw: nat,
    limit: Option<usize>,
) -> Seq<Seq<char>> {
    let lim: nat = match limit {
        Some(l) => l as nat,
        None => ls.len(),
    };
    if lim >= ls.len() {
        body_rows(ls, fp, cp, fw, cw)
    } else {
        body_rows(ls.take(lim as int), fp, cp, fw, cw).push(
            folded_note(if lim == 0 { fp } else { cp }, (ls.len() - lim) as nat),
        )
    }
}

fn push_row(rows: &mut Vec<Vec<char>>, prefix: &str, seg: &[char])
    ensures
        views(final(rows)@) == views(old(rows)@).push(prefix@ + seg@),
{
    let mut row = chars_of(prefix);
    extend_chars(&mut row, seg);
    let ghost before = rows@;
    rows.push(row);
    assert(views(rows@) =~= views(before).push(prefix@ + seg@));
}

fn wrapped_body_rows(
    ls: &Vec<Vec<char>>,
    width: u16,
    first_prefix: &str,
    continuation_prefix: &str,
    logical_line_limit: Option<usize>,
) -> (r: Vec<Vec<char>>)
    ensures
        views(r@) == folded_rows(
            views(ls@),
            first_prefix@,
            continuation_prefix@,
            lane(width, first_prefix@),
            lane(width, continuation_prefix@),
            logical_line_limit,
        ),
{
    let first_width = lane_width(width, first_prefix);
    let continuation_width = lane_width(width, continuation_prefix);
    let ghost lsv = views(ls@);
    let ghost fp = first_prefix@;
    let ghost cp = continuation_prefix@;
    let ghost fw = first_width as nat;
    let ghost cw = continuation_width as nat;
    let total = ls.len();
    let limit = match logical_line_limit {
        Some(l) => l,
        None => total,
    };
    let mut rows: Vec<Vec<char>> = Vec::new();
    let mut first_visual_line = true;
    let mut i: usize = 0;
    while i < total
        invariant
            total == ls@.len(),
            views(ls@) == lsv,
            i <= total,
            first_visual_line == (i == 0),
            i <= limit,
            views(rows@) == body_rows(lsv.take(i as int), fp, cp, fw, cw),
            fw == lane(width, fp),
            cw == lane(width, cp),
            first_width == fw,
            continuation_width == cw,
            fp == first_prefix@,
            cp == continuation_prefix@,
            limit == match logical_line_limit {
                Some(l) => l,
                None => total,
            },
        decreases total - i,
    {
        if i >= limit {
            let prefix = if first_visual_line {
                first_prefix
            } else {
                continuation_prefix
            };
            let mut note: Vec<char> = Vec::new();
            push_str(&mut note, "... ");
            push_decimal(&mut note, total - limit);
            push_str(&mut note, " more lines folded");
            push_row(&mut rows, prefix, note.as_slice());
            proof {
                assert(lsv.take(i as int) =~= lsv.take(limit as int));
                assert(prefix@ + note@ =~= folded_note(prefix@, (total - limit) as nat));
            }
            return rows;
        }
        let ghost before = views(rows@);
        let line = string_of(ls[i].as_slice());
        assert(lsv[i as int] == ls@[i as int]@);
        let wrapped = wrap_token_safe_with_first_and_subsequent_widths(
            line.as_str(),
            if first_visual_line {
                first_width
            } else {
                continuation_width
            },
            continuation_width,
        );
        let ghost segs = strings(wrapped@);
        let p1 = if first_visual_line {
            first_prefix
        } else {
            continuation_prefix
        };
        if wrapped.len() == 0 {
            let empty: Vec<char> = Vec::new();
            push_row(&mut rows, p1, empty.as_slice());
            assert(p1@ + empty@ =~= p1@);
            assert(views(rows@) =~= before + prefixed(segs, p1@, cp));
        } else {
            let mut j: usize = 0;
            while j < wrapped.len()
                invariant
                    j <= wrapped@.len(),
                    segs == strings(wrapped@),
                    segs.len() > 0,
                    views(rows@) == before + prefixed(segs, p1@, cp).take(j as int),
                    cp == continuation_prefix@,
                decreases wrapped.len() - j,
            {
                let pj = if j == 0 {
                    p1
                } else {
                    continuation_prefix
                };
                let seg = chars_of(wrapped[j].as_str());
                push_row(&mut rows, pj, seg.as_slice());
                assert(segs[j as int] == wrapped@[j as int]@);
                assert(prefixed(segs, p1@, cp).take((j + 1) as int) =~= prefixed(segs, p1@, cp).take(j as int).push(
                    pj@ + seg@,
                ));
                j += 1;
            }
            assert(prefixed(segs, p1@, cp).take(j as int) =~= prefixed(segs, p1@, cp));
        }
        proof {
            let t1 = lsv.take((i + 1) as int);
            assert(t1.drop_last() =~= lsv.take(i as int));
            assert(t1.last() == lsv[i as int]);
            if i == 0 {
                assert(t1.len() == 1);
                assert(t1[0] == lsv[0]);
                assert(before =~= Seq::<Seq<char>>::empty());
                assert(views(rows@) =~= prefixed(segs, p1@, cp));
            }
        }
        first_visual_line = false;
        i += 1;
    }
    proof {
        assert(lsv.take(i as int) =~= lsv);
    }
    rows
}

fn push_rows(out: &mut Vec<char>, rows: &Vec<Vec<char>>)
    ensures
        final(out)@ == old(out)@ + row_text(views(rows@)),
{
    let ghost start = out@;
    let mut i: usize = 0;
    while i < rows.len()
        invariant
            i <= rows.len(),
            out@ == start + row_text(views(rows@).take(i as int)),
        decreases rows.len() - i,
    {
        assert(views(rows@).take((i + 1) as int).drop_last() =~= views(rows@).take(i as int));
        assert(views(rows@)[i as int] == rows@[i as int]@);
        extend_chars(out, rows[i].as_slice());
        out.push('\n');
        assert(out@ =~= start + row_text(views(rows@).take((i + 1) as int)));
        i += 1;
    }
    assert(views(rows@).take(i as int) =~= views(rows@));
}

/// Appends `body`, wrapped and prefixed, one row per line.
pub fn append_wrapped_body(
    out: &mut String,
    body: &str,
    width: u16,
    first_prefix: &str,
    continuation_prefix: &str,
    logical_line_limit: Option<usize>,
)
    ensures
        final(out)@ == old(out)@ + row_text(
            folded_rows(
                split_on(body@, '\n'),
                first_prefix@,
                continuation_prefix@,
                lane(width, first_prefix@),
                lane(width, continuation_prefix@),
                logical_line_limit,
            ),
        ),
{
    let ls = split_chars(chars_of(body).as_slice(), '\n');
    let rows = wrapped_body_rows(&ls, width, first_prefix, continuation_prefix, logical_line_limit);
    let mut text: Vec<char> = chars_of(out.as_str());
    push_rows(&mut text, &rows);
    *out = string_of(text.as_slice());
}

// ---------------------------------------------------------------- blocks

/// `s` without its trailing line feeds (`trim_end_matches('\n')`).
pub open spec fn trim_newlines(s: Seq<char>) -> Seq<char>
    decreases s.len(),
{
    if s.len() > 0 && s.last() == '\n' {
        trim_newlines(s.drop_last())
    } else {
        s
    }
}

pub(crate) fn trim_newlines_chars(s: &[char]) -> (r: Vec<char>)
    ensures
        r@ == trim_newlines(s@),
{
    let mut j = s.len();
    assert(s@.take(j as int) =~= s@);
    while j > 0 && s[j - 1] == '\n'
        invariant
            j <= s.len(),
            trim_newlines(s@) == trim_newlines(s@.take(j as int)),
        decreases j,
    {
        assert(s@.take(j as int).drop_last() =~= s@.take(j - 1));
        j -= 1;
    }
    assert(s@.take(j as int) =~= s@.subrange(0, j as int));
    slice_chars(s, 0, j)
}

/// A block: a blank line, a separator titled `title`, then the body with
/// trailing line feeds removed, wrapped behind `prefix` (continuation rows
/// indented by two spaces).
pub open spec fn block_text(title: Seq<char>, body: Seq<char>, width: u16, prefix: Option<Seq<char>>) -> Seq<char> {
    let head = seq!['\n'] + separator_line(title, width) + seq!['\n'];
    let b = trim_newlines(body);
    if b.len() == 0 {
        head
    } else {
        let fp = match prefix {
            Some(p) => p,
            None => Seq::empty(),
        };
        head + row_text(folded_rows(split_on(b, '\n'), fp, "  "@, lane(width, fp), lane(width, "  "@), None))
    }
}

/// A titled block of text.
pub fn format_block(title: &str, body: &str, width: u16, prefix: Option<&str>) -> (r: String)
    ensures
        r@ == block_text(
            title@,
            body@,
            width,
            match prefix {
                Some(p) => Some(p@),
                None => None,
            },
        ),
{
    let mut out: Vec<char> = Vec::new();
    out.push('\n');
    let sep = separator_chars(chars_of(title).as_slice(), width);
    extend_chars(&mut out, sep.as_slice());
    out.push('\n');
    let b = trim_newlines_chars(chars_of(body).as_slice());
    if b.len() == 0 {
        assert(out@ =~= seq!['\n'] + separator_line(title@, width) + seq!['\n']);
        return string_of(out.as_slice());
    }
    let fp = match prefix {
        Some(p) => p,
        None => "",
    };
    proof {
        reveal_strlit("");
    }
    let ls = split_chars(b.as_slice(), '\n');
    let ghost fpv: Seq<char> = match prefix {
        Some(p) => p@,
        None => Seq::empty(),
    };
    assert(fp@ == fpv);
    let rows = wrapped_body_rows(&ls, width, fp, "  ", None);
    let ghost head = out@;
    push_rows(&mut out, &rows);
    assert(head =~= seq!['\n'] + separator_line(title@, width) + seq!['\n']);
    assert(b@ == trim_newlines(body@));
    assert(views(rows@) == folded_rows(split_on(b@, '\n'), fpv, "  "@, lane(width, fpv), lane(width, "  "@), None));
    string_of(out.as_slice())
}

/// `kind`, or `kind: title` when the title is not empty.
pub open spec fn titled(kind: Seq<char>, title: Seq<char>) -> Seq<char> {
    if title.len() == 0 {
        kind
    } else {
        kind + ": "@ + title
    }
}

/// `kind`, or `kind: title` when the title is not empty.
pub fn block_title(kind: &str, title: &str) -> (r: String)
    ensures
        r@ == titled(kind@, title@),
{
    let t = chars_of(title);
    let mut out = chars_of(kind);
    if t.len() > 0 {
        push_str(&mut out, ": ");
        extend_chars(&mut out, t.as_slice());
    }
    string_of(out.as_slice())
}

/// A tool result as shown in scrollback: at most six lines, then a note
/// counting the lines left out.
pub open spec fn tool_result_preview(body: Seq<char>) -> Seq<char> {
    let b = trim_newlines(body);
    let ls = lines(b);
    if ls.len() <= 6 {
        b
    } else {
        join(ls.take(6), seq!['\n']) + "\n... "@ + decimal((ls.len() - 6) as nat) + " more lines folded\n"@
    }
}

/// The body of a tool result, folded after six lines.
pub fn rendered_tool_result_body(item: &TranscriptItem) -> (r: String)
    ensures
        r@ == tool_result_preview(item.body@),
{
    let b = trim_newlines_chars(chars_of(item.body.as_str()).as_slice());
    let ls = lines_of(b.as_slice());
    if ls.len() <= TOOL_RESULT_PREVIEW_LINE_LIMIT {
        return string_of(b.as_slice());
    }
    let mut head: Vec<Vec<char>> = Vec::new();
    let mut i: usize = 0;
    while i < TOOL_RESULT_PREVIEW_LINE_LIMIT
        invariant
            i <= TOOL_RESULT_PREVIEW_LINE_LIMIT,
            TOOL_RESULT_PREVIEW_LINE_LIMIT < ls@.len(),
            views(head@) == views(ls@).take(i as int),
        decreases TOOL_RESULT_PREVIEW_LINE_LIMIT - i,
    {
        let ghost before = head@;
        head.push(copy_chars(&ls[i]));
        proof {
            crate::text::lemma_views_push(before, head@.last());
            assert(views(ls@)[i as int] == ls@[i as int]@);
            assert(views(head@) =~= views(ls@).take((i + 1) as int));
        }
        i += 1;
    }
    let nl: Vec<char> = vec!['\n'];
    let mut out = join_chars(&head, nl.as_slice());
    push_str(&mut out, "\n... ");
    push_decimal(&mut out, ls.len() - TOOL_RESULT_PREVIEW_LINE_LIMIT);
    push_str(&mut out, " more lines folded\n");
    assert(nl@ =~= seq!['\n']);
    string_of(out.as_slice())
}

/// The title and first-row prefix under which an item of `kind` is shown.
pub open spec fn item_head(kind: TranscriptItemKind, title: Seq<char>) -> (Seq<char>, Option<Seq<char>>) {
    match kind {
        TranscriptItemKind::User => ("user"@, Some("> "@)),
        TranscriptItemKind::Assistant => ("assistant"@, Some("assistant> "@)),
        TranscriptItemKind::Reasoning => (titled("reasoning"@, trim(title)), None),
        TranscriptItemKind::ToolCall => ("tool: "@ + trim(title), Some("tool> "@)),
        TranscriptItemKind::ToolResult => ("tool output"@, None),
        TranscriptItemKind::Error => (titled("error"@, trim(title)), None),
        TranscriptItemKind::System => (titled("system"@, trim(title)), None),
        TranscriptItemKind::ApprovalPrompt => (titled("approval"@, trim(title)), None),
        TranscriptItemKind::ApprovalResolution => (titled("approval"@, trim(title)), None),
    }
}

/// An item as a scrollback block: tool results folded, everything else
/// shown whole.
pub open spec fn item_text(kind: TranscriptItemKind, title: Seq<char>, body: Seq<char>, width: u16) -> Seq<char> {
    let (t, prefix) = item_head(kind, title);
    let b = if kind == TranscriptItemKind::ToolResult {
        tool_result_preview(body)
    } else {
        body
    };
    block_text(t, b, width, prefix)
}

fn trimmed_title(item: &TranscriptItem) -> (r: String)
    ensures
        r@ == trim(item.title@),
{
    string_of(trim_chars(chars_of(item.title.as_str()).as_slice()).as_slice())
}

/// A transcript item as a block of scrollback text.
pub fn format_item(width: u16, item: &TranscriptItem) -> (r: String)
    ensures
        r@ == item_text(item.kind, item.title@, item.body@, width),
{
    match item.kind {
        TranscriptItemKind::User => format_block("user", item.body.as_str(), width, Some("> ")),
        TranscriptItemKind::Assistant => format_block("assistant", item.body.as_str(), width, Some("assistant> ")),
        TranscriptItemKind::Reasoning => {
            let t = block_title("reasoning", trimmed_title(item).as_str());
            format_block(t.as_str(), item.body.as_str(), width, None)
        },
        TranscriptItemKind::ToolCall => {
            let mut t = chars_of("tool: ");
            extend_chars(&mut t, chars_of(trimmed_title(item).as_str()).as_slice());
            let t = string_of(t.as_slice());
            format_block(t.as_str(), item.body.as_str(), width, Some("tool> "))
        },
        TranscriptItemKind::ToolResult => {
            let body = rendered_tool_result_body(item);
            format_block("tool output", body.as_str(), width, None)
        },
        TranscriptItemKind::Error => {
            let t = block_title("error", trimmed_title(item).as_str());
            format_block(t.as_str(), item.body.as_str(), width, None)
        },
        TranscriptItemKind::System => {
            let t = block_title("system", trimmed_title(item).as_str());
            format_block(t.as_str(), item.body.as_str(), width, None)
        },
        TranscriptItemKind::ApprovalPrompt => {
            let t = block_title("approval", trimmed_title(item).as_str());
            format_block(t.as_str(), item.body.as_str(), width, None)
        },
        TranscriptItemKind::ApprovalResolution => {
            let t = block_title("approval", trimmed_title(item).as_str());
            format_block(t.as_str(), item.body.as_str(), width, None)
        },
    }
}

/// The blocks of `items`, one after another.
pub open spec fn history_text(items: Seq<TranscriptItem>, width: u16) -> Seq<char>
    decreases items.len(),
{
    if items.len() == 0 {
        Seq::empty()
    } else {
        let last = items.last();
        history_text(items.drop_last(), width) + item_text(last.kind, last.title@, last.body@, width)
    }
}

/// A whole session's transcript as scrollback text.
pub fn format_session_history(width: u16, items: &[TranscriptItem]) -> (r: String)
    ensures
        r@ == history_text(items@, width),
{
    let mut out: Vec<char> = Vec::new();
    let mut i: usize = 0;
    while i < items.len()
        invariant
            i <= items.len(),
            out@ == history_text(items@.take(i as int), width),
        decreases items.len() - i,
    {
        assert(items@.take((i + 1) as int).drop_last() =~= items@.take(i as int));
        let block = format_item(width, &items[i]);
        push_str(&mut out, block.as_str());
        i += 1;
    }
    assert(items@.take(i as int) =~= items@);
    string_of(out.as_slice())
}

/// The echo of a shell command typed at the prompt.
pub fn format_shell_command_echo(command: &str) -> (r: String)
    ensures
        r@ == "\n› "@ + command@ + "\n"@,
{
    let mut out = chars_of("\n› ");
    push_str(&mut out, command);
    push_str(&mut out, "\n");
    string_of(out.as_slice())
}

/// A chunk of streamed assistant text: with the header, a blank line and a
/// separator first; the first row behind `assistant> ` (or two spaces
/// without the header), later rows behind two spaces.
pub open spec fn stream_chunk_text(width: u16, ls: Seq<Seq<char>>, include_header: bool) -> Seq<char> {
    let head = if include_header {
        seq!['\n'] + separator_line("assistant"@, width) + seq!['\n']
    } else {
        Seq::empty()
    };
    let fp = assistant_prefix(include_header);
    head + row_text(body_rows(ls, fp, "  "@, lane(width, fp), lane(width, "  "@)))
}

/// Formats a chunk of streamed assistant lines.
pub fn format_assistant_stream_chunk(width: u16, lines: &[String], include_header: bool) -> (r: String)
    ensures
        r@ == stream_chunk_text(width, strings(lines@), include_header),
{
    let mut out: Vec<char> = Vec::new();
    if include_header {
        out.push('\n');
        let sep = separator_chars(chars_of("assistant").as_slice(), width);
        extend_chars(&mut out, sep.as_slice());
        out.push('\n');
    }
    let ghost head = out@;
    let first_prefix = if include_header {
        "assistant> "
    } else {
        "  "
    };
    let mut logical: Vec<Vec<char>> = Vec::new();
    let mut i: usize = 0;
    while i < lines.len()
        invariant
            i <= lines.len(),
            views(logical@) == strings(lines@).take(i as int),
        decreases lines.len() - i,
    {
        let ghost before = logical@;
        logical.push(chars_of(lines[i].as_str()));
        proof {
            crate::text::lemma_views_push(before, logical@.last());
            assert(strings(lines@)[i as int] == lines@[i as int]@);
            assert(views(logical@) =~= strings(lines@).take((i + 1) as int));
        }
        i += 1;
    }
    assert(strings(lines@).take(i as int) =~= strings(lines@));
    if lines.len() == 0 {
        assert(out@ =~= stream_chunk_text(width, strings(lines@), include_header));
        return string_of(out.as_slice());
    }
    let rows = wrapped_body_rows(&logical, width, first_prefix, "  ", None);
    push_rows(&mut out, &rows);
    string_of(out.as_slice())
}

// ---------------------------------------------------------------- welcome

/// The lines that `textwrap::wrap` makes of `text` at `width` columns with
/// words never broken.
pub uninterp spec fn wrap_columns(text: Seq<char>, width: nat) -> Seq<Seq<char>>;

/// `s` without its trailing spaces.
pub open spec fn trim_end_spaces(s: Seq<char>) -> Seq<char>
    decreases s.len(),
{
    if s.len() > 0 && s.last() == ' ' {
        trim_end_spaces(s.drop_last())
    } else {
        s
    }
}

/// `textwrap::wrap(text, Options::new(width).break_words(false))`, each line
/// owned. The result is what textwrap computes from the text and the width
/// alone; a text without line feeds that is shorter than `width` bytes comes
/// back as one line, its trailing spaces removed (the fast path of
/// `wrap_single_line`).
#[verifier::external_body]
pub(crate) fn wrap_text(text: &str, width: usize) -> (r: Vec<String>)
    requires
        width >= 1,
    ensures
        strings(r@) == wrap_columns(text@, width as nat),
        !text@.contains('\n') && byte_len(text@) < width ==> strings(r@) == seq![trim_end_spaces(text@)],
{
    let wrapped = textwrap::wrap(text, textwrap::Options::new(width).break_words(false));
    let mut out = Vec::new();
    for line in wrapped {
        out.push(line.into_owned());
    }
    out
}

/// `n` copies of `c`.
pub open spec fn repeated(c: char, n: nat) -> Seq<char> {
    Seq::new(n, |i: int| c)
}

/// `s` padded with spaces to `n` characters (`{:<n$}`).
pub open spec fn pad_right(s: Seq<char>, n: nat) -> Seq<char> {
    if s.len() < n {
        s + repeated(' ', (n - s.len()) as nat)
    } else {
        s
    }
}

/// Each segment padded to `iw` characters between box walls, one per line.
pub open spec fn boxed(segs: Seq<Seq<char>>, iw: nat) -> Seq<char>
    decreases segs.len(),
{
    if segs.len() == 0 {
        Seq::empty()
    } else {
        boxed(segs.drop_last(), iw) + "│"@ + pad_right(segs.last(), iw) + "│\n"@
    }
}

/// `text` wrapped to the inside of a box `iw` columns wide, each row between
/// the box walls; nothing to wrap gives one blank row.
pub open spec fn box_rows(text: Seq<char>, iw: nat) -> Seq<char> {
    let segs = wrap_columns(text, at_least_one(iw));
    if segs.len() == 0 {
        "│"@ + repeated(' ', iw) + "│\n"@
    } else {
        boxed(segs, iw)
    }
}

fn push_repeated(out: &mut Vec<char>, c: char, n: usize)
    ensures
        final(out)@ == old(out)@ + repeated(c, n as nat),
{
    let ghost start = out@;
    let mut k: usize = 0;
    while k < n
        invariant
            k <= n,
            out@ == start + repeated(c, k as nat),
        decreases n - k,
    {
        out.push(c);
        k += 1;
        assert(out@ =~= start + repeated(c, k as nat));
    }
}

fn push_box_line(out: &mut Vec<char>, text: &str, inner_width: usize)
    ensures
        final(out)@ == old(out)@ + box_rows(text@, inner_width as nat),
{
    let content_width = if inner_width > 1 {
        inner_width
    } else {
        1
    };
    let wrapped = wrap_text(text, content_width);
    let ghost segs = strings(wrapped@);
    if wrapped.len() == 0 {
        push_str(out, "│");
        push_repeated(out, ' ', inner_width);
        push_str(out, "│\n");
        return;
    }
    let ghost start = out@;
    let mut i: usize = 0;
    while i < wrapped.len()
        invariant
            i <= wrapped.len(),
            segs == strings(wrapped@),
            out@ == start + boxed(segs.take(i as int), inner_width as nat),
        decreases wrapped.len() - i,
    {
        assert(segs.take((i + 1) as int).drop_last() =~= segs.take(i as int));
        assert(segs[i as int] == wrapped@[i as int]@);
        let seg = chars_of(wrapped[i].as_str());
        push_str(out, "│");
        extend_chars(out, seg.as_slice());
        if seg.len() < inner_width {
            push_repeated(out, ' ', inner_width - seg.len());
        }
        push_str(out, "│\n");
        assert(out@ =~= start + boxed(segs.take((i + 1) as int), inner_width as nat));
        i += 1;
    }
    assert(segs.take(i as int) =~= segs);
}

/// Appends `text` wrapped inside a box `inner_width` columns wide.
pub fn append_box_line(out: &mut String, text: &str, inner_width: usize)
    ensures
        final(out)@ == old(out)@ + box_rows(text@, inner_width as nat),
{
    let mut v = chars_of(out.as_str());
    push_box_line(&mut v, text, inner_width);
    *out = string_of(v.as_slice());
}

/// The top edge of a box.
pub open spec fn box_top_text(iw: nat) -> Seq<char> {
    "╭"@ + repeated('─', iw) + "╮"@
}

/// The bottom edge of a box.
pub open spec fn box_bottom_text(iw: nat) -> Seq<char> {
    "╰"@ + repeated('─', iw) + "╯"@
}

/// A blank row of a box.
pub open spec fn box_blank_text(iw: nat) -> Seq<char> {
    "│"@ + repeated(' ', iw) + "│"@
}

/// The top edge of a box `inner_width` columns wide.
pub fn box_top(inner_width: usize) -> (r: String)
    ensures
        r@ == box_top_text(inner_width as nat),
{
    let mut v = chars_of("╭");
    push_repeated(&mut v, '─', inner_width);
    push_str(&mut v, "╮");
    string_of(v.as_slice())
}

/// The bottom edge of a box `inner_width` columns wide.
pub fn box_bottom(inner_width: usize) -> (r: String)
    ensures
        r@ == box_bottom_text(inner_width as nat),
{
    let mut v = chars_of("╰");
    push_repeated(&mut v, '─', inner_width);
    push_str(&mut v, "╯");
    string_of(v.as_slice())
}

/// A blank row of a box `inner_width` columns wide.
pub fn box_blank_line(inner_width: usize) -> (r: String)
    ensures
        r@ == box_blank_text(inner_width as nat),
{
    let mut v = chars_of("│");
    push_repeated(&mut v, ' ', inner_width);
    push_str(&mut v, "│");
    string_of(v.as_slice())
}

/// The logo shown at start-up.
pub const LAUNCHPAD_LOGO: &'static str = r"  _                            _                   _
 | |    __ _ _   _ _ __   ___| |__  _ __   __ _  __| |
 | |   / _` | | | | '_ \ / __| '_ \| '_ \ / _` |/ _` |
 | |__| (_| | |_| | | | | (__| | | | |_) | (_| | (_| |
 |_____\__,_|\__,_|_| |_|\___|_| |_| .__/ \__,_|\__,_|
                                   |_|   A G E N T";

/// The quick-start tips under the welcome box.
pub const WELCOME_TIPS: &'static str = "  Get started
    ❯ /configure   pick a provider (OpenRouter, OpenAI, Ollama, …)
    ❯ /model       switch between saved models
    ❯ /config      show the active config.toml
    ❯ /reasoning   toggle inline model reasoning
    ❯ /skills      browse available skills
    ❯ /exit        quit

  Or just type a message to begin.
";

/// The tagline in the welcome box.
pub const WELCOME_TAGLINE: &'static str = "Any model. Any terminal.";

/// `path` shown from the home directory: `~` for the home directory itself,
/// `~/rest` below it, else the path unchanged.
pub open spec fn home_relative(path: Seq<char>, home: Option<Seq<char>>) -> Seq<char> {
    match home {
        None => path,
        Some(h) => match stripped(path, h) {
            None => path,
            Some(rest) => if rest.len() == 0 {
                "~"@
            } else {
                "~/"@ + join(rest, seq!['/'])
            },
        },
    }
}

/// `cwd` shown relative to the home directory `home`, when it has one.
pub fn abbreviate_cwd(cwd: &str, home: Option<&str>) -> (r: String)
    ensures
        r@ == home_relative(
            cwd@,
            match home {
                Some(h) => Some(h@),
                None => None,
            },
        ),
{
    let h = match home {
        Some(h) => h,
        None => {
            return cwd.to_owned();
        },
    };
    match strip_path_prefix(cwd, h) {
        None => cwd.to_owned(),
        Some(rest) => {
            if rest.len() == 0 {
                "~".to_owned()
            } else {
                let mut out = chars_of("~/");
                let sep: Vec<char> = vec!['/'];
                let joined = join_chars(&rest, sep.as_slice());
                assert(sep@ =~= seq!['/']);
                extend_chars(&mut out, joined.as_slice());
                string_of(out.as_slice())
            }
        },
    }
}

/// Width inside the welcome box: two less than the screen, kept within
/// 56 to 76 columns.
pub open spec fn banner_width(width: u16) -> nat {
    let w: nat = if width > 2 {
        (width - 2) as nat
    } else {
        0
    };
    if w < 56 {
        56
    } else if w > 76 {
        76
    } else {
        w
    }
}

/// The box rows of the logo lines, each indented by three spaces.
pub open spec fn logo_rows(ls: Seq<Seq<char>>, iw: nat) -> Seq<char>
    decreases ls.len(),
{
    if ls.len() == 0 {
        Seq::empty()
    } else {
        logo_rows(ls.drop_last(), iw) + box_rows("   "@ + ls.last(), iw)
    }
}

/// The tagline row: the tagline, then the version tag at least three
/// spaces later, right-aligned in the box where it fits.
pub open spec fn tagline_text(version: Seq<char>, iw: nat) -> Seq<char> {
    let tag = "v"@ + version;
    let used = WELCOME_TAGLINE@.len() + tag.len() + 5;
    let padding: nat = if iw > used {
        (iw - used) as nat
    } else {
        0
    };
    "   "@ + WELCOME_TAGLINE@ + repeated(' ', if padding > 3 { padding } else { 3 }) + tag
}

/// The welcome screen: the boxed logo and tagline, the model and directory,
/// and the quick-start tips.
pub open spec fn welcome_text(model: Seq<char>, directory: Seq<char>, version: Seq<char>, width: u16) -> Seq<char> {
    let iw = banner_width(width);
    box_top_text(iw) + "\n"@ + box_blank_text(iw) + "\n"@ + logo_rows(lines(LAUNCHPAD_LOGO@), iw) + box_rows(
        ""@,
        iw,
    ) + box_rows(tagline_text(version, iw), iw) + box_blank_text(iw) + "\n"@ + box_bottom_text(iw) + "\n\n"@
        + "  ◆  model       "@ + model + "\n"@ + "  ◆  directory   "@ + directory + "\n\n"@ + WELCOME_TIPS@
}

/// The branded welcome screen shown at start-up, for the current model,
/// working directory (shown from `home`) and version.
pub fn format_welcome_banner(model: &str, cwd: &str, home: Option<&str>, version: &str, width: u16) -> (r: String)
    ensures
        r@ == welcome_text(
            model@,
            home_relative(
                cwd@,
                match home {
                    Some(h) => Some(h@),
                    None => None,
                },
            ),
            version@,
            width,
        ),
{
    let w: u16 = if width > 2 {
        width - 2
    } else {
        0
    };
    let inner_width: usize = if w < 56 {
        56
    } else if w > 76 {
        76
    } else {
        w as usize
    };
    let ghost iw = inner_width as nat;
    let mut out: Vec<char> = Vec::new();
    push_str(&mut out, box_top(inner_width).as_str());
    push_str(&mut out, "\n");
    push_str(&mut out, box_blank_line(inner_width).as_str());
    push_str(&mut out, "\n");
    let ghost head = out@;
    let logo = lines_of(chars_of(LAUNCHPAD_LOGO).as_slice());
    let ghost ls = lines(LAUNCHPAD_LOGO@);
    let mut i: usize = 0;
    while i < logo.len()
        invariant
            i <= logo.len(),
            views(logo@) == ls,
            out@ == head + logo_rows(ls.take(i as int), iw),
            iw == inner_width,
        decreases logo.len() - i,
    {
        assert(ls.take((i + 1) as int).drop_last() =~= ls.take(i as int));
        assert(ls[i as int] == logo@[i as int]@);
        let mut row = chars_of("   ");
        extend_chars(&mut row, logo[i].as_slice());
        let row = string_of(row.as_slice());
        push_box_line(&mut out, row.as_str(), inner_width);
        i += 1;
    }
    assert(ls.take(i as int) =~= ls);
    push_box_line(&mut out, "", inner_width);
    let tagline = chars_of(WELCOME_TAGLINE);
    let mut tag = chars_of("v");
    push_str(&mut tag, version);
    let used: u128 = tagline.len() as u128 + tag.len() as u128 + 5;
    let padding: usize = if (inner_width as u128) > used {
        (inner_width as u128 - used) as usize
    } else {
        0
    };
    let mut row = chars_of("   ");
    extend_chars(&mut row, tagline.as_slice());
    push_repeated(&mut row, ' ', if padding > 3 {
        padding
    } else {
        3
    });
    extend_chars(&mut row, tag.as_slice());
    assert(row@ == tagline_text(version@, iw));
    push_box_line(&mut out, string_of(row.as_slice()).as_str(), inner_width);
    push_str(&mut out, box_blank_line(inner_width).as_str());
    push_str(&mut out, "\n");
    push_str(&mut out, box_bottom(inner_width).as_str());
    push_str(&mut out, "\n\n");
    push_str(&mut out, "  ◆  model       ");
    push_str(&mut out, model);
    push_str(&mut out, "\n");
    push_str(&mut out, "  ◆  directory   ");
    push_str(&mut out, abbreviate_cwd(cwd, home).as_str());
    push_str(&mut out, "\n\n");
    push_str(&mut out, WELCOME_TIPS);
    string_of(out.as_slice())
}

} // verus!
