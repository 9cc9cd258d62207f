//! Styled rows of the transcript view: which text goes on which row, and in
//! which style role.
use vstd::prelude::*;

use crate::text::{
    chars_eq, chars_of, extend_chars, has_prefix, join, join_chars, lines, lines_of, slice_chars,
    split_chars, split_on, starts_with, string_of, strings, trim, trim_chars, trim_start,
    trim_start_chars, views,
};
use crate::tui::transcript::{
    lane, lane_width, push_str, trim_newlines, trim_newlines_chars, wrap_columns, wrap_text,
    TranscriptItem, TranscriptItemKind,
};

verus! {

/// The role a piece of text plays, which the theme turns into colors.
#[derive(Clone, Copy, Debug, PartialEq, Eq, Structural)]
pub enum StyleRole {
    Plain,
    Bold,
    Prompt,
    Muted,
    Dim,
    Accent,
    AccentBright,
    AccentDim,
    UserBubblePrefix,
    UserBubbleBody,
    UserBubbleFill,
    PanelTitle,
    Interrupted,
    Prefix(TranscriptItemKind),
    Title(TranscriptItemKind),
    Body(TranscriptItemKind),
}

/// A piece of text in one style.
#[derive(Clone, Debug, PartialEq, Eq)]
pub struct Span {
    pub text: String,
    pub style: StyleRole,
}

/// A span as text and role.
pub open spec fn span_view(s: Span) -> (Seq<char>, StyleRole) {
    (s.text@, s.style)
}

/// A row as its spans' texts and roles.
pub open spec fn row_view(l: Seq<Span>) -> Seq<(Seq<char>, StyleRole)> {
    l.map_values(|s: Span| span_view(s))
}

/// Rows as their spans' texts and roles.
pub open spec fn rows_view(ls: Seq<Vec<Span>>) -> Seq<Seq<(Seq<char>, StyleRole)>> {
    ls.map_values(|l: Vec<Span>| row_view(l@))
}

/// A span of `text` in `style`.
pub fn span(text: &str, style: StyleRole) -> (r: Span)
    ensures
        span_view(r) == (text@, style),
{
    Span { text: text.to_owned(), style }
}

fn push_row(rows: &mut Vec<Vec<Span>>, row: Vec<Span>)
    ensures
        rows_view(final(rows)@) == rows_view(old(rows)@).push(row_view(row@)),
{
    let ghost before = rows@;
    rows.push(row);
    assert(rows_view(rows@) =~= rows_view(before).push(row_view(row@)));
}

fn row1(a: Span) -> (r: Vec<Span>)
    ensures
        row_view(r@) == seq![span_view(a)],
{
    let r = vec![a];
    assert(row_view(r@) =~= seq![span_view(r@[0])]);
    r
}

fn row2(a: Span, b: Span) -> (r: Vec<Span>)
    ensures
        row_view(r@) == seq![span_view(a), span_view(b)],
{
    let r = vec![a, b];
    assert(row_view(r@) =~= seq![span_view(r@[0]), span_view(r@[1])]);
    r
}

fn row3(a: Span, b: Span, c: Span) -> (r: Vec<Span>)
    ensures
        row_view(r@) == seq![span_view(a), span_view(b), span_view(c)],
{
    let r = vec![a, b, c];
    assert(row_view(r@) =~= seq![span_view(r@[0]), span_view(r@[1]), span_view(r@[2])]);
    r
}

fn row4(a: Span, b: Span, c: Span, d: Span) -> (r: Vec<Span>)
    ensures
        row_view(r@) == seq![span_view(a), span_view(b), span_view(c), span_view(d)],
{
    let r = vec![a, b, c, d];
    assert(row_view(r@) =~= seq![span_view(r@[0]), span_view(r@[1]), span_view(r@[2]), span_view(r@[3])]);
    r
}

// ---------------------------------------------------------------- bodies

/// The first position of `c` in `s`.
pub open spec fn first_index(s: Seq<char>, c: char) -> Option<int>
    decreases s.len(),
{
    if s.len() == 0 {
        None
    } else if s[0] == c {
        Some(0)
    } else {
        match first_index(s.drop_first(), c) {
            Some(i) => Some(i + 1),
            None => None,
        }
    }
}

/// A tool-call title such as `bash: ls -la` split into the tool's name and
/// the rest, both trimmed; without a `:` the whole title is the name.
pub open spec fn tool_call_parts(title: Seq<char>) -> (Seq<char>, Seq<char>) {
    match first_index(title, ':') {
        Some(i) => (trim(title.take(i)), trim(title.skip(i + 1))),
        None => (trim(title), Seq::empty()),
    }
}

/// Splits a tool-call title into the tool's name and the rest.
pub fn split_tool_call_title(title: &str) -> (r: (String, String))
    ensures
        (r.0@, r.1@) == tool_call_parts(title@),
{
    let t = chars_of(title);
    let mut i: usize = 0;
    assert(t@.skip(0) =~= t@);
    while i < t.len() && t[i] != ':'
        invariant
            i <= t.len(),
            t@ == title@,
            first_index(title@, ':') == match first_index(t@.skip(i as int), ':') {
                Some(k) => Some(k + i),
                None => None,
            },
        decreases t.len() - i,
    {
        assert(t@.skip(i as int).drop_first() =~= t@.skip(i + 1));
        i += 1;
    }
    if i < t.len() {
        assert(t@.skip(i as int)[0] == ':');
        let name = trim_chars(slice_chars(t.as_slice(), 0, i).as_slice());
        let rest = trim_chars(slice_chars(t.as_slice(), i + 1, t.len()).as_slice());
        assert(t@.subrange(0, i as int) =~= t@.take(i as int));
        assert(t@.subrange(i + 1, t@.len() as int) =~= t@.skip(i + 1));
        (string_of(name.as_slice()), string_of(rest.as_slice()))
    } else {
        assert(t@.skip(i as int).len() == 0);
        (string_of(trim_chars(t.as_slice()).as_slice()), String::new())
    }
}

/// Tool output folded to `max_lines` lines with `...` under them, when it
/// has more; shorter output is shown whole without trailing line feeds.
pub open spec fn folded_output(body: Seq<char>, max_lines: nat) -> Seq<char> {
    let ls = lines(body);
    if ls.len() == 0 {
        Seq::empty()
    } else if ls.len() <= max_lines {
        trim_newlines(body)
    } else {
        join(ls.take(max_lines as int), seq!['\n']) + "\n..."@
    }
}

/// Folds tool output to at most `max_lines` lines.
pub fn fold_tool_output(body: &str, max_lines: usize) -> (r: String)
    ensures
        r@ == folded_output(body@, max_lines as nat),
{
    let b = chars_of(body);
    let ls = lines_of(b.as_slice());
    if ls.len() == 0 {
        return String::new();
    }
    if ls.len() <= max_lines {
        return string_of(trim_newlines_chars(b.as_slice()).as_slice());
    }
    let mut head: Vec<Vec<char>> = Vec::new();
    let mut i: usize = 0;
    while i < max_lines
        invariant
            i <= max_lines,
            max_lines < ls@.len(),
            views(head@) == views(ls@).take(i as int),
        decreases max_lines - i,
    {
        let ghost before = head@;
        let line = crate::text::copy_chars(&ls[i]);
        head.push(line);
        proof {
            crate::text::lemma_views_push(before, line);
            assert(views(ls@)[i as int] == ls@[i as int]@);
            assert(views(head@) =~= views(ls@).take((i + 1) as int));
        }
        i += 1;
    }
    let nl: Vec<char> = vec!['\n'];
    assert(nl@ =~= seq!['\n']);
    let mut out = join_chars(&head, nl.as_slice());
    push_str(&mut out, "\n...");
    string_of(out.as_slice())
}

/// The body shown for an item: a tool result by its fold stage (whole,
/// four lines, one line, then nothing); any other item whole, without
/// trailing line feeds.
pub open spec fn shown_body(kind: TranscriptItemKind, body: Seq<char>, fold_stage: u8) -> Seq<char> {
    if kind == TranscriptItemKind::ToolResult {
        if fold_stage == 0 {
            trim_newlines(body)
        } else if fold_stage == 1 {
            folded_output(body, 4)
        } else if fold_stage == 2 {
            folded_output(body, 1)
        } else {
            Seq::empty()
        }
    } else {
        trim_newlines(body)
    }
}

/// The body shown for an item, by its kind and fold stage.
pub fn rendered_transcript_body(item: &TranscriptItem) -> (r: String)
    ensures
        r@ == shown_body(item.kind, item.body@, item.fold_stage),
{
    let whole = || -> (s: String)
        ensures
            s@ == trim_newlines(item.body@),
        { string_of(trim_newlines_chars(chars_of(item.body.as_str()).as_slice()).as_slice()) };
    match item.kind {
        TranscriptItemKind::ToolResult => {
            if item.fold_stage == 0 {
                whole()
            } else if item.fold_stage == 1 {
                fold_tool_output(item.body.as_str(), 4)
            } else if item.fold_stage == 2 {
                fold_tool_output(item.body.as_str(), 1)
            } else {
                String::new()
            }
        },
        _ => whole(),
    }
}

// ---------------------------------------------------------------- wrapped

/// The kind whose prefix style a first-row prefix takes.
pub open spec fn prefix_kind(first_prefix: Seq<char>) -> TranscriptItemKind {
    if first_prefix == "> "@ {
        TranscriptItemKind::User
    } else if first_prefix == "• "@ {
        TranscriptItemKind::Assistant
    } else if first_prefix == "  └ "@ {
        TranscriptItemKind::ToolResult
    } else {
        TranscriptItemKind::System
    }
}

/// Wrapped segments as rows: the prefix (first, then continuation) in the
/// prefix style, then the segment in `style`; no segment gives a row
/// holding only the prefix.
pub open spec fn segment_rows(
    segs: Seq<Seq<char>>,
    first: Seq<char>,
    rest: Seq<char>,
    prefix_style: StyleRole,
    style: StyleRole,
) -> Seq<Seq<(Seq<char>, StyleRole)>> {
    if segs.len() == 0 {
        seq![seq![(first, prefix_style)]]
    } else {
        Seq::new(
            segs.len(),
            |i: int| seq![(if i == 0 { first } else { rest }, prefix_style), (segs[i], style)],
        )
    }
}

/// Rows of logical lines: the first wrapped at `fw` behind `fp` then `cp`,
/// the others wrapped at `cw` behind `cp`.
pub open spec fn styled_line_rows(
    ls: Seq<Seq<char>>,
    fp: Seq<char>,
    cp: Seq<char>,
    fw: nat,
    cw: nat,
    prefix_style: StyleRole,
    style: StyleRole,
) -> Seq<Seq<(Seq<char>, StyleRole)>>
    decreases ls.len(),
{
    if ls.len() == 0 {
        Seq::empty()
    } else if ls.len() == 1 {
        segment_rows(wrap_columns(ls[0], fw), fp, cp, prefix_style, style)
    } else {
        styled_line_rows(ls.drop_last(), fp, cp, fw, cw, prefix_style, style) + segment_rows(
            wrap_columns(ls.last(), cw),
            cp,
            cp,
            prefix_style,
            style,
        )
    }
}

/// `text` wrapped behind its prefixes, each logical line wrapped on its own;
/// empty text gives one row holding the first prefix.
pub open spec fn styled_text_rows(
    text: Seq<char>,
    first_prefix: Seq<char>,
    continuation_prefix: Seq<char>,
    width: u16,
    style: StyleRole,
) -> Seq<Seq<(Seq<char>, StyleRole)>> {
    let prefix_style = StyleRole::Prefix(prefix_kind(first_prefix));
    if text.len() == 0 {
        seq![seq![(first_prefix, prefix_style)]]
    } else {
        styled_line_rows(
            split_on(text, '\n'),
            first_prefix,
            continuation_prefix,
            lane(width, first_prefix),
            lane(width, continuation_prefix),
            prefix_style,
            style,
        )
    }
}

fn append_segments(
    rows: &mut Vec<Vec<Span>>,
    segs: &Vec<String>,
    first: &str,
    rest: &str,
    prefix_style: StyleRole,
    style: StyleRole,
)
    ensures
        rows_view(final(rows)@) == rows_view(old(rows)@) + segment_rows(
            strings(segs@),
            first@,
            rest@,
            prefix_style,
            style,
        ),
{
    let ghost start = rows_view(rows@);
    let ghost sv = strings(segs@);
    if segs.len() == 0 {
        push_row(rows, row1(span(first, prefix_style)));
        return;
    }
    let mut i: usize = 0;
    while i < segs.len()
        invariant
            i <= segs.len(),
            segs@.len() > 0,
            sv == strings(segs@),
            rows_view(rows@) == start + segment_rows(sv, first@, rest@, prefix_style, style).take(i as int),
        decreases segs.len() - i,
    {
        let p = if i == 0 {
            first
        } else {
            rest
        };
        push_row(rows, row2(span(p, prefix_style), span(segs[i].as_str(), style)));
        assert(sv[i as int] == segs@[i as int]@);
        assert(segment_rows(sv, first@, rest@, prefix_style, style).take((i + 1) as int) =~= segment_rows(
            sv,
            first@,
            rest@,
            prefix_style,
            style,
        ).take(i as int).push(seq![(p@, prefix_style), (segs@[i as int]@, style)]));
        i += 1;
    }
    assert(segment_rows(sv, first@, rest@, prefix_style, style).take(i as int) =~= segment_rows(
        sv,
        first@,
        rest@,
        prefix_style,
        style,
    ));
}

fn prefix_style_of(first_prefix: &str) -> (r: StyleRole)
    ensures
        r == StyleRole::Prefix(prefix_kind(first_prefix@)),
{
    let p = chars_of(first_prefix);
    let kind = if chars_eq(p.as_slice(), chars_of("> ").as_slice()) {
        TranscriptItemKind::User
    } else if chars_eq(p.as_slice(), chars_of("• ").as_slice()) {
        TranscriptItemKind::Assistant
    } else if chars_eq(p.as_slice(), chars_of("  └ ").as_slice()) {
        TranscriptItemKind::ToolResult
    } else {
        TranscriptItemKind::System
    };
    StyleRole::Prefix(kind)
}

/// Appends `text` wrapped behind a first and a continuation prefix.
pub fn append_wrapped_styled_text(
    rows: &mut Vec<Vec<Span>>,
    text: &str,
    first_prefix: &str,
    continuation_prefix: &str,
    inner_width: u16,
    style: StyleRole,
)
    ensures
        rows_view(final(rows)@) == rows_view(old(rows)@) + styled_text_rows(
            text@,
            first_prefix@,
            continuation_prefix@,
            inner_width,
            style,
        ),
{
    let prefix_style = prefix_style_of(first_prefix);
    let t = chars_of(text);
    if t.len() == 0 {
        push_row(rows, row1(span(first_prefix, prefix_style)));
        return;
    }
    let first_width = lane_width(inner_width, first_prefix);
    let continuation_width = lane_width(inner_width, continuation_prefix);
    let ls = split_chars(t.as_slice(), '\n');
    let ghost lsv = views(ls@);
    let ghost fw = first_width as nat;
    let ghost cw = continuation_width as nat;
    let ghost start = rows_view(rows@);
    let mut i: usize = 0;
    while i < ls.len()
        invariant
            i <= ls.len(),
            lsv == views(ls@),
            fw == first_width,
            cw == continuation_width,
            first_width >= 1,
            continuation_width >= 1,
            rows_view(rows@) == start + styled_line_rows(
                lsv.take(i as int),
                first_prefix@,
                continuation_prefix@,
                fw,
                cw,
                prefix_style,
                style,
            ),
        decreases ls.len() - i,
    {
        let line = string_of(ls[i].as_slice());
        assert(lsv[i as int] == ls@[i as int]@);
        let width = if i == 0 {
            first_width
        } else {
            continuation_width
        };
        let segs = wrap_text(line.as_str(), width);
        let p = if i == 0 {
            first_prefix
        } else {
            continuation_prefix
        };
        let ghost before = rows_view(rows@);
        append_segments(rows, &segs, p, continuation_prefix, prefix_style, style);
        proof {
            let t1 = lsv.take((i + 1) as int);
            assert(t1.drop_last() =~= lsv.take(i as int));
            assert(t1.last() == lsv[i as int]);
            if i == 0 {
                assert(t1.len() == 1);
                assert(t1[0] == lsv[0]);
                assert(lsv.take(0) =~= Seq::<Seq<char>>::empty());
                assert(before =~= start);
            }
            assert(rows_view(rows@) =~= start + styled_line_rows(
                t1,
                first_prefix@,
                continuation_prefix@,
                fw,
                cw,
                prefix_style,
                style,
            ));
        }
        i += 1;
    }
    assert(lsv.take(i as int) =~= lsv);
}

/// The prefix of an item's title row.
pub open spec fn title_prefix(kind: TranscriptItemKind) -> Seq<char> {
    match kind {
        TranscriptItemKind::Error => "✕ "@,
        TranscriptItemKind::ApprovalPrompt => "◆ "@,
        TranscriptItemKind::ApprovalResolution => "◇ "@,
        _ => "· "@,
    }
}

/// Rows of a wrapped title: a prefix by kind, then two spaces.
pub open spec fn title_rows(title: Seq<char>, kind: TranscriptItemKind, width: u16) -> Seq<Seq<(Seq<char>, StyleRole)>> {
    let p = title_prefix(kind);
    let segs = wrap_columns(title, lane(width, p));
    Seq::new(
        segs.len(),
        |i: int| seq![(if i == 0 { p } else { "  "@ }, StyleRole::Prefix(kind)), (segs[i], StyleRole::Title(kind))],
    )
}

fn title_prefix_str(kind: TranscriptItemKind) -> (r: &'static str)
    ensures
        r@ == title_prefix(kind),
{
    match kind {
        TranscriptItemKind::Error => "✕ ",
        TranscriptItemKind::ApprovalPrompt => "◆ ",
        TranscriptItemKind::ApprovalResolution => "◇ ",
        _ => "· ",
    }
}

/// Appends an item's title, wrapped.
pub fn append_wrapped_title(rows: &mut Vec<Vec<Span>>, title: &str, kind: TranscriptItemKind, inner_width: u16)
    ensures
        rows_view(final(rows)@) == rows_view(old(rows)@) + title_rows(title@, kind, inner_width),
{
    let p = title_prefix_str(kind);
    let segs = wrap_text(title, lane_width(inner_width, p));
    let ghost sv = strings(segs@);
    let ghost start = rows_view(rows@);
    let ghost expected = title_rows(title@, kind, inner_width);
    let mut i: usize = 0;
    while i < segs.len()
        invariant
            i <= segs.len(),
            sv == strings(segs@),
            sv == wrap_columns(title@, lane(inner_width, p@)),
            p@ == title_prefix(kind),
            expected == title_rows(title@, kind, inner_width),
            rows_view(rows@) == start + expected.take(i as int),
        decreases segs.len() - i,
    {
        let q = if i == 0 {
            p
        } else {
            "  "
        };
        push_row(rows, row2(span(q, StyleRole::Prefix(kind)), span(segs[i].as_str(), StyleRole::Title(kind))));
        assert(sv[i as int] == segs@[i as int]@);
        assert(expected.take((i + 1) as int) =~= expected.take(i as int).push(
            seq![(q@, StyleRole::Prefix(kind)), (segs@[i as int]@, StyleRole::Title(kind))],
        ));
        i += 1;
    }
    assert(expected.take(i as int) =~= expected);
}

/// The rows of a tool call's title: `◇ ` and the tool's name, then the rest
/// of the call; the first row shows the name in the title style when it
/// begins with it.
pub open spec fn tool_call_rows(title: Seq<char>, width: u16) -> Seq<Seq<(Seq<char>, StyleRole)>> {
    let (name, rest) = tool_call_parts(title);
    let combined = if rest.len() == 0 {
        name
    } else {
        name + "  "@ + rest
    };
    let segs = wrap_columns(combined, lane(width, "◇ "@));
    let k = TranscriptItemKind::ToolCall;
    Seq::new(
        segs.len(),
        |i: int|
            if i == 0 && rest.len() > 0 && starts_with(segs[0], name) {
                seq![
                    ("◇ "@, StyleRole::Prefix(k)),
                    (name, StyleRole::Title(k)),
                    ("  "@, StyleRole::Plain),
                    (trim_start(segs[0].skip(name.len() as int)), StyleRole::Body(k)),
                ]
            } else {
                seq![(if i == 0 { "◇ "@ } else { "  "@ }, StyleRole::Prefix(k)), (segs[i], StyleRole::Body(k))]
            },
    )
}

/// Appends a tool call's title.
pub fn append_tool_call_title(rows: &mut Vec<Vec<Span>>, title: &str, inner_width: u16)
    ensures
        rows_view(final(rows)@) == rows_view(old(rows)@) + tool_call_rows(title@, inner_width),
{
    let (name, rest) = split_tool_call_title(title);
    let rest_len = chars_of(rest.as_str()).len();
    let combined = if rest_len == 0 {
        string_of(chars_of(name.as_str()).as_slice())
    } else {
        let mut c = chars_of(name.as_str());
        push_str(&mut c, "  ");
        extend_chars(&mut c, chars_of(rest.as_str()).as_slice());
        string_of(c.as_slice())
    };
    let segs = wrap_text(combined.as_str(), lane_width(inner_width, "◇ "));
    let ghost sv = strings(segs@);
    let ghost start = rows_view(rows@);
    let ghost expected = tool_call_rows(title@, inner_width);
    let k = TranscriptItemKind::ToolCall;
    let name_chars = chars_of(name.as_str());
    let mut i: usize = 0;
    while i < segs.len()
        invariant
            i <= segs.len(),
            sv == strings(segs@),
            sv == wrap_columns(combined@, lane(inner_width, "◇ "@)),
            (name@, rest@) == tool_call_parts(title@),
            combined@ == (if rest@.len() == 0 { name@ } else { name@ + "  "@ + rest@ }),
            name_chars@ == name@,
            rest_len == rest@.len(),
            k == TranscriptItemKind::ToolCall,
            expected == tool_call_rows(title@, inner_width),
            rows_view(rows@) == start + expected.take(i as int),
        decreases segs.len() - i,
    {
        let seg = chars_of(segs[i].as_str());
        assert(sv[i as int] == segs@[i as int]@);
        if i == 0 && rest_len > 0 && has_prefix(seg.as_slice(), name_chars.as_slice()) {
            let remainder = trim_start_chars(slice_chars(seg.as_slice(), name_chars.len(), seg.len()).as_slice());
            assert(seg@.subrange(name_chars@.len() as int, seg@.len() as int) =~= seg@.skip(name@.len() as int));
            push_row(
                rows,
                row4(
                    span("◇ ", StyleRole::Prefix(k)),
                    span(name.as_str(), StyleRole::Title(k)),
                    span("  ", StyleRole::Plain),
                    span(string_of(remainder.as_slice()).as_str(), StyleRole::Body(k)),
                ),
            );
        } else {
            let q = if i == 0 {
                "◇ "
            } else {
                "  "
            };
            push_row(rows, row2(span(q, StyleRole::Prefix(k)), span(segs[i].as_str(), StyleRole::Body(k))));
        }
        assert(expected.take((i + 1) as int) =~= expected.take(i as int).push(expected[i as int]));
        i += 1;
    }
    assert(expected.take(i as int) =~= expected);
}

/// The rows of a tool result: its title (unless empty or the generic
/// `Tool output`) under a tree branch, then its shown body.
pub open spec fn tool_result_rows(
    title: Seq<char>,
    body: Seq<char>,
    fold_stage: u8,
    width: u16,
) -> Seq<Seq<(Seq<char>, StyleRole)>> {
    let shown = shown_body(TranscriptItemKind::ToolResult, body, fold_stage);
    let k = TranscriptItemKind::ToolResult;
    if shown.len() == 0 && title.len() == 0 {
        Seq::empty()
    } else {
        let head: Seq<Seq<(Seq<char>, StyleRole)>> = if title.len() > 0 && title != "Tool output"@ {
            seq![seq![("  └ "@, StyleRole::Prefix(k)), (title, StyleRole::Title(k))]]
        } else {
            Seq::empty()
        };
        if shown.len() == 0 {
            head
        } else {
            head + styled_text_rows(shown, "  └ "@, "    "@, width, StyleRole::Body(k))
        }
    }
}

/// Appends a tool result under the call it answers.
pub fn append_tool_result(rows: &mut Vec<Vec<Span>>, item: &TranscriptItem, inner_width: u16)
    requires
        item.kind == TranscriptItemKind::ToolResult,
    ensures
        rows_view(final(rows)@) == rows_view(old(rows)@) + tool_result_rows(
            item.title@,
            item.body@,
            item.fold_stage,
            inner_width,
        ),
{
    let body = rendered_transcript_body(item);
    let k = TranscriptItemKind::ToolResult;
    let title = chars_of(item.title.as_str());
    let ghost start = rows_view(rows@);
    let body_chars = chars_of(body.as_str());
    if body_chars.len() == 0 && title.len() == 0 {
        assert(rows_view(rows@) =~= start + Seq::<Seq<(Seq<char>, StyleRole)>>::empty());
        return;
    }
    if title.len() > 0 && !chars_eq(title.as_slice(), chars_of("Tool output").as_slice()) {
        push_row(rows, row2(span("  └ ", StyleRole::Prefix(k)), span(item.title.as_str(), StyleRole::Title(k))));
    }
    if chars_of(body.as_str()).len() == 0 {
        return;
    }
    append_wrapped_styled_text(rows, body.as_str(), "  └ ", "    ", inner_width, StyleRole::Body(k));
}

/// The rows of an item's body under a tree branch, unless it shows nothing.
pub open spec fn body_rows_of(kind: TranscriptItemKind, body: Seq<char>, fold_stage: u8, width: u16) -> Seq<
    Seq<(Seq<char>, StyleRole)>,
> {
    let shown = shown_body(kind, body, fold_stage);
    if shown.len() == 0 {
        Seq::empty()
    } else {
        styled_text_rows(shown, "  └ "@, "    "@, width, StyleRole::Body(kind))
    }
}

/// Appends an item's body under a tree branch.
pub fn append_transcript_body(rows: &mut Vec<Vec<Span>>, item: &TranscriptItem, inner_width: u16)
    ensures
        rows_view(final(rows)@) == rows_view(old(rows)@) + body_rows_of(
            item.kind,
            item.body@,
            item.fold_stage,
            inner_width,
        ),
{
    let body = rendered_transcript_body(item);
    if chars_of(body.as_str()).len() == 0 {
        assert(rows_view(rows@) =~= rows_view(rows@) + Seq::<Seq<(Seq<char>, StyleRole)>>::empty());
        return;
    }
    append_wrapped_styled_text(rows, body.as_str(), "  └ ", "    ", inner_width, StyleRole::Body(item.kind));
}

// ---------------------------------------------------------------- items

/// The number of terminal columns `text` takes.
pub uninterp spec fn display_width(text: Seq<char>) -> nat;

/// `unicode_width::UnicodeWidthStr::width`: the columns a string takes on a
/// terminal, by the Unicode width tables.
#[verifier::external_body]
fn text_width(text: &str) -> (r: usize)
    ensures
        r == display_width(text@),
{
    unicode_width::UnicodeWidthStr::width(text)
}

/// `n` spaces.
pub open spec fn spaces(n: nat) -> Seq<char> {
    Seq::new(n, |i: int| ' ')
}

/// The rows of a user message: its wrapped lines behind `❯ ` (then two
/// spaces), each filled with spaces to the full width.
pub open spec fn user_bubble_rows(body: Seq<char>, width: u16) -> Seq<Seq<(Seq<char>, StyleRole)>> {
    let b = trim_newlines(body);
    let cw: nat = if width > 2 {
        (width - 2) as nat
    } else {
        1
    };
    let segs = wrap_columns(b, cw);
    if b.len() == 0 {
        Seq::empty()
    } else {
        Seq::new(
            segs.len(),
            |i: int|
                {
                    let used = 2 + display_width(segs[i]);
                    let fill: nat = if width > used {
                        (width - used) as nat
                    } else {
                        0
                    };
                    seq![
                        (if i == 0 { "❯ "@ } else { "  "@ }, StyleRole::UserBubblePrefix),
                        (segs[i], StyleRole::UserBubbleBody),
                        (spaces(fill), StyleRole::UserBubbleFill),
                    ]
                },
        )
    }
}

fn spaces_string(n: usize) -> (r: String)
    ensures
        r@ == spaces(n as nat),
{
    let mut v: Vec<char> = Vec::new();
    let mut k: usize = 0;
    while k < n
        invariant
            k <= n,
            v@ == spaces(k as nat),
        decreases n - k,
    {
        v.push(' ');
        k += 1;
        assert(v@ =~= spaces(k as nat));
    }
    string_of(v.as_slice())
}

/// Appends a user message as a filled bubble.
pub fn append_user_bubble(rows: &mut Vec<Vec<Span>>, item: &TranscriptItem, inner_width: u16)
    ensures
        rows_view(final(rows)@) == rows_view(old(rows)@) + user_bubble_rows(item.body@, inner_width),
{
    let b = trim_newlines_chars(chars_of(item.body.as_str()).as_slice());
    let ghost start = rows_view(rows@);
    if b.len() == 0 {
        assert(rows_view(rows@) =~= start + Seq::<Seq<(Seq<char>, StyleRole)>>::empty());
        return;
    }
    let content_width: usize = if inner_width > 2 {
        (inner_width - 2) as usize
    } else {
        1
    };
    let body = string_of(b.as_slice());
    let segs = wrap_text(body.as_str(), content_width);
    let ghost sv = strings(segs@);
    let ghost expected = user_bubble_rows(item.body@, inner_width);
    let mut i: usize = 0;
    while i < segs.len()
        invariant
            i <= segs.len(),
            sv == strings(segs@),
            sv == wrap_columns(trim_newlines(item.body@), content_width as nat),
            trim_newlines(item.body@).len() > 0,
            content_width == (if inner_width > 2 { (inner_width - 2) as nat } else { 1nat }),
            expected == user_bubble_rows(item.body@, inner_width),
            rows_view(rows@) == start + expected.take(i as int),
        decreases segs.len() - i,
    {
        let w = text_width(segs[i].as_str());
        let used: u128 = 2 + w as u128;
        let fill: usize = if (inner_width as u128) > used {
            (inner_width as u128 - used) as usize
        } else {
            0
        };
        let p = if i == 0 {
            "❯ "
        } else {
            "  "
        };
        push_row(
            rows,
            row3(
                span(p, StyleRole::UserBubblePrefix),
                span(segs[i].as_str(), StyleRole::UserBubbleBody),
                span(spaces_string(fill).as_str(), StyleRole::UserBubbleFill),
            ),
        );
        assert(sv[i as int] == segs@[i as int]@);
        assert(expected.take((i + 1) as int) =~= expected.take(i as int).push(expected[i as int]));
        i += 1;
    }
    assert(expected.take(i as int) =~= expected);
}

/// The placeholder of a folded reasoning item: how many characters it
/// holds, or that thinking goes on.
pub open spec fn reasoning_label(body: Seq<char>) -> Seq<char> {
    if body.len() == 0 {
        "thinking…"@
    } else {
        "thought ("@ + crate::text::decimal(body.len()) + " chars) — /reasoning to show"@
    }
}

/// The frames of the thinking spinner.
pub open spec fn spinner_frame(index: nat) -> Seq<char> {
    let k = index % 6;
    if k == 0 {
        "⠋"@
    } else if k == 1 {
        "⠙"@
    } else if k == 2 {
        "⠹"@
    } else if k == 3 {
        "⠸"@
    } else if k == 4 {
        "⠴"@
    } else {
        "⠦"@
    }
}

fn spinner_str(index: usize) -> (r: &'static str)
    ensures
        r@ == spinner_frame(index as nat),
{
    let k = index % 6;
    if k == 0 {
        "⠋"
    } else if k == 1 {
        "⠙"
    } else if k == 2 {
        "⠹"
    } else if k == 3 {
        "⠸"
    } else if k == 4 {
        "⠴"
    } else {
        "⠦"
    }
}

/// The first position at which `p` occurs in `s`.
pub open spec fn find_text(s: Seq<char>, p: Seq<char>) -> Option<int>
    decreases s.len(),
{
    if starts_with(s, p) {
        Some(0)
    } else if s.len() == 0 {
        None
    } else {
        match find_text(s.drop_first(), p) {
            Some(i) => Some(i + 1),
            None => None,
        }
    }
}

/// Where `p` is found, it fits in `s` and is there.
pub proof fn lemma_find_text_fits(s: Seq<char>, p: Seq<char>)
    ensures
        match find_text(s, p) {
            Some(i) => 0 <= i && i + p.len() <= s.len() && s.subrange(i, i + p.len()) == p,
            None => true,
        },
    decreases s.len(),
{
    if starts_with(s, p) {
        assert(s.subrange(0, p.len() as int) =~= s.take(p.len() as int));
    } else if s.len() > 0 {
        lemma_find_text_fits(s.drop_first(), p);
        match find_text(s.drop_first(), p) {
            Some(i) => {
                assert(s.subrange(i + 1, i + 1 + p.len()) =~= s.drop_first().subrange(i, i + p.len()));
            },
            None => {},
        }
    }
}

pub(crate) fn find_chars(s: &[char], p: &[char]) -> (r: Option<usize>)
    ensures
        match r {
            Some(i) => find_text(s@, p@) == Some(i as int) && i <= s.len(),
            None => find_text(s@, p@) is None,
        },
{
    let mut i: usize = 0;
    assert(s@.skip(0) =~= s@);
    while i <= s.len()
        invariant
            i <= s.len() + 1,
            find_text(s@, p@) == if i <= s.len() {
                match find_text(s@.skip(i as int), p@) {
                    Some(k) => Some(k + i),
                    None => None,
                }
            } else {
                None
            },
        decreases s.len() + 1 - i,
    {
        let rest = slice_chars(s, i, s.len());
        assert(s@.subrange(i as int, s@.len() as int) =~= s@.skip(i as int));
        if has_prefix(rest.as_slice(), p) {
            return Some(i);
        }
        if i == s.len() {
            return None;
        }
        assert(s@.skip(i as int).drop_first() =~= s@.skip(i + 1));
        i += 1;
    }
    None
}

/// How a row of the welcome text is styled: box edges in the dim accent,
/// box rows between dim walls with the logo brightened, the context rows'
/// diamonds and the quick-start heading and bullets in the accent, the
/// rest muted.
pub open spec fn welcome_spans(raw: Seq<char>) -> Seq<(Seq<char>, StyleRole)> {
    if raw.len() > 0 && (raw[0] == '╭' || raw[0] == '╰') {
        seq![(raw, StyleRole::AccentDim)]
    } else if raw.len() > 0 && raw[0] == '│' {
        let inner0 = raw.drop_first();
        let inner = if inner0.len() > 0 && inner0.last() == '│' {
            inner0.drop_last()
        } else {
            inner0
        };
        let logo = find_text(inner, "__"@) is Some || find_text(inner, "|_"@) is Some || find_text(
            inner,
            "A G E N T"@,
        ) is Some;
        seq![
            ("│"@, StyleRole::AccentDim),
            (inner, if logo { StyleRole::AccentBright } else { StyleRole::Title(TranscriptItemKind::Assistant) }),
            ("│"@, StyleRole::AccentDim),
        ]
    } else if starts_with(raw, "  ◆  "@) {
        seq![("  ◆  "@, StyleRole::Accent), (raw.skip(5), StyleRole::Muted)]
    } else if trim(raw) == "Get started"@ {
        seq![(raw, StyleRole::Accent)]
    } else if starts_with(raw, "    ❯ "@) {
        let rest = raw.skip(6);
        let head = seq![("    "@, StyleRole::Plain), ("❯ "@, StyleRole::Accent)];
        match find_text(rest, "   "@) {
            Some(i) => head + seq![
                (rest.take(i), StyleRole::Title(TranscriptItemKind::Assistant)),
                (rest.skip(i), StyleRole::Muted),
            ],
            None => head + seq![(rest, StyleRole::Title(TranscriptItemKind::Assistant))],
        }
    } else {
        seq![(raw, StyleRole::Muted)]
    }
}

fn contains_str(s: &[char], p: &str) -> (r: bool)
    ensures
        r == (find_text(s@, p@) is Some),
{
    find_chars(s, chars_of(p).as_slice()).is_some()
}

/// Styles one row of the welcome text.
pub fn style_welcome_line(raw: &str) -> (r: Vec<Span>)
    ensures
        row_view(r@) == welcome_spans(raw@),
{
    let c = chars_of(raw);
    if c.len() > 0 && (c[0] == '╭' || c[0] == '╰') {
        return row1(span(raw, StyleRole::AccentDim));
    }
    if c.len() > 0 && c[0] == '│' {
        let mut inner = slice_chars(c.as_slice(), 1, c.len());
        assert(c@.subrange(1, c@.len() as int) =~= c@.drop_first());
        if inner.len() > 0 && inner[inner.len() - 1] == '│' {
            inner = slice_chars(inner.as_slice(), 0, inner.len() - 1);
        }
        let logo = contains_str(inner.as_slice(), "__") || contains_str(inner.as_slice(), "|_") || contains_str(
            inner.as_slice(),
            "A G E N T",
        );
        let style = if logo {
            StyleRole::AccentBright
        } else {
            StyleRole::Title(TranscriptItemKind::Assistant)
        };
        return row3(
            span("│", StyleRole::AccentDim),
            span(string_of(inner.as_slice()).as_str(), style),
            span("│", StyleRole::AccentDim),
        );
    }
    proof {
        reveal_strlit("  ◆  ");
        reveal_strlit("    ❯ ");
    }
    let diamond = chars_of("  ◆  ");
    if has_prefix(c.as_slice(), diamond.as_slice()) {
        let rest = slice_chars(c.as_slice(), 5, c.len());
        assert(c@.subrange(5, c@.len() as int) =~= c@.skip(5));
        return row2(span("  ◆  ", StyleRole::Accent), span(string_of(rest.as_slice()).as_str(), StyleRole::Muted));
    }
    if chars_eq(trim_chars(c.as_slice()).as_slice(), chars_of("Get started").as_slice()) {
        return row1(span(raw, StyleRole::Accent));
    }
    let bullet = chars_of("    ❯ ");
    if has_prefix(c.as_slice(), bullet.as_slice()) {
        let rest = slice_chars(c.as_slice(), 6, c.len());
        assert(c@.subrange(6, c@.len() as int) =~= c@.skip(6));
        let mut r: Vec<Span> = row2(span("    ", StyleRole::Plain), span("❯ ", StyleRole::Accent));
        let ghost head = row_view(r@);
        match find_chars(rest.as_slice(), chars_of("   ").as_slice()) {
            Some(i) => {
                let cmd = slice_chars(rest.as_slice(), 0, i);
                let desc = slice_chars(rest.as_slice(), i, rest.len());
                assert(rest@.subrange(0, i as int) =~= rest@.take(i as int));
                assert(rest@.subrange(i as int, rest@.len() as int) =~= rest@.skip(i as int));
                r.push(span(string_of(cmd.as_slice()).as_str(), StyleRole::Title(TranscriptItemKind::Assistant)));
                r.push(span(string_of(desc.as_slice()).as_str(), StyleRole::Muted));
            },
            None => {
                r.push(span(string_of(rest.as_slice()).as_str(), StyleRole::Title(TranscriptItemKind::Assistant)));
            },
        }
        assert(row_view(r@) =~= welcome_spans(raw@));
        return r;
    }
    row1(span(raw, StyleRole::Muted))
}

/// The welcome text's rows, each styled by its shape.
pub open spec fn welcome_rows(body: Seq<char>) -> Seq<Seq<(Seq<char>, StyleRole)>> {
    lines(body).map_values(|l: Seq<char>| welcome_spans(l))
}

/// Appends the welcome text, styled row by row.
pub fn append_welcome_banner(rows: &mut Vec<Vec<Span>>, item: &TranscriptItem, _inner_width: u16)
    ensures
        rows_view(final(rows)@) == rows_view(old(rows)@) + welcome_rows(item.body@),
{
    let ls = lines_of(chars_of(item.body.as_str()).as_slice());
    let ghost expected = welcome_rows(item.body@);
    let ghost start = rows_view(rows@);
    let mut i: usize = 0;
    while i < ls.len()
        invariant
            i <= ls.len(),
            views(ls@) == lines(item.body@),
            expected == welcome_rows(item.body@),
            rows_view(rows@) == start + expected.take(i as int),
        decreases ls.len() - i,
    {
        let line = string_of(ls[i].as_slice());
        assert(views(ls@)[i as int] == ls@[i as int]@);
        push_row(rows, style_welcome_line(line.as_str()));
        assert(expected.take((i + 1) as int) =~= expected.take(i as int).push(expected[i as int]));
        i += 1;
    }
    assert(expected.take(i as int) =~= expected);
}

/// The rows of an assistant message from its rendered markdown rows: a
/// bullet before the first, two spaces before the others; nothing rendered
/// gives a lone bullet.
pub open spec fn assistant_rows(markdown: Seq<Seq<(Seq<char>, StyleRole)>>) -> Seq<Seq<(Seq<char>, StyleRole)>> {
    let p = StyleRole::Prefix(TranscriptItemKind::Assistant);
    if markdown.len() == 0 {
        seq![seq![("• "@, p)]]
    } else {
        Seq::new(markdown.len(), |i: int| seq![(if i == 0 { "• "@ } else { "  "@ }, p)] + markdown[i])
    }
}

/// Appends an assistant message from its rendered markdown rows.
pub fn append_markdown_message(rows: &mut Vec<Vec<Span>>, markdown: &Vec<Vec<Span>>)
    ensures
        rows_view(final(rows)@) == rows_view(old(rows)@) + assistant_rows(rows_view(markdown@)),
{
    let p = StyleRole::Prefix(TranscriptItemKind::Assistant);
    if markdown.len() == 0 {
        push_row(rows, row1(span("• ", p)));
        return;
    }
    let ghost expected = assistant_rows(rows_view(markdown@));
    let ghost start = rows_view(rows@);
    let mut i: usize = 0;
    while i < markdown.len()
        invariant
            i <= markdown.len(),
            markdown@.len() > 0,
            p == StyleRole::Prefix(TranscriptItemKind::Assistant),
            expected == assistant_rows(rows_view(markdown@)),
            rows_view(rows@) == start + expected.take(i as int),
        decreases markdown.len() - i,
    {
        let q = if i == 0 {
            "• "
        } else {
            "  "
        };
        let mut row: Vec<Span> = row1(span(q, p));
        let mut j: usize = 0;
        while j < markdown[i].len()
            invariant
                i < markdown@.len(),
                j <= markdown@[i as int]@.len(),
                row_view(row@) == seq![(q@, p)] + row_view(markdown@[i as int]@).take(j as int),
            decreases markdown@[i as int]@.len() - j,
        {
            let ghost before = row@;
            let sp = &markdown[i][j];
            let copy = span(sp.text.as_str(), sp.style);
            row.push(copy);
            assert(span_view(copy) == span_view(markdown@[i as int]@[j as int]));
            assert(row_view(markdown@[i as int]@)[j as int] == span_view(markdown@[i as int]@[j as int]));
            assert(row_view(row@) =~= row_view(before).push(span_view(copy)));
            assert(row_view(row@) =~= seq![(q@, p)] + row_view(markdown@[i as int]@).take((j + 1) as int));
            j += 1;
        }
        assert(row_view(markdown@[i as int]@).take(j as int) =~= row_view(markdown@[i as int]@));
        push_row(rows, row);
        assert(expected.take((i + 1) as int) =~= expected.take(i as int).push(expected[i as int]));
        i += 1;
    }
    assert(expected.take(i as int) =~= expected);
}

// ---------------------------------------------------------------- transcript

/// The rows of one transcript item, given the rows its markdown rendered
/// to (used for assistant messages only).
pub open spec fn item_rows(
    item: TranscriptItem,
    markdown: Seq<Seq<(Seq<char>, StyleRole)>>,
    spinner_index: nat,
    width: u16,
    show_reasoning: bool,
) -> Seq<Seq<(Seq<char>, StyleRole)>> {
    let title = item.title@;
    let body = item.body@;
    match item.kind {
        TranscriptItemKind::User => user_bubble_rows(body, width),
        TranscriptItemKind::Assistant => assistant_rows(markdown),
        TranscriptItemKind::Reasoning => if show_reasoning {
            title_rows(title, item.kind, width) + body_rows_of(item.kind, body, item.fold_stage, width)
        } else {
            styled_text_rows(reasoning_label(body), "∙ "@, "  "@, width, StyleRole::Dim)
        },
        TranscriptItemKind::ToolCall => tool_call_rows(title, width),
        TranscriptItemKind::ToolResult => tool_result_rows(title, body, item.fold_stage, width),
        TranscriptItemKind::System => if title == "Thinking"@ {
            styled_text_rows(spinner_frame(spinner_index) + "  thinking"@, ""@, "  "@, width, StyleRole::Accent)
        } else if title == "Interrupted"@ {
            styled_text_rows("interrupted"@, "◼ "@, "  "@, width, StyleRole::Interrupted)
        } else if title == "Welcome"@ {
            welcome_rows(body)
        } else {
            title_rows(title, item.kind, width) + body_rows_of(item.kind, body, item.fold_stage, width)
        },
        _ => title_rows(title, item.kind, width) + body_rows_of(item.kind, body, item.fold_stage, width),
    }
}

fn is_title(item: &TranscriptItem, t: &str) -> (r: bool)
    ensures
        r == (item.title@ == t@),
{
    chars_eq(chars_of(item.title.as_str()).as_slice(), chars_of(t).as_slice())
}

/// Appends the rows of one transcript item.
pub fn append_transcript_item(
    rows: &mut Vec<Vec<Span>>,
    item: &TranscriptItem,
    markdown: &Vec<Vec<Span>>,
    spinner_index: usize,
    inner_width: u16,
    show_reasoning: bool,
)
    ensures
        rows_view(final(rows)@) == rows_view(old(rows)@) + item_rows(
            *item,
            rows_view(markdown@),
            spinner_index as nat,
            inner_width,
            show_reasoning,
        ),
{
    let ghost start = rows_view(rows@);
    match item.kind {
        TranscriptItemKind::User => append_user_bubble(rows, item, inner_width),
        TranscriptItemKind::Assistant => append_markdown_message(rows, markdown),
        TranscriptItemKind::Reasoning => {
            if show_reasoning {
                append_wrapped_title(rows, item.title.as_str(), item.kind, inner_width);
                let ghost mid = rows_view(rows@);
                append_transcript_body(rows, item, inner_width);
                assert(rows_view(rows@) =~= start + (mid.skip(start.len() as int) + rows_view(rows@).skip(
                    mid.len() as int,
                )));
            } else {
                let n = chars_of(item.body.as_str()).len();
                let label = if n == 0 {
                    "thinking…".to_owned()
                } else {
                    let mut v = chars_of("thought (");
                    crate::text::push_decimal(&mut v, n);
                    push_str(&mut v, " chars) — /reasoning to show");
                    string_of(v.as_slice())
                };
                append_wrapped_styled_text(rows, label.as_str(), "∙ ", "  ", inner_width, StyleRole::Dim);
            }
        },
        TranscriptItemKind::ToolCall => append_tool_call_title(rows, item.title.as_str(), inner_width),
        TranscriptItemKind::ToolResult => append_tool_result(rows, item, inner_width),
        _ => {
            if item.kind == TranscriptItemKind::System && is_title(item, "Thinking") {
                let mut v = chars_of(spinner_str(spinner_index));
                push_str(&mut v, "  thinking");
                append_wrapped_styled_text(
                    rows,
                    string_of(v.as_slice()).as_str(),
                    "",
                    "  ",
                    inner_width,
                    StyleRole::Accent,
                );
            } else if item.kind == TranscriptItemKind::System && is_title(item, "Interrupted") {
                append_wrapped_styled_text(rows, "interrupted", "◼ ", "  ", inner_width, StyleRole::Interrupted);
            } else if item.kind == TranscriptItemKind::System && is_title(item, "Welcome") {
                append_welcome_banner(rows, item, inner_width);
            } else {
                append_wrapped_title(rows, item.title.as_str(), item.kind, inner_width);
                let ghost mid = rows_view(rows@);
                append_transcript_body(rows, item, inner_width);
                assert(rows_view(rows@) =~= start + (mid.skip(start.len() as int) + rows_view(rows@).skip(
                    mid.len() as int,
                )));
            }
        },
    }
}

/// The message shown before the conversation starts.
pub open spec fn empty_transcript_text() -> Seq<char> {
    "No conversation yet. Ask Launchpad Agent to inspect code, explain behavior, or make changes."@
}

/// Whether a blank row separates an item of kind `cur` from one of kind
/// `prev` above it: around user messages, and before tool calls, errors and
/// system rows.
pub open spec fn separated(prev: TranscriptItemKind, cur: TranscriptItemKind) -> bool {
    cur == TranscriptItemKind::User || prev == TranscriptItemKind::User || cur == TranscriptItemKind::ToolCall
        || cur == TranscriptItemKind::Error || cur == TranscriptItemKind::System
}

/// The rows of the first `k` items, blank rows between them where they
/// are separated.
pub open spec fn transcript_rows_upto(
    items: Seq<TranscriptItem>,
    markdown: Seq<Seq<Seq<(Seq<char>, StyleRole)>>>,
    k: int,
    spinner_index: nat,
    width: u16,
    show_reasoning: bool,
) -> Seq<Seq<(Seq<char>, StyleRole)>>
    decreases k,
{
    if k <= 0 {
        Seq::empty()
    } else {
        let before = transcript_rows_upto(items, markdown, k - 1, spinner_index, width, show_reasoning);
        let gap: Seq<Seq<(Seq<char>, StyleRole)>> = if k > 1 && separated(items[k - 2].kind, items[k - 1].kind) {
            seq![seq![(Seq::<char>::empty(), StyleRole::Plain)]]
        } else {
            Seq::empty()
        };
        before + gap + item_rows(items[k - 1], markdown[k - 1], spinner_index, width, show_reasoning)
    }
}

/// The whole transcript view.
pub open spec fn transcript_rows(
    items: Seq<TranscriptItem>,
    markdown: Seq<Seq<Seq<(Seq<char>, StyleRole)>>>,
    spinner_index: nat,
    width: u16,
    show_reasoning: bool,
) -> Seq<Seq<(Seq<char>, StyleRole)>> {
    if items.len() == 0 {
        seq![seq![(empty_transcript_text(), StyleRole::Muted)]]
    } else {
        transcript_rows_upto(items, markdown, items.len() as int, spinner_index, width, show_reasoning)
    }
}

/// The rendered markdown rows of each item.
pub open spec fn markdown_views(markdown: Seq<Vec<Vec<Span>>>) -> Seq<Seq<Seq<(Seq<char>, StyleRole)>>> {
    markdown.map_values(|m: Vec<Vec<Span>>| rows_view(m@))
}

/// The rows of the transcript view; `markdown[i]` holds the rendered
/// markdown of item `i` (used for assistant messages).
pub fn transcript_text(
    items: &[TranscriptItem],
    markdown: &[Vec<Vec<Span>>],
    spinner_index: usize,
    inner_width: u16,
    show_reasoning: bool,
) -> (r: Vec<Vec<Span>>)
    requires
        markdown.len() == items.len(),
    ensures
        rows_view(r@) == transcript_rows(items@, markdown_views(markdown@), spinner_index as nat, inner_width, show_reasoning),
{
    let mut rows: Vec<Vec<Span>> = Vec::new();
    if items.len() == 0 {
        push_row(
            &mut rows,
            row1(
                span(
                    "No conversation yet. Ask Launchpad Agent to inspect code, explain behavior, or make changes.",
                    StyleRole::Muted,
                ),
            ),
        );
        return rows;
    }
    let ghost md = markdown_views(markdown@);
    let mut i: usize = 0;
    assert(rows_view(rows@) =~= Seq::<Seq<(Seq<char>, StyleRole)>>::empty());
    while i < items.len()
        invariant
            i <= items.len(),
            markdown.len() == items.len(),
            md == markdown_views(markdown@),
            rows_view(rows@) == transcript_rows_upto(items@, md, i as int, spinner_index as nat, inner_width, show_reasoning),
        decreases items.len() - i,
    {
        let ghost before = rows_view(rows@);
        if i > 0 {
            let prev = items[i - 1].kind;
            let cur = items[i].kind;
            if cur == TranscriptItemKind::User || prev == TranscriptItemKind::User || cur == TranscriptItemKind::ToolCall
                || cur == TranscriptItemKind::Error || cur == TranscriptItemKind::System {
                let empty = String::new();
                let blank = row1(span(empty.as_str(), StyleRole::Plain));
                assert(row_view(blank@) =~= seq![(Seq::<char>::empty(), StyleRole::Plain)]);
                push_row(&mut rows, blank);
                assert(separated(items@[i - 1].kind, items@[i as int].kind));
            } else {
                assert(!separated(items@[i - 1].kind, items@[i as int].kind));
            }
        }
        let ghost mid = rows_view(rows@);
        append_transcript_item(&mut rows, &items[i], &markdown[i], spinner_index, inner_width, show_reasoning);
        assert(md[i as int] == rows_view(markdown@[i as int]@));
        proof {
            let gap: Seq<Seq<(Seq<char>, StyleRole)>> = if i + 1 > 1 && separated(items@[i - 1].kind, items@[i as int].kind) {
                seq![seq![(Seq::<char>::empty(), StyleRole::Plain)]]
            } else {
                Seq::empty()
            };
            assert(mid =~= before + gap);
        }
        i += 1;
    }
    rows
}

/// The terminal rows that the rows take at `width` columns: each row at
/// least one, a longer row as many as wrapping it gives.
pub open spec fn row_count(rows: Seq<Seq<(Seq<char>, StyleRole)>>, width: u16) -> nat
    decreases rows.len(),
{
    if rows.len() == 0 {
        0
    } else {
        let text = row_text_of(rows.last());
        let w: nat = if width > 1 {
            width as nat
        } else {
            1
        };
        let n = wrap_columns(text, w).len();
        row_count(rows.drop_last(), width) + if text.len() == 0 {
            1
        } else if n > 1 {
            n
        } else {
            1
        }
    }
}

/// The text of a row: its spans' texts in order.
pub open spec fn row_text_of(row: Seq<(Seq<char>, StyleRole)>) -> Seq<char>
    decreases row.len(),
{
    if row.len() == 0 {
        Seq::empty()
    } else {
        row_text_of(row.drop_last()) + row.last().0
    }
}

fn row_string(row: &Vec<Span>) -> (r: String)
    ensures
        r@ == row_text_of(row_view(row@)),
{
    let mut v: Vec<char> = Vec::new();
    let mut j: usize = 0;
    while j < row.len()
        invariant
            j <= row.len(),
            v@ == row_text_of(row_view(row@).take(j as int)),
        decreases row.len() - j,
    {
        assert(row_view(row@).take((j + 1) as int).drop_last() =~= row_view(row@).take(j as int));
        push_str(&mut v, row[j].text.as_str());
        j += 1;
    }
    assert(row_view(row@).take(j as int) =~= row_view(row@));
    string_of(v.as_slice())
}

/// How many terminal rows the rows take at `width` columns.
pub fn rendered_line_count(rows: &Vec<Vec<Span>>, width: u16) -> (r: u128)
    ensures
        r == row_count(rows_view(rows@), width),
{
    let w: usize = if width > 1 {
        width as usize
    } else {
        1
    };
    let mut total: u128 = 0;
    let mut i: usize = 0;
    while i < rows.len()
        invariant
            i <= rows.len(),
            w == (if width > 1 { width as nat } else { 1nat }),
            total == row_count(rows_view(rows@).take(i as int), width),
            total <= i * 0x1_0000_0000_0000_0000,
        decreases rows.len() - i,
    {
        assert(rows_view(rows@).take((i + 1) as int).drop_last() =~= rows_view(rows@).take(i as int));
        assert(rows_view(rows@)[i as int] == row_view(rows@[i as int]@));
        let text = row_string(&rows[i]);
        let t = chars_of(text.as_str());
        let add: u128 = if t.len() == 0 {
            1
        } else {
            let segs = wrap_text(text.as_str(), w);
            let n = segs.len();
            assert(strings(segs@).len() == segs@.len());
            if n > 1 {
                n as u128
            } else {
                1
            }
        };
        total = total + add;
        i += 1;
    }
    assert(rows_view(rows@).take(i as int) =~= rows_view(rows@));
    total
}

/// How many terminal rows the transcript takes at `width` columns, as a
/// 16-bit count that wraps past its range.
pub fn line_count(rows: &Vec<Vec<Span>>, width: u16) -> (r: u16)
    ensures
        r as int == row_count(rows_view(rows@), width) as int % 0x10000,
{
    let n = rendered_line_count(rows, width);
    (n % 0x10000) as u16
}

} // verus!
