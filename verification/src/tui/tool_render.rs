//! Short, display-ready renderings of tool calls, tool output and skills.
use vstd::prelude::*;

use crate::text::{
    chars_eq, chars_of, extend_chars, join, join_chars, lines, lines_of, normalize_newlines,
    normalize_newlines_chars, normalize_ws, normalize_whitespace_chars, slice_chars, string_of,
    views,
};

verus! {

/// At most this many lines of tool output are shown.
pub const MAX_PREVIEW_LINES: usize = 8;

/// At most this many characters of tool output are shown.
pub const MAX_PREVIEW_CHARS: usize = 1200;

/// At most this many characters of a tool call's detail are shown.
pub const MAX_SUMMARY_CHARS: usize = 96;

// ---------------------------------------------------------------- output

/// `s` without leading and trailing line feeds (`trim_matches('\n')`).
pub open spec fn trim_line_feeds(s: Seq<char>) -> Seq<char>
    decreases s.len(),
{
    if s.len() > 0 && s[0] == '\n' {
        trim_line_feeds(s.drop_first())
    } else if s.len() > 0 && s.last() == '\n' {
        trim_line_feeds(s.drop_last())
    } else {
        s
    }
}

/// Tool output as displayed: line endings made `\n`, outer blank lines
/// removed.
pub open spec fn display_text(content: Seq<char>) -> Seq<char> {
    trim_line_feeds(normalize_newlines(content))
}

fn trim_line_feeds_chars(s: &[char]) -> (r: Vec<char>)
    ensures
        r@ == trim_line_feeds(s@),
{
    let mut i: usize = 0;
    let mut j: usize = s.len();
    assert(s@.subrange(0, s@.len() as int) =~= s@);
    while i < j && (s[i] == '\n' || s[j - 1] == '\n')
        invariant
            i <= j <= s.len(),
            trim_line_feeds(s@) == trim_line_feeds(s@.subrange(i as int, j as int)),
        decreases j - i,
    {
        let ghost cur = s@.subrange(i as int, j as int);
        if s[i] == '\n' {
            assert(cur.drop_first() =~= s@.subrange(i + 1, j as int));
            i += 1;
        } else {
            assert(cur.drop_last() =~= s@.subrange(i as int, j - 1));
            j -= 1;
        }
    }
    slice_chars(s, i, j)
}

/// Normalizes line endings and strips surrounding blank lines.
pub fn normalize_display_output(content: &str) -> (r: String)
    ensures
        r@ == display_text(content@),
{
    let n = normalize_newlines_chars(chars_of(content).as_slice());
    string_of(trim_line_feeds_chars(n.as_slice()).as_slice())
}

/// The lines kept from `ls[i..]`: whole lines while fewer than eight are
/// kept and fewer than 1200 characters used; a line that does not fit in the
/// characters left is cut to them and ends the preview.
pub open spec fn kept_lines(ls: Seq<Seq<char>>, i: int, acc: Seq<Seq<char>>, used: nat) -> Seq<Seq<char>>
    decreases ls.len() - i,
{
    if i < 0 || i >= ls.len() || acc.len() >= 8 || used >= 1200 {
        acc
    } else {
        let room = (1200 - used) as nat;
        let line = ls[i];
        if line.len() > room {
            acc.push(line.take(room as int))
        } else {
            kept_lines(ls, i + 1, acc.push(line), used + line.len())
        }
    }
}

/// A bounded preview of tool output: at most eight lines and 1200
/// characters, with `\n… ` marking that something was left out.
pub open spec fn output_preview(content: Seq<char>) -> Seq<char> {
    let text = display_text(content);
    let kept = kept_lines(lines(text), 0, Seq::empty(), 0);
    if kept.len() == 0 && text.len() > 0 {
        let head = text.take(if text.len() < 1200 { text.len() as int } else { 1200 });
        if head == text {
            head
        } else {
            head + "\n… "@
        }
    } else {
        let preview = join(kept, seq!['\n']);
        if preview == text {
            preview
        } else if preview.len() == 0 {
            "… "@
        } else {
            preview + "\n… "@
        }
    }
}

/// A bounded preview of tool output.
pub fn truncate_tool_output(content: &str) -> (r: String)
    ensures
        r@ == output_preview(content@),
{
    let text = trim_line_feeds_chars(normalize_newlines_chars(chars_of(content).as_slice()).as_slice());
    let ls = lines_of(text.as_slice());
    let ghost lsv = lines(text@);
    let mut kept: Vec<Vec<char>> = Vec::new();
    let mut used: usize = 0;
    let mut i: usize = 0;
    assert(views(kept@) =~= Seq::<Seq<char>>::empty());
    while i < ls.len() && kept.len() < MAX_PREVIEW_LINES && used < MAX_PREVIEW_CHARS
        invariant
            views(ls@) == lsv,
            lsv == lines(text@),
            text@ == display_text(content@),
            i <= ls.len(),
            used <= MAX_PREVIEW_CHARS,
            kept_lines(lsv, 0, Seq::empty(), 0) == kept_lines(lsv, i as int, views(kept@), used as nat),
        decreases ls.len() - i,
    {
        let room = MAX_PREVIEW_CHARS - used;
        assert(lsv[i as int] == ls@[i as int]@);
        if ls[i].len() > room {
            let cut = slice_chars(ls[i].as_slice(), 0, room);
            let ghost before = kept@;
            kept.push(cut);
            proof {
                crate::text::lemma_views_push(before, cut);
                assert(ls@[i as int]@.subrange(0, room as int) =~= ls@[i as int]@.take(room as int));
            }
            assert(kept_lines(lsv, 0, Seq::empty(), 0) == views(kept@));
            return finish_preview(&kept, &text);
        }
        used = used + ls[i].len();
        let ghost before = kept@;
        let line = crate::text::copy_chars(&ls[i]);
        kept.push(line);
        proof {
            crate::text::lemma_views_push(before, line);
        }
        i += 1;
    }
    assert(kept_lines(lsv, 0, Seq::empty(), 0) == views(kept@));
    finish_preview(&kept, &text)
}

fn finish_preview(kept: &Vec<Vec<char>>, text: &Vec<char>) -> (r: String)
    requires
        views(kept@) == kept_lines(lines(text@), 0, Seq::empty(), 0),
    ensures
        r@ == ({
            let t = text@;
            if views(kept@).len() == 0 && t.len() > 0 {
                let head = t.take(if t.len() < 1200 { t.len() as int } else { 1200 });
                if head == t {
                    head
                } else {
                    head + "\n… "@
                }
            } else {
                let preview = join(views(kept@), seq!['\n']);
                if preview == t {
                    preview
                } else if preview.len() == 0 {
                    "… "@
                } else {
                    preview + "\n… "@
                }
            }
        }),
{
    if kept.len() == 0 && text.len() > 0 {
        let n = if text.len() < MAX_PREVIEW_CHARS {
            text.len()
        } else {
            MAX_PREVIEW_CHARS
        };
        let mut head = slice_chars(text.as_slice(), 0, n);
        assert(text@.subrange(0, n as int) =~= text@.take(n as int));
        if chars_eq(head.as_slice(), text.as_slice()) {
            return string_of(head.as_slice());
        }
        extend_chars(&mut head, chars_of("\n… ").as_slice());
        return string_of(head.as_slice());
    }
    let nl: Vec<char> = vec!['\n'];
    assert(nl@ =~= seq!['\n']);
    let mut preview = join_chars(kept, nl.as_slice());
    if chars_eq(preview.as_slice(), text.as_slice()) {
        string_of(preview.as_slice())
    } else if preview.len() == 0 {
        "… ".to_owned()
    } else {
        extend_chars(&mut preview, chars_of("\n… ").as_slice());
        string_of(preview.as_slice())
    }
}

// ---------------------------------------------------------------- calls

/// `text` with whitespace runs collapsed to single spaces, cut to
/// `max_chars` characters, with `…` when something was cut.
pub open spec fn compact_summary(text: Seq<char>, max_chars: nat) -> Seq<char> {
    let compact = normalize_ws(text);
    if compact.len() > max_chars {
        compact.take(max_chars as int).push('…')
    } else {
        compact
    }
}

/// Collapses whitespace and cuts `text` to `max_chars` characters.
pub fn compact_tool_summary(text: &str, max_chars: usize) -> (r: String)
    ensures
        r@ == compact_summary(text@, max_chars as nat),
{
    let compact = normalize_whitespace_chars(chars_of(text).as_slice());
    if compact.len() > max_chars {
        let mut out = slice_chars(compact.as_slice(), 0, max_chars);
        out.push('…');
        assert(compact@.subrange(0, max_chars as int) =~= compact@.take(max_chars as int));
        string_of(out.as_slice())
    } else {
        string_of(compact.as_slice())
    }
}

/// What a tool call's summary reads of its input: the input's top-level
/// fields whose values are strings, and a preview of the whole input.
#[derive(Clone, Debug)]
pub struct ToolInput {
    pub string_fields: Vec<(String, String)>,
    pub preview: String,
}

/// A tool call as announced to the interface: the tool's name, when the
/// payload names one, and its input.
#[derive(Clone, Debug)]
pub struct ToolCallPayload {
    pub tool_name: Option<String>,
    pub input: ToolInput,
}

/// The value of the first string field named `key`.
pub open spec fn field(fields: Seq<(String, String)>, key: Seq<char>) -> Option<Seq<char>>
    decreases fields.len(),
{
    if fields.len() == 0 {
        None
    } else if fields[0].0@ == key {
        Some(fields[0].1@)
    } else {
        field(fields.drop_first(), key)
    }
}

fn string_field(fields: &Vec<(String, String)>, key: &str) -> (r: Option<String>)
    ensures
        match r {
            Some(v) => field(fields@, key@) == Some(v@),
            None => field(fields@, key@) is None,
        },
{
    let k = chars_of(key);
    let mut i: usize = 0;
    assert(fields@.skip(0) =~= fields@);
    while i < fields.len()
        invariant
            i <= fields.len(),
            k@ == key@,
            field(fields@, key@) == field(fields@.skip(i as int), key@),
        decreases fields.len() - i,
    {
        assert(fields@.skip(i as int)[0] == fields@[i as int]);
        assert(fields@.skip(i as int).drop_first() =~= fields@.skip(i + 1));
        if chars_eq(chars_of(fields[i].0.as_str()).as_slice(), k.as_slice()) {
            return Some(fields[i].1.as_str().to_owned());
        }
        i += 1;
    }
    assert(fields@.skip(i as int) =~= Seq::<(String, String)>::empty());
    None
}

/// `first`, or else `second`.
pub open spec fn either(first: Option<Seq<char>>, second: Option<Seq<char>>) -> Option<Seq<char>> {
    match first {
        Some(v) => Some(v),
        None => second,
    }
}

/// The input field that best describes a call of `tool_name`.
pub open spec fn detail_field(tool_name: Seq<char>, fields: Seq<(String, String)>) -> Option<Seq<char>> {
    if tool_name == "bash"@ {
        either(field(fields, "command"@), field(fields, "cmd"@))
    } else if tool_name == "read"@ {
        either(field(fields, "filePath"@), field(fields, "path"@))
    } else if tool_name == "write"@ || tool_name == "edit"@ || tool_name == "apply_patch"@ {
        either(field(fields, "path"@), field(fields, "filePath"@))
    } else if tool_name == "webfetch"@ || tool_name == "websearch"@ {
        either(field(fields, "url"@), field(fields, "query"@))
    } else {
        None
    }
}

/// The short description of a call's input.
pub open spec fn input_summary(tool_name: Seq<char>, input: ToolInput) -> Seq<char> {
    match detail_field(tool_name, input.string_fields@) {
        Some(text) => compact_summary(text, 96),
        None => compact_summary(input.preview@, 96),
    }
}

fn first_field(fields: &Vec<(String, String)>, a: &str, b: &str) -> (r: Option<String>)
    ensures
        match r {
            Some(v) => either(field(fields@, a@), field(fields@, b@)) == Some(v@),
            None => either(field(fields@, a@), field(fields@, b@)) is None,
        },
{
    match string_field(fields, a) {
        Some(v) => Some(v),
        None => string_field(fields, b),
    }
}

fn is_str(a: &[char], b: &str) -> (r: bool)
    ensures
        r == (a@ == b@),
{
    chars_eq(a, chars_of(b).as_slice())
}

/// Summarizes a call's input for its tool.
pub fn summarize_tool_input(tool_name: &str, input: &ToolInput) -> (r: String)
    ensures
        r@ == input_summary(tool_name@, *input),
{
    let n = chars_of(tool_name);
    let fields = &input.string_fields;
    let candidate = if is_str(n.as_slice(), "bash") {
        first_field(fields, "command", "cmd")
    } else if is_str(n.as_slice(), "read") {
        first_field(fields, "filePath", "path")
    } else if is_str(n.as_slice(), "write") || is_str(n.as_slice(), "edit") || is_str(n.as_slice(), "apply_patch") {
        first_field(fields, "path", "filePath")
    } else if is_str(n.as_slice(), "webfetch") || is_str(n.as_slice(), "websearch") {
        first_field(fields, "url", "query")
    } else {
        None
    };
    match candidate {
        Some(text) => compact_tool_summary(text.as_str(), MAX_SUMMARY_CHARS),
        None => compact_tool_summary(input.preview.as_str(), MAX_SUMMARY_CHARS),
    }
}

/// The one-line summary of a tool call: the tool's name (`tool` when the
/// payload names none), then `: ` and the input's summary when there is one.
pub open spec fn call_summary(payload: ToolCallPayload) -> Seq<char> {
    let name = match payload.tool_name {
        Some(n) => n@,
        None => "tool"@,
    };
    let detail = input_summary(name, payload.input);
    if detail.len() == 0 {
        name
    } else {
        name + ": "@ + detail
    }
}

/// Summarizes a tool call for the transcript.
pub fn summarize_tool_call(payload: &ToolCallPayload) -> (r: String)
    ensures
        r@ == call_summary(*payload),
{
    let name: &str = match &payload.tool_name {
        Some(n) => n.as_str(),
        None => "tool",
    };
    let detail = summarize_tool_input(name, &payload.input);
    let d = chars_of(detail.as_str());
    if d.len() == 0 {
        return name.to_owned();
    }
    let mut out = chars_of(name);
    extend_chars(&mut out, chars_of(": ").as_slice());
    extend_chars(&mut out, d.as_slice());
    string_of(out.as_slice())
}

// ---------------------------------------------------------------- skills

/// Where a skill was found.
#[derive(Clone, Debug)]
pub enum SkillSource {
    User,
    Workspace { cwd: String },
    Plugin { plugin_id: String },
}

/// A skill as listed by the server.
#[derive(Clone, Debug)]
pub struct SkillRecord {
    pub name: String,
    pub description: String,
    pub enabled: bool,
    pub source: SkillSource,
    pub path: String,
}

/// How a skill's source is shown.
pub open spec fn source_text(source: SkillSource) -> Seq<char> {
    match source {
        SkillSource::User => "user"@,
        SkillSource::Workspace { cwd } => "workspace ("@ + cwd@ + ")"@,
        SkillSource::Plugin { plugin_id } => "plugin ("@ + plugin_id@ + ")"@,
    }
}

/// How a skill's source is shown.
pub fn render_skill_source(source: &SkillSource) -> (r: String)
    ensures
        r@ == source_text(*source),
{
    match source {
        SkillSource::User => "user".to_owned(),
        SkillSource::Workspace { cwd } => {
            let mut out = chars_of("workspace (");
            extend_chars(&mut out, chars_of(cwd.as_str()).as_slice());
            extend_chars(&mut out, chars_of(")").as_slice());
            string_of(out.as_slice())
        },
        SkillSource::Plugin { plugin_id } => {
            let mut out = chars_of("plugin (");
            extend_chars(&mut out, chars_of(plugin_id.as_str()).as_slice());
            extend_chars(&mut out, chars_of(")").as_slice());
            string_of(out.as_slice())
        },
    }
}

/// One skill's entry: name and status, description, source and path.
pub open spec fn skill_entry(skill: SkillRecord) -> Seq<char> {
    skill.name@ + " ("@ + (if skill.enabled {
        "enabled"@
    } else {
        "disabled"@
    }) + ")\n"@ + skill.description@ + "\nsource: "@ + source_text(skill.source) + "\npath: "@ + skill.path@
}

/// The entries of `skills`.
pub open spec fn skill_entries(skills: Seq<SkillRecord>) -> Seq<Seq<char>> {
    skills.map_values(|s: SkillRecord| skill_entry(s))
}

/// The list of skills, entries separated by blank lines.
pub open spec fn skill_list_text(skills: Seq<SkillRecord>) -> Seq<char> {
    if skills.len() == 0 {
        "No skills found"@
    } else {
        join(skill_entries(skills), "\n\n"@)
    }
}

fn skill_entry_chars(skill: &SkillRecord) -> (r: Vec<char>)
    ensures
        r@ == skill_entry(*skill),
{
    let mut out = chars_of(skill.name.as_str());
    extend_chars(&mut out, chars_of(" (").as_slice());
    extend_chars(&mut out, chars_of(if skill.enabled {
        "enabled"
    } else {
        "disabled"
    }).as_slice());
    extend_chars(&mut out, chars_of(")\n").as_slice());
    extend_chars(&mut out, chars_of(skill.description.as_str()).as_slice());
    extend_chars(&mut out, chars_of("\nsource: ").as_slice());
    extend_chars(&mut out, chars_of(render_skill_source(&skill.source).as_str()).as_slice());
    extend_chars(&mut out, chars_of("\npath: ").as_slice());
    extend_chars(&mut out, chars_of(skill.path.as_str()).as_slice());
    out
}

/// The list of skills shown by `/skills`.
pub fn render_skill_list_body(skills: &[SkillRecord]) -> (r: String)
    ensures
        r@ == skill_list_text(skills@),
{
    if skills.len() == 0 {
        return "No skills found".to_owned();
    }
    let mut entries: Vec<Vec<char>> = Vec::new();
    let mut i: usize = 0;
    while i < skills.len()
        invariant
            i <= skills.len(),
            views(entries@) == skill_entries(skills@).take(i as int),
        decreases skills.len() - i,
    {
        let ghost before = entries@;
        let e = skill_entry_chars(&skills[i]);
        entries.push(e);
        proof {
            crate::text::lemma_views_push(before, e);
            assert(views(entries@) =~= skill_entries(skills@).take((i + 1) as int));
        }
        i += 1;
    }
    assert(skill_entries(skills@).take(i as int) =~= skill_entries(skills@));
    let sep = chars_of("\n\n");
    string_of(join_chars(&entries, sep.as_slice()).as_slice())
}

} // verus!
