//! Reading the inputs of a turn and of a session request.
use vstd::prelude::*;

use crate::text::{chars_of, extend_chars, join, join_chars, string_of, strings, trim, trim_chars, views};

verus! {

/// One piece of user input to a turn.
#[derive(Clone, Debug)]
pub enum InputItem {
    Text { text: String },
    Skill { id: String },
    LocalImage { path: String },
    Mention { path: String, name: Option<String> },
}

/// The text that stands for an input item in the turn's prompt.
pub open spec fn item_text(item: InputItem) -> Seq<char> {
    match item {
        InputItem::Text { text } => trim(text@),
        InputItem::Skill { id } => "[skill:"@ + id@ + "]"@,
        InputItem::LocalImage { path } => "[image:"@ + path@ + "]"@,
        InputItem::Mention { path, name } => "[mention:"@ + match name {
            Some(n) => n@,
            None => path@,
        } + "]"@,
    }
}

/// The non-empty texts of `items`, in order.
pub open spec fn input_parts(items: Seq<InputItem>) -> Seq<Seq<char>>
    decreases items.len(),
{
    if items.len() == 0 {
        Seq::empty()
    } else {
        let rest = input_parts(items.drop_last());
        let t = item_text(items.last());
        if t.len() == 0 {
            rest
        } else {
            rest.push(t)
        }
    }
}

fn bracketed(head: &str, value: &str) -> (r: Vec<char>)
    ensures
        r@ == head@ + value@ + "]"@,
{
    let mut out = chars_of(head);
    extend_chars(&mut out, chars_of(value).as_slice());
    extend_chars(&mut out, chars_of("]").as_slice());
    out
}

fn rendered_item(item: &InputItem) -> (r: Vec<char>)
    ensures
        r@ == item_text(*item),
{
    match item {
        InputItem::Text { text } => trim_chars(chars_of(text.as_str()).as_slice()),
        InputItem::Skill { id } => bracketed("[skill:", id.as_str()),
        InputItem::LocalImage { path } => bracketed("[image:", path.as_str()),
        InputItem::Mention { path, name } => {
            let shown = match name {
                Some(n) => n.as_str(),
                None => path.as_str(),
            };
            bracketed("[mention:", shown)
        },
    }
}

/// The user's prompt for a turn: the texts of the input items that are not
/// empty, one per line; `None` when every text is empty.
pub fn render_input_items(input: &[InputItem]) -> (r: Option<String>)
    ensures
        match r {
            Some(s) => input_parts(input@).len() > 0 && s@ == join(input_parts(input@), seq!['\n']),
            None => input_parts(input@).len() == 0,
        },
{
    let mut parts: Vec<Vec<char>> = Vec::new();
    let mut i: usize = 0;
    while i < input.len()
        invariant
            i <= input.len(),
            views(parts@) == input_parts(input@.take(i as int)),
        decreases input.len() - i,
    {
        assert(input@.take((i + 1) as int).drop_last() =~= input@.take(i as int));
        let t = rendered_item(&input[i]);
        if t.len() > 0 {
            let ghost before = parts@;
            parts.push(t);
            proof {
                crate::text::lemma_views_push(before, parts@.last());
            }
        }
        i += 1;
    }
    assert(input@.take(i as int) =~= input@);
    if parts.len() == 0 {
        return None;
    }
    let nl: Vec<char> = vec!['\n'];
    assert(nl@ =~= seq!['\n']);
    Some(string_of(join_chars(&parts, nl.as_slice()).as_slice()))
}

/// Whether a session's tools may reach outside the workspace.
#[derive(Clone, Copy, Debug, PartialEq, Eq, Structural)]
pub enum SandboxMode {
    Unrestricted,
    Restricted,
}

/// The sandbox a session's tools run in.
#[derive(Clone, Copy, Debug, PartialEq, Eq, Structural)]
pub struct SandboxPolicyRecord {
    pub mode: SandboxMode,
    pub workspace_write: bool,
}

/// ASCII letters in lower case, other characters unchanged.
pub open spec fn ascii_lower(s: Seq<char>) -> Seq<char> {
    s.map_values(|c: char| if 'A' <= c && c <= 'Z' { ((c as u8) + 32) as char } else { c })
}

fn to_ascii_lower(s: &[char]) -> (r: Vec<char>)
    ensures
        r@ == ascii_lower(s@),
{
    let mut r: Vec<char> = Vec::new();
    let mut i: usize = 0;
    while i < s.len()
        invariant
            i <= s.len(),
            r@ == ascii_lower(s@.take(i as int)),
        decreases s.len() - i,
    {
        let c = s[i];
        let l = if 'A' <= c && c <= 'Z' {
            ((c as u8) + 32) as char
        } else {
            c
        };
        r.push(l);
        i += 1;
        assert(r@ =~= ascii_lower(s@.take(i as int)));
    }
    assert(s@.take(i as int) =~= s@);
    r
}

/// The sandbox named by a user-facing mode, ignoring case and surrounding
/// whitespace.
pub open spec fn sandbox_for(name: Seq<char>) -> Option<SandboxPolicyRecord> {
    let n = ascii_lower(trim(name));
    if n == "unrestricted"@ {
        Some(SandboxPolicyRecord { mode: SandboxMode::Unrestricted, workspace_write: true })
    } else if n == "workspace-write"@ || n == "workspace_write"@ {
        Some(SandboxPolicyRecord { mode: SandboxMode::Restricted, workspace_write: true })
    } else if n == "read-only"@ || n == "read_only"@ || n == "readonly"@ {
        Some(SandboxPolicyRecord { mode: SandboxMode::Restricted, workspace_write: false })
    } else {
        None
    }
}

fn is_name(n: &[char], name: &str) -> (r: bool)
    ensures
        r == (n@ == name@),
{
    crate::text::chars_eq(n, chars_of(name).as_slice())
}

/// Maps a user-facing sandbox mode to the policy the runtime uses; `None`
/// for an unknown mode.
pub fn parse_sandbox_mode(value: &str) -> (r: Option<SandboxPolicyRecord>)
    ensures
        r == sandbox_for(value@),
{
    let n = to_ascii_lower(trim_chars(chars_of(value).as_slice()).as_slice());
    if is_name(n.as_slice(), "unrestricted") {
        Some(SandboxPolicyRecord { mode: SandboxMode::Unrestricted, workspace_write: true })
    } else if is_name(n.as_slice(), "workspace-write") || is_name(n.as_slice(), "workspace_write") {
        Some(SandboxPolicyRecord { mode: SandboxMode::Restricted, workspace_write: true })
    } else if is_name(n.as_slice(), "read-only") || is_name(n.as_slice(), "read_only") || is_name(
        n.as_slice(),
        "readonly",
    ) {
        Some(SandboxPolicyRecord { mode: SandboxMode::Restricted, workspace_write: false })
    } else {
        None
    }
}

} // verus!
