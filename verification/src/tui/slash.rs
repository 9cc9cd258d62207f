//! Slash commands of the composer: which exist, which the typed text
//! suggests, and how a selection moves through a list.
use vstd::prelude::*;

use crate::text::{chars_of, has_prefix, is_whitespace, is_ws, starts_with, trim_start, trim_start_chars};

verus! {

/// One slash command offered by the composer.
#[derive(Debug, Clone, Copy, PartialEq, Eq)]
pub struct SlashCommandSpec {
    /// The command text inserted into the composer.
    pub name: &'static str,
    /// What the command does, shown in the suggestion list.
    pub description: &'static str,
}

/// The names of the slash commands, in the order they are offered.
pub open spec fn command_names() -> Seq<Seq<char>> {
    seq![
        "/help"@, "/model"@, "/configure"@, "/config"@, "/new"@, "/rename"@, "/sessions"@, "/skills"@,
        "/thinking"@, "/reasoning"@, "/status"@, "/compact"@, "/clear"@, "/export"@, "/bug"@,
        "/feedback"@, "/release-notes"@, "/exit"@,
    ]
}

/// Every slash command, as its name and its description, in the order they
/// are offered.
pub open spec fn command_table() -> Seq<(Seq<char>, Seq<char>)> {
    seq![
        ("/help"@, "List the available slash commands"@),
        ("/model"@, "Show or change the active model"@),
        ("/configure"@, "Configure provider, model, and API key"@),
        ("/config"@, "Show the active config.toml (keys masked)"@),
        ("/new"@, "Create a new session"@),
        ("/rename"@, "Rename the current session"@),
        ("/sessions"@, "List sessions and switch between them"@),
        ("/skills"@, "List available skills"@),
        ("/thinking"@, "Show or change the thinking mode"@),
        ("/reasoning"@, "Toggle inline display of model reasoning"@),
        ("/status"@, "Show current session status"@),
        ("/compact"@, "Summarize and compact the conversation context"@),
        ("/clear"@, "Clear the conversation context (keeps the session)"@),
        ("/export"@, "Export the transcript to a Markdown file"@),
        ("/bug"@, "Show where to report bugs and feedback"@),
        ("/feedback"@, "Show where to report bugs and feedback"@),
        ("/release-notes"@, "Show the version and release notes link"@),
        ("/exit"@, "Exit the interactive session"@),
    ]
}

/// Commands as names and descriptions.
pub open spec fn entries_of(cs: Seq<SlashCommandSpec>) -> Seq<(Seq<char>, Seq<char>)> {
    cs.map_values(|c: SlashCommandSpec| (c.name@, c.description@))
}

/// The entries of `table` whose names begin with `typed`, in order.
pub open spec fn entries_starting(table: Seq<(Seq<char>, Seq<char>)>, typed: Seq<char>) -> Seq<(Seq<char>, Seq<char>)>
    decreases table.len(),
{
    if table.len() == 0 {
        Seq::empty()
    } else {
        let rest = entries_starting(table.drop_last(), typed);
        if starts_with(table.last().0, typed) {
            rest.push(table.last())
        } else {
            rest
        }
    }
}

proof fn lemma_entries_starting(cs: Seq<SlashCommandSpec>, typed: Seq<char>)
    ensures
        entries_of(commands_starting(cs, typed)) == entries_starting(entries_of(cs), typed),
    decreases cs.len(),
{
    if cs.len() > 0 {
        lemma_entries_starting(cs.drop_last(), typed);
        assert(entries_of(cs).drop_last() =~= entries_of(cs.drop_last()));
        let rest = commands_starting(cs.drop_last(), typed);
        assert(entries_of(rest.push(cs.last())) =~= entries_of(rest).push((cs.last().name@, cs.last().description@)));
    }
}

/// The names of commands.
pub open spec fn names_of(cs: Seq<SlashCommandSpec>) -> Seq<Seq<char>> {
    cs.map_values(|c: SlashCommandSpec| c.name@)
}

fn spec_of(name: &'static str, description: &'static str) -> (r: SlashCommandSpec)
    ensures
        r.name@ == name@,
        r.description@ == description@,
{
    SlashCommandSpec { name, description }
}

/// Every slash command the composer supports, in the order they are offered.
pub fn slash_commands() -> (r: Vec<SlashCommandSpec>)
    ensures
        names_of(r@) == command_names(),
        entries_of(r@) == command_table(),
{
    let r = vec![
        spec_of("/help", "List the available slash commands"),
        spec_of("/model", "Show or change the active model"),
        spec_of("/configure", "Configure provider, model, and API key"),
        spec_of("/config", "Show the active config.toml (keys masked)"),
        spec_of("/new", "Create a new session"),
        spec_of("/rename", "Rename the current session"),
        spec_of("/sessions", "List sessions and switch between them"),
        spec_of("/skills", "List available skills"),
        spec_of("/thinking", "Show or change the thinking mode"),
        spec_of("/reasoning", "Toggle inline display of model reasoning"),
        spec_of("/status", "Show current session status"),
        spec_of("/compact", "Summarize and compact the conversation context"),
        spec_of("/clear", "Clear the conversation context (keeps the session)"),
        spec_of("/export", "Export the transcript to a Markdown file"),
        spec_of("/bug", "Show where to report bugs and feedback"),
        spec_of("/feedback", "Show where to report bugs and feedback"),
        spec_of("/release-notes", "Show the version and release notes link"),
        spec_of("/exit", "Exit the interactive session"),
    ];
    assert(names_of(r@) =~= command_names());
    assert(entries_of(r@) =~= command_table());
    r
}

/// The commands of `cs` whose names begin with `typed`, in order.
pub open spec fn commands_starting(cs: Seq<SlashCommandSpec>, typed: Seq<char>) -> Seq<SlashCommandSpec>
    decreases cs.len(),
{
    if cs.len() == 0 {
        Seq::empty()
    } else {
        let rest = commands_starting(cs.drop_last(), typed);
        if starts_with(cs.last().name@, typed) {
            rest.push(cs.last())
        } else {
            rest
        }
    }
}

/// Suggestions appear only for a bare command prefix: after leading
/// whitespace, a `/` and no further whitespace.
pub open spec fn suggests(input: Seq<char>) -> bool {
    let t = trim_start(input);
    t.len() > 0 && t[0] == '/' && forall|i: int| 0 <= i < t.len() ==> !is_ws(#[trigger] t[i])
}

/// The slash commands suggested for the composer text `input`.
pub fn matching_slash_commands(input: &str) -> (r: Vec<SlashCommandSpec>)
    ensures
        suggests(input@) ==> exists|all: Seq<SlashCommandSpec>|
            names_of(all) == command_names() && r@ == commands_starting(all, trim_start(input@)),
        suggests(input@) ==> entries_of(r@) == entries_starting(command_table(), trim_start(input@)),
        !suggests(input@) ==> r@.len() == 0,
{
    let t = trim_start_chars(chars_of(input).as_slice());
    if t.len() == 0 || t[0] != '/' {
        return Vec::new();
    }
    let mut k: usize = 0;
    while k < t.len()
        invariant
            k <= t.len(),
            t@ == trim_start(input@),
            forall|i: int| 0 <= i < k ==> !is_ws(#[trigger] t@[i]),
        decreases t.len() - k,
    {
        if is_whitespace(t[k]) {
            assert(is_ws(t@[k as int]));
            assert(!suggests(input@));
            return Vec::new();
        }
        k += 1;
    }
    let all = slash_commands();
    let mut r: Vec<SlashCommandSpec> = Vec::new();
    let mut i: usize = 0;
    while i < all.len()
        invariant
            i <= all.len(),
            r@ == commands_starting(all@.take(i as int), t@),
        decreases all.len() - i,
    {
        assert(all@.take((i + 1) as int).drop_last() =~= all@.take(i as int));
        if has_prefix(chars_of(all[i].name).as_slice(), t.as_slice()) {
            r.push(all[i]);
        }
        i += 1;
    }
    assert(all@.take(i as int) =~= all@);
    proof {
        lemma_entries_starting(all@, t@);
    }
    r
}

/// The name of the command that Tab or Enter would take from the
/// suggestions: the selected one, or the last when the selection is past
/// the end.
pub fn selected_suggestion(input: &str, selection: usize) -> (r: Option<&'static str>)
    ensures
        r is None <==> !suggests(input@) || matching_slash_commands_len(input@) == 0,
        match r {
            Some(name) => {
                let names = names_starting(command_names(), trim_start(input@));
                name@ == names[if selection < names.len() - 1 { selection as int } else { names.len() - 1 }]
            },
            None => true,
        },
{
    let suggestions = matching_slash_commands(input);
    if suggestions.len() == 0 {
        proof {
            lemma_matching_len(input@, suggestions@.len() as nat);
        }
        return None;
    }
    proof {
        lemma_matching_len(input@, suggestions@.len() as nat);
    }
    let k = if selection < suggestions.len() - 1 {
        selection
    } else {
        suggestions.len() - 1
    };
    proof {
        let all = choose|all: Seq<SlashCommandSpec>|
            names_of(all) == command_names() && suggestions@ == commands_starting(all, trim_start(input@));
        lemma_names_starting(all, trim_start(input@));
        assert(names_of(suggestions@)[k as int] == suggestions@[k as int].name@);
    }
    Some(suggestions[k].name)
}

/// The names of `names` that begin with `typed`, in order.
pub open spec fn names_starting(names: Seq<Seq<char>>, typed: Seq<char>) -> Seq<Seq<char>>
    decreases names.len(),
{
    if names.len() == 0 {
        Seq::empty()
    } else {
        let rest = names_starting(names.drop_last(), typed);
        if starts_with(names.last(), typed) {
            rest.push(names.last())
        } else {
            rest
        }
    }
}

proof fn lemma_names_starting(cs: Seq<SlashCommandSpec>, typed: Seq<char>)
    ensures
        names_of(commands_starting(cs, typed)) == names_starting(names_of(cs), typed),
    decreases cs.len(),
{
    if cs.len() > 0 {
        lemma_names_starting(cs.drop_last(), typed);
        assert(names_of(cs).drop_last() =~= names_of(cs.drop_last()));
        let rest = commands_starting(cs.drop_last(), typed);
        assert(names_of(rest.push(cs.last())) =~= names_of(rest).push(cs.last().name@));
    }
}

/// How many commands are suggested for `input`.
pub open spec fn matching_slash_commands_len(input: Seq<char>) -> nat {
    commands_starting_len(command_names(), trim_start(input))
}

/// How many of `names` begin with `typed`.
pub open spec fn commands_starting_len(names: Seq<Seq<char>>, typed: Seq<char>) -> nat
    decreases names.len(),
{
    if names.len() == 0 {
        0
    } else {
        commands_starting_len(names.drop_last(), typed) + if starts_with(names.last(), typed) {
            1nat
        } else {
            0nat
        }
    }
}

proof fn lemma_starting_len(cs: Seq<SlashCommandSpec>, typed: Seq<char>)
    ensures
        commands_starting(cs, typed).len() == commands_starting_len(names_of(cs), typed),
    decreases cs.len(),
{
    if cs.len() > 0 {
        lemma_starting_len(cs.drop_last(), typed);
        assert(names_of(cs).drop_last() =~= names_of(cs.drop_last()));
    }
}

proof fn lemma_matching_len(input: Seq<char>, n: nat)
    requires
        suggests(input) ==> exists|all: Seq<SlashCommandSpec>|
            names_of(all) == command_names() && commands_starting(all, trim_start(input)).len() == n,
        !suggests(input) ==> n == 0,
    ensures
        (n == 0) <==> (!suggests(input) || matching_slash_commands_len(input) == 0),
{
    if suggests(input) {
        let all = choose|all: Seq<SlashCommandSpec>|
            names_of(all) == command_names() && commands_starting(all, trim_start(input)).len() == n;
        lemma_starting_len(all, trim_start(input));
    }
}

// ---------------------------------------------------------------- selection

/// The selection after moving `delta` steps through a list of `len`
/// entries, wrapping at both ends; an empty list selects the first.
pub open spec fn moved(selection: int, delta: int, len: int) -> int {
    if len <= 0 {
        0
    } else {
        (selection + delta) % len
    }
}

/// Moves a selection through a list, wrapping at both ends.
pub fn move_selection(selection: usize, delta: isize, len: usize) -> (r: usize)
    requires
        selection <= isize::MAX,
        isize::MIN <= selection + delta <= isize::MAX,
    ensures
        r == moved(selection as int, delta as int, len as int),
        len > 0 ==> r < len,
{
    if len == 0 {
        return 0;
    }
    let sum: i128 = selection as i128 + delta as i128;
    if sum >= 0 {
        let a = sum as u128;
        let r = a % (len as u128);
        let ghost q = a as int / len as int;
        proof {
            vstd::arithmetic::div_mod::lemma_fundamental_div_mod(a as int, len as int);
            assert(a as int == sum as int);
            assert(r as int == (a as int) % (len as int));
            assert(sum as int == q * len + r) by (nonlinear_arith)
                requires
                    a as int == len * q + (a as int) % (len as int),
                    r as int == (a as int) % (len as int),
                    a as int == sum as int,
            ;
            vstd::arithmetic::div_mod::lemma_fundamental_div_mod_converse(sum as int, len as int, q, r as int);
        }
        r as usize
    } else {
        let a = (-sum) as u128;
        let k = a % (len as u128);
        let ghost q = a as int / len as int;
        proof {
            vstd::arithmetic::div_mod::lemma_fundamental_div_mod(a as int, len as int);
            assert(a as int == q * len + k);
        }
        if k == 0 {
            proof {
                assert(sum as int == (-q) * len + 0) by (nonlinear_arith)
                    requires
                        a as int == q * len + k,
                        k == 0,
                        sum == -(a as int),
                ;
                vstd::arithmetic::div_mod::lemma_fundamental_div_mod_converse(sum as int, len as int, -q, 0);
            }
            0
        } else {
            let r = len as u128 - k;
            proof {
                assert(sum as int == (-q - 1) * len + (len - k)) by (nonlinear_arith)
                    requires
                        a as int == q * len + k,
                        sum == -(a as int),
                ;
                vstd::arithmetic::div_mod::lemma_fundamental_div_mod_converse(
                    sum as int,
                    len as int,
                    -q - 1,
                    len - k,
                );
            }
            r as usize
        }
    }
}

// ---------------------------------------------------------------- laws

/// Moving a selection one step down and then one step up returns to it.
pub proof fn law_down_then_up_returns(selection: int, len: int)
    requires
        0 <= selection < len,
    ensures
        moved(moved(selection, 1, len), -1, len) == selection,
{
    let d = moved(selection, 1, len);
    if selection + 1 < len {
        vstd::arithmetic::div_mod::lemma_fundamental_div_mod_converse(selection + 1, len, 0, selection + 1);
        vstd::arithmetic::div_mod::lemma_fundamental_div_mod_converse(selection, len, 0, selection);
    } else {
        vstd::arithmetic::div_mod::lemma_fundamental_div_mod_converse(selection + 1, len, 1, 0);
        vstd::arithmetic::div_mod::lemma_fundamental_div_mod_converse(-1, len, -1, len - 1);
    }
}

/// A moved selection always lands inside a non-empty list.
pub proof fn law_moved_in_range(selection: int, delta: int, len: int)
    requires
        len > 0,
    ensures
        0 <= moved(selection, delta, len) < len,
{
}

} // verus!
