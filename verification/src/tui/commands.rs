//! What a line typed into the composer asks for: a slash command with its
//! argument, or a prompt for the model.
use vstd::prelude::*;

use crate::text::{chars_eq, chars_of, decimal, is_whitespace, is_ws, slice_chars, string_of, trim, trim_chars};
use crate::tui::transcript::push_str;

verus! {

/// What a line typed into the composer asks for.
#[derive(Clone, Debug)]
pub enum SlashCommand {
    /// Leave the interface.
    Exit,
    /// Show the session's status.
    Status,
    /// Open onboarding (`/configure`, `/onboard`).
    Configure,
    /// List the sessions (`/sessions`, `/session`, `/session list`).
    ListSessions,
    /// List the skills.
    ListSkills,
    /// Show the thinking modes.
    Thinking,
    /// Expand or collapse reasoning blocks.
    ToggleReasoning,
    /// Show the configuration with its keys masked.
    ShowConfig,
    /// Start a new session (`/new`, `/session new`).
    NewSession,
    /// Rename the current session to this title.
    RenameSession(String),
    /// Switch to the session with this id (`/session switch <id>`).
    SwitchSession(String),
    /// Switch to the session this argument names (`/session <id>`).
    SessionArgument(String),
    /// Show the model switcher.
    ShowModels,
    /// Use this model.
    SetModel(String),
    /// A command used without its argument; the usage to show.
    Usage(String),
    /// Not a command: send the line to the model.
    Prompt,
}

/// What a line asks for, by value.
pub enum CommandChoice {
    Exit,
    Status,
    Configure,
    ListSessions,
    ListSkills,
    Thinking,
    ToggleReasoning,
    ShowConfig,
    NewSession,
    RenameSession(Seq<char>),
    SwitchSession(Seq<char>),
    SessionArgument(Seq<char>),
    ShowModels,
    SetModel(Seq<char>),
    Usage(Seq<char>),
    Prompt,
}

/// The value of a parsed command.
pub open spec fn command_view(c: SlashCommand) -> CommandChoice {
    match c {
        SlashCommand::Exit => CommandChoice::Exit,
        SlashCommand::Status => CommandChoice::Status,
        SlashCommand::Configure => CommandChoice::Configure,
        SlashCommand::ListSessions => CommandChoice::ListSessions,
        SlashCommand::ListSkills => CommandChoice::ListSkills,
        SlashCommand::Thinking => CommandChoice::Thinking,
        SlashCommand::ToggleReasoning => CommandChoice::ToggleReasoning,
        SlashCommand::ShowConfig => CommandChoice::ShowConfig,
        SlashCommand::NewSession => CommandChoice::NewSession,
        SlashCommand::RenameSession(t) => CommandChoice::RenameSession(t@),
        SlashCommand::SwitchSession(t) => CommandChoice::SwitchSession(t@),
        SlashCommand::SessionArgument(t) => CommandChoice::SessionArgument(t@),
        SlashCommand::ShowModels => CommandChoice::ShowModels,
        SlashCommand::SetModel(t) => CommandChoice::SetModel(t@),
        SlashCommand::Usage(t) => CommandChoice::Usage(t@),
        SlashCommand::Prompt => CommandChoice::Prompt,
    }
}

/// The position of the first whitespace in `s`.
pub open spec fn first_ws(s: Seq<char>) -> Option<int>
    decreases s.len(),
{
    if s.len() == 0 {
        None
    } else if is_ws(s[0]) {
        Some(0)
    } else {
        match first_ws(s.drop_first()) {
            Some(i) => Some(i + 1),
            None => None,
        }
    }
}

/// `s` cut at its first whitespace: the head, and the trimmed rest (empty
/// when there is no whitespace).
pub open spec fn head_and_rest(s: Seq<char>) -> (Seq<char>, Seq<char>) {
    match first_ws(s) {
        Some(i) => (s.take(i), trim(s.skip(i + 1))),
        None => (s, Seq::empty()),
    }
}

/// What a `/session` argument asks for.
pub open spec fn session_choice(argument: Seq<char>) -> CommandChoice {
    if argument.len() == 0 || argument == "list"@ {
        CommandChoice::ListSessions
    } else {
        let (sub, rest) = head_and_rest(argument);
        if sub == "new"@ {
            CommandChoice::NewSession
        } else if sub == "rename"@ {
            if rest.len() == 0 {
                CommandChoice::Usage("usage: /session rename <new title>"@)
            } else {
                CommandChoice::RenameSession(rest)
            }
        } else if sub == "switch"@ {
            if rest.len() == 0 {
                CommandChoice::Usage("usage: /session switch <session_id>"@)
            } else {
                CommandChoice::SwitchSession(rest)
            }
        } else {
            CommandChoice::SessionArgument(argument)
        }
    }
}

/// What a typed line asks for: its first word, after trimming, names the
/// command and the trimmed rest is the argument; a line naming no command
/// is a prompt.
pub open spec fn command_choice(prompt: Seq<char>) -> CommandChoice {
    let (command, argument) = head_and_rest(trim(prompt));
    if command == "/exit"@ {
        CommandChoice::Exit
    } else if command == "/status"@ {
        CommandChoice::Status
    } else if command == "/configure"@ || command == "/onboard"@ {
        CommandChoice::Configure
    } else if command == "/sessions"@ {
        CommandChoice::ListSessions
    } else if command == "/skills"@ {
        CommandChoice::ListSkills
    } else if command == "/thinking"@ {
        CommandChoice::Thinking
    } else if command == "/reasoning"@ {
        CommandChoice::ToggleReasoning
    } else if command == "/config"@ {
        CommandChoice::ShowConfig
    } else if command == "/new"@ {
        CommandChoice::NewSession
    } else if command == "/rename"@ {
        if argument.len() == 0 {
            CommandChoice::Usage("usage: /rename <new title>"@)
        } else {
            CommandChoice::RenameSession(argument)
        }
    } else if command == "/session"@ {
        session_choice(argument)
    } else if command == "/model"@ {
        if argument.len() == 0 {
            CommandChoice::ShowModels
        } else {
            CommandChoice::SetModel(argument)
        }
    } else {
        CommandChoice::Prompt
    }
}

fn first_ws_of(s: &[char]) -> (r: Option<usize>)
    ensures
        match r {
            Some(i) => first_ws(s@) == Some(i as int) && i < s.len(),
            None => first_ws(s@) is None,
        },
{
    let mut i: usize = 0;
    assert(s@.skip(0) =~= s@);
    while i < s.len()
        invariant
            i <= s.len(),
            first_ws(s@) == match first_ws(s@.skip(i as int)) {
                Some(k) => Some(k + i),
                None => None,
            },
        decreases s.len() - i,
    {
        assert(s@.skip(i as int)[0] == s@[i as int]);
        if is_whitespace(s[i]) {
            return Some(i);
        }
        assert(s@.skip(i as int).drop_first() =~= s@.skip(i + 1));
        i += 1;
    }
    None
}

fn head_and_rest_of(s: &[char]) -> (r: (Vec<char>, Vec<char>))
    ensures
        (r.0@, r.1@) == head_and_rest(s@),
{
    match first_ws_of(s) {
        Some(i) => {
            let head = slice_chars(s, 0, i);
            let rest = slice_chars(s, i + 1, s.len());
            assert(head@ =~= s@.take(i as int));
            assert(rest@ =~= s@.skip(i + 1));
            (head, trim_chars(rest.as_slice()))
        },
        None => {
            let all = slice_chars(s, 0, s.len());
            assert(all@ =~= s@);
            (all, Vec::new())
        },
    }
}

fn is_word(s: &[char], w: &str) -> (r: bool)
    ensures
        r == (s@ == w@),
{
    chars_eq(s, chars_of(w).as_slice())
}

fn session_command(argument: &[char]) -> (r: SlashCommand)
    ensures
        command_view(r) == session_choice(argument@),
{
    if argument.len() == 0 || is_word(argument, "list") {
        return SlashCommand::ListSessions;
    }
    let (sub, rest) = head_and_rest_of(argument);
    if is_word(sub.as_slice(), "new") {
        SlashCommand::NewSession
    } else if is_word(sub.as_slice(), "rename") {
        if rest.len() == 0 {
            SlashCommand::Usage("usage: /session rename <new title>".to_owned())
        } else {
            SlashCommand::RenameSession(string_of(rest.as_slice()))
        }
    } else if is_word(sub.as_slice(), "switch") {
        if rest.len() == 0 {
            SlashCommand::Usage("usage: /session switch <session_id>".to_owned())
        } else {
            SlashCommand::SwitchSession(string_of(rest.as_slice()))
        }
    } else {
        SlashCommand::SessionArgument(string_of(argument))
    }
}

/// What a line typed into the composer asks for.
pub fn parse_slash_command(prompt: &str) -> (r: SlashCommand)
    ensures
        command_view(r) == command_choice(prompt@),
{
    let t = trim_chars(chars_of(prompt).as_slice());
    let (command, argument) = head_and_rest_of(t.as_slice());
    let c = command.as_slice();
    if is_word(c, "/exit") {
        SlashCommand::Exit
    } else if is_word(c, "/status") {
        SlashCommand::Status
    } else if is_word(c, "/configure") || is_word(c, "/onboard") {
        SlashCommand::Configure
    } else if is_word(c, "/sessions") {
        SlashCommand::ListSessions
    } else if is_word(c, "/skills") {
        SlashCommand::ListSkills
    } else if is_word(c, "/thinking") {
        SlashCommand::Thinking
    } else if is_word(c, "/reasoning") {
        SlashCommand::ToggleReasoning
    } else if is_word(c, "/config") {
        SlashCommand::ShowConfig
    } else if is_word(c, "/new") {
        SlashCommand::NewSession
    } else if is_word(c, "/rename") {
        if argument.len() == 0 {
            SlashCommand::Usage("usage: /rename <new title>".to_owned())
        } else {
            SlashCommand::RenameSession(string_of(argument.as_slice()))
        }
    } else if is_word(c, "/session") {
        session_command(argument.as_slice())
    } else if is_word(c, "/model") {
        if argument.len() == 0 {
            SlashCommand::ShowModels
        } else {
            SlashCommand::SetModel(string_of(argument.as_slice()))
        }
    } else {
        SlashCommand::Prompt
    }
}

/// `true` or `false`, as `{}` prints a boolean.
pub open spec fn bool_text(b: bool) -> Seq<char> {
    if b {
        "true"@
    } else {
        "false"@
    }
}

/// The status panel's text.
pub open spec fn status_body(turns: u64, model: Seq<char>, input_tokens: u64, output_tokens: u64, busy: bool) -> Seq<char> {
    "turns: "@ + decimal(turns as nat) + "\nmodel: "@ + model + "\ntokens: "@ + decimal(input_tokens as nat) + " in / "@
        + decimal(output_tokens as nat) + " out\nbusy: "@ + bool_text(busy)
}

/// The status panel's text: turns, model, tokens in and out, and whether a
/// turn runs.
pub fn status_text(turns: u64, model: &str, input_tokens: u64, output_tokens: u64, busy: bool) -> (r: String)
    ensures
        r@ == status_body(turns, model@, input_tokens, output_tokens, busy),
{
    let mut v = chars_of("turns: ");
    crate::text::push_decimal_u64(&mut v, turns);
    push_str(&mut v, "\nmodel: ");
    push_str(&mut v, model);
    push_str(&mut v, "\ntokens: ");
    crate::text::push_decimal_u64(&mut v, input_tokens);
    push_str(&mut v, " in / ");
    crate::text::push_decimal_u64(&mut v, output_tokens);
    push_str(&mut v, " out\nbusy: ");
    push_str(&mut v, if busy {
        "true"
    } else {
        "false"
    });
    string_of(v.as_slice())
}

/// The status line after reasoning blocks are toggled.
pub fn reasoning_status(show_reasoning: bool) -> (r: &'static str)
    ensures
        r@ == if show_reasoning {
            "Reasoning blocks expanded"@
        } else {
            "Reasoning blocks collapsed"@
        },
{
    if show_reasoning {
        "Reasoning blocks expanded"
    } else {
        "Reasoning blocks collapsed"
    }
}

// ---------------------------------------------------------------- running a command

/// What the interface shows and holds around a command.
#[derive(Clone, Debug)]
pub struct CommandUi {
    /// Reasoning blocks are shown expanded.
    pub show_reasoning: bool,
    /// A turn is running.
    pub busy: bool,
    /// The interface is to quit.
    pub should_quit: bool,
    /// The status line.
    pub status_message: String,
}

/// What the interface holds around a command, by value.
pub struct CommandUiView {
    pub show_reasoning: bool,
    pub busy: bool,
    pub should_quit: bool,
    pub status_message: Seq<char>,
}

impl View for CommandUi {
    type V = CommandUiView;

    open spec fn view(&self) -> CommandUiView {
        CommandUiView {
            show_reasoning: self.show_reasoning,
            busy: self.busy,
            should_quit: self.should_quit,
            status_message: self.status_message@,
        }
    }
}

/// What a command does besides the status line: the panel it opens or
/// closes and what it asks of the worker.
#[derive(Clone, Debug, PartialEq, Eq)]
pub enum CommandEffect {
    /// Close the panel and the suggestions and quit.
    Quit,
    /// Show the session's status in a panel.
    ShowStatus,
    /// Start onboarding.
    StartOnboarding,
    /// Show the known sessions and ask the worker for the list.
    ListSessions,
    /// Show that skills load, and ask the worker for them.
    ListSkills,
    /// Show the thinking modes.
    ShowThinking,
    /// Nothing besides the status line.
    Nothing,
    /// Show the configuration with its keys masked.
    ShowConfig,
    /// Close the panel and have the worker forget the session.
    NewSession,
    /// Have the worker rename the session.
    RenameSession(String),
    /// Have the worker resume the session this text names.
    SwitchSession(String),
    /// Show the model switcher.
    ShowModels,
    /// Switch to this model, after `check_model_switch`.
    SwitchModel(String),
    /// The command failed with this message: an error item "Submit failed"
    /// and the status "Failed to submit prompt".
    Fail(String),
    /// Send the line to the model.
    SubmitPrompt,
}

/// The effect of a command, by value.
pub enum EffectView {
    Quit,
    ShowStatus,
    StartOnboarding,
    ListSessions,
    ListSkills,
    ShowThinking,
    Nothing,
    ShowConfig,
    NewSession,
    RenameSession(Seq<char>),
    SwitchSession(Seq<char>),
    ShowModels,
    SwitchModel(Seq<char>),
    Fail(Seq<char>),
    SubmitPrompt,
}

/// The value of an effect.
pub open spec fn effect_view(e: CommandEffect) -> EffectView {
    match e {
        CommandEffect::Quit => EffectView::Quit,
        CommandEffect::ShowStatus => EffectView::ShowStatus,
        CommandEffect::StartOnboarding => EffectView::StartOnboarding,
        CommandEffect::ListSessions => EffectView::ListSessions,
        CommandEffect::ListSkills => EffectView::ListSkills,
        CommandEffect::ShowThinking => EffectView::ShowThinking,
        CommandEffect::Nothing => EffectView::Nothing,
        CommandEffect::ShowConfig => EffectView::ShowConfig,
        CommandEffect::NewSession => EffectView::NewSession,
        CommandEffect::RenameSession(t) => EffectView::RenameSession(t@),
        CommandEffect::SwitchSession(t) => EffectView::SwitchSession(t@),
        CommandEffect::ShowModels => EffectView::ShowModels,
        CommandEffect::SwitchModel(t) => EffectView::SwitchModel(t@),
        CommandEffect::Fail(t) => EffectView::Fail(t@),
        CommandEffect::SubmitPrompt => EffectView::SubmitPrompt,
    }
}

/// The interface after a command, and what else the command does. Quitting
/// also stops the busy state; toggling reasoning flips it; each command sets
/// the status line it names. A session switch and a model switch, the
/// configuration panel, onboarding and a plain prompt leave the status line
/// to what follows them.
pub open spec fn command_next(ui: CommandUiView, c: CommandChoice) -> (CommandUiView, EffectView) {
    match c {
        CommandChoice::Exit => (
            CommandUiView { busy: false, should_quit: true, status_message: "Exiting"@, ..ui },
            EffectView::Quit,
        ),
        CommandChoice::Status => (CommandUiView { status_message: "Session status shown"@, ..ui }, EffectView::ShowStatus),
        CommandChoice::Configure => (ui, EffectView::StartOnboarding),
        CommandChoice::ListSessions => (CommandUiView { status_message: "Listing sessions"@, ..ui }, EffectView::ListSessions),
        CommandChoice::ListSkills => (CommandUiView { status_message: "Listing skills"@, ..ui }, EffectView::ListSkills),
        CommandChoice::Thinking => (
            CommandUiView { status_message: "Thinking options shown"@, ..ui },
            EffectView::ShowThinking,
        ),
        CommandChoice::ToggleReasoning => (
            CommandUiView {
                show_reasoning: !ui.show_reasoning,
                status_message: if !ui.show_reasoning {
                    "Reasoning blocks expanded"@
                } else {
                    "Reasoning blocks collapsed"@
                },
                ..ui
            },
            EffectView::Nothing,
        ),
        CommandChoice::ShowConfig => (ui, EffectView::ShowConfig),
        CommandChoice::NewSession => (
            CommandUiView { status_message: "New session ready; send a prompt to start it"@, ..ui },
            EffectView::NewSession,
        ),
        CommandChoice::RenameSession(t) => (
            CommandUiView { status_message: "Renaming current session"@, ..ui },
            EffectView::RenameSession(t),
        ),
        CommandChoice::SwitchSession(t) => (ui, EffectView::SwitchSession(t)),
        CommandChoice::SessionArgument(t) => (ui, EffectView::SwitchSession(t)),
        CommandChoice::ShowModels => (CommandUiView { status_message: "Model switcher shown"@, ..ui }, EffectView::ShowModels),
        CommandChoice::SetModel(m) => (ui, EffectView::SwitchModel(m)),
        CommandChoice::Usage(u) => (ui, EffectView::Fail(u)),
        CommandChoice::Prompt => (ui, EffectView::SubmitPrompt),
    }
}

/// Runs a parsed command against the interface's state.
pub fn run_command(ui: &mut CommandUi, command: SlashCommand) -> (r: CommandEffect)
    ensures
        (final(ui)@, effect_view(r)) == command_next(old(ui)@, command_view(command)),
{
    match command {
        SlashCommand::Exit => {
            ui.busy = false;
            ui.should_quit = true;
            ui.status_message = "Exiting".to_owned();
            CommandEffect::Quit
        },
        SlashCommand::Status => {
            ui.status_message = "Session status shown".to_owned();
            CommandEffect::ShowStatus
        },
        SlashCommand::Configure => CommandEffect::StartOnboarding,
        SlashCommand::ListSessions => {
            ui.status_message = "Listing sessions".to_owned();
            CommandEffect::ListSessions
        },
        SlashCommand::ListSkills => {
            ui.status_message = "Listing skills".to_owned();
            CommandEffect::ListSkills
        },
        SlashCommand::Thinking => {
            ui.status_message = "Thinking options shown".to_owned();
            CommandEffect::ShowThinking
        },
        SlashCommand::ToggleReasoning => {
            ui.show_reasoning = !ui.show_reasoning;
            ui.status_message = if ui.show_reasoning {
                "Reasoning blocks expanded".to_owned()
            } else {
                "Reasoning blocks collapsed".to_owned()
            };
            CommandEffect::Nothing
        },
        SlashCommand::ShowConfig => CommandEffect::ShowConfig,
        SlashCommand::NewSession => {
            ui.status_message = "New session ready; send a prompt to start it".to_owned();
            CommandEffect::NewSession
        },
        SlashCommand::RenameSession(t) => {
            ui.status_message = "Renaming current session".to_owned();
            CommandEffect::RenameSession(t)
        },
        SlashCommand::SwitchSession(t) => CommandEffect::SwitchSession(t),
        SlashCommand::SessionArgument(t) => CommandEffect::SwitchSession(t),
        SlashCommand::ShowModels => {
            ui.status_message = "Model switcher shown".to_owned();
            CommandEffect::ShowModels
        },
        SlashCommand::SetModel(m) => CommandEffect::SwitchModel(m),
        SlashCommand::Usage(u) => CommandEffect::Fail(u),
        SlashCommand::Prompt => CommandEffect::SubmitPrompt,
    }
}

// ---------------------------------------------------------------- laws

/// The command word of a typed line: its first word after trimming.
pub open spec fn command_word(line: Seq<char>) -> Seq<char> {
    head_and_rest(trim(line)).0
}

/// Each command does what its entry in the command table says, whatever
/// follows it on the line: `/config` shows the configuration and only
/// `/configure` and `/onboard` start configuring; `/exit` quits, `/status`
/// shows the status, `/skills` lists skills, `/thinking` shows the thinking
/// modes and `/reasoning` toggles reasoning, and no other line does.
pub proof fn law_commands_do_what_their_names_say(line: Seq<char>)
    ensures
        (command_choice(line) is ShowConfig) <==> command_word(line) == "/config"@,
        (command_choice(line) is Configure) <==> (command_word(line) == "/configure"@ || command_word(line)
            == "/onboard"@),
        (command_choice(line) is Exit) <==> command_word(line) == "/exit"@,
        (command_choice(line) is Status) <==> command_word(line) == "/status"@,
        (command_choice(line) is ListSkills) <==> command_word(line) == "/skills"@,
        (command_choice(line) is Thinking) <==> command_word(line) == "/thinking"@,
        (command_choice(line) is ToggleReasoning) <==> command_word(line) == "/reasoning"@,
{
    reveal_strlit("/exit");
    reveal_strlit("/status");
    reveal_strlit("/configure");
    reveal_strlit("/onboard");
    reveal_strlit("/sessions");
    reveal_strlit("/skills");
    reveal_strlit("/thinking");
    reveal_strlit("/reasoning");
    reveal_strlit("/config");
    reveal_strlit("/new");
    reveal_strlit("/rename");
    reveal_strlit("/session");
    reveal_strlit("/model");
    assert("/exit"@.len() == 5 && "/new"@.len() == 4 && "/model"@.len() == 6);
    assert("/config"@.len() == 7 && "/status"@.len() == 7 && "/skills"@.len() == 7 && "/rename"@.len() == 7);
    assert("/onboard"@.len() == 8 && "/session"@.len() == 8);
    assert("/sessions"@.len() == 9 && "/thinking"@.len() == 9);
    assert("/configure"@.len() == 10 && "/reasoning"@.len() == 10);
    assert("/config"@ != "/status"@) by { assert("/config"@[1] != "/status"@[1]); }
    assert("/config"@ != "/skills"@) by { assert("/config"@[1] != "/skills"@[1]); }
    assert("/config"@ != "/rename"@) by { assert("/config"@[1] != "/rename"@[1]); }
    assert("/status"@ != "/skills"@) by { assert("/status"@[2] != "/skills"@[2]); }
    assert("/status"@ != "/rename"@) by { assert("/status"@[1] != "/rename"@[1]); }
    assert("/skills"@ != "/rename"@) by { assert("/skills"@[1] != "/rename"@[1]); }
    assert("/onboard"@ != "/session"@) by { assert("/onboard"@[1] != "/session"@[1]); }
    assert("/sessions"@ != "/thinking"@) by { assert("/sessions"@[1] != "/thinking"@[1]); }
    assert("/configure"@ != "/reasoning"@) by { assert("/configure"@[1] != "/reasoning"@[1]); }
    let w = command_word(line);
    let (_, argument) = head_and_rest(trim(line));
    if w == "/session"@ {
        lemma_session_choice_kinds(argument);
    }
}

proof fn lemma_session_choice_kinds(argument: Seq<char>)
    ensures
        !(session_choice(argument) is ShowConfig),
        !(session_choice(argument) is Configure),
        !(session_choice(argument) is Exit),
        !(session_choice(argument) is Status),
        !(session_choice(argument) is ListSkills),
        !(session_choice(argument) is Thinking),
        !(session_choice(argument) is ToggleReasoning),
{
}

} // verus!
