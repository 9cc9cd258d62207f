//! A session's title and where it came from: set when the session is
//! created, guessed from the first prompt, generated by the model, or given
//! by the user; a title the user or the creator chose, or one generated,
//! stays.
use vstd::prelude::*;

use crate::server::protocol::{ProtocolErrorCode, Refusal};
use crate::text::{chars_of, string_of, trim, trim_chars};
use crate::tui::provider::opt_view;

verus! {

/// Who fixed a final title.
#[derive(Clone, Copy, Debug, PartialEq, Eq, Structural)]
pub enum TitleSource {
    ExplicitCreate,
    UserRename,
    ModelGenerated,
}

/// How settled a session's title is.
#[derive(Clone, Copy, Debug, PartialEq, Eq, Structural)]
pub enum TitleState {
    Unset,
    Provisional,
    Final(TitleSource),
}

/// A session's title and how settled it is.
#[derive(Clone, Debug)]
pub struct SessionTitle {
    pub title: Option<String>,
    pub state: TitleState,
}

/// A session's title, by value.
pub open spec fn title_view(t: SessionTitle) -> (Option<Seq<char>>, TitleState) {
    (opt_view(t.title), t.state)
}

/// The title of a new session: a title given at creation is final.
pub fn initial_title(title: Option<String>) -> (r: SessionTitle)
    ensures
        title_view(r) == (opt_view(title), if title is Some {
            TitleState::Final(TitleSource::ExplicitCreate)
        } else {
            TitleState::Unset
        }),
{
    let state = match &title {
        Some(_) => TitleState::Final(TitleSource::ExplicitCreate),
        None => TitleState::Unset,
    };
    SessionTitle { title, state }
}

/// A guess from the first prompt applies only while no title is set.
pub open spec fn takes_provisional(t: (Option<Seq<char>>, TitleState)) -> bool {
    t.0 is None && t.1 == TitleState::Unset
}

/// Sets the title guessed from the first prompt, where no title is set yet.
/// Says whether it did.
pub fn assign_provisional_title(t: &mut SessionTitle, candidate: &str) -> (r: bool)
    ensures
        r == takes_provisional(title_view(*old(t))),
        title_view(*final(t)) == if r {
            (Some(candidate@), TitleState::Provisional)
        } else {
            title_view(*old(t))
        },
{
    if t.title.is_none() && t.state == TitleState::Unset {
        t.title = Some(candidate.to_owned());
        t.state = TitleState::Provisional;
        true
    } else {
        false
    }
}

/// A generated title may replace the title: the title is not final.
pub open spec fn takes_generated(state: TitleState) -> bool {
    !(state is Final)
}

/// Whether the model should be asked for a title.
pub fn may_generate_title(state: TitleState) -> (r: bool)
    ensures
        r == takes_generated(state),
{
    match state {
        TitleState::Final(_) => false,
        _ => true,
    }
}

/// Sets the title the model generated, where the title is not final. Says
/// whether it did.
pub fn assign_generated_title(t: &mut SessionTitle, generated: &str) -> (r: bool)
    ensures
        r == takes_generated(old(t).state),
        title_view(*final(t)) == if r {
            (Some(generated@), TitleState::Final(TitleSource::ModelGenerated))
        } else {
            title_view(*old(t))
        },
{
    if may_generate_title(t.state) {
        t.title = Some(generated.to_owned());
        t.state = TitleState::Final(TitleSource::ModelGenerated);
        true
    } else {
        false
    }
}

/// Renames the session to the trimmed title, which then is final; a blank
/// title is refused and changes nothing.
pub fn rename_title(t: &mut SessionTitle, new_title: &str) -> (r: Result<(), Refusal>)
    ensures
        r is Ok <==> trim(new_title@).len() > 0,
        match r {
            Ok(()) => title_view(*final(t)) == (Some(trim(new_title@)), TitleState::Final(TitleSource::UserRename)),
            Err(e) => title_view(*final(t)) == title_view(*old(t)) && e.code == ProtocolErrorCode::InvalidParams
                && e.message@ == "session title cannot be empty"@,
        },
{
    let trimmed = trim_chars(chars_of(new_title).as_slice());
    if trimmed.len() == 0 {
        return Err(Refusal { code: ProtocolErrorCode::InvalidParams, message: "session title cannot be empty" });
    }
    t.title = Some(string_of(trimmed.as_slice()));
    t.state = TitleState::Final(TitleSource::UserRename);
    Ok(())
}

/// The title of a fork: the requested title, else the source's; the
/// source's state either way.
pub fn forked_title(requested: Option<String>, source: &SessionTitle) -> (r: SessionTitle)
    ensures
        title_view(r) == (
            match requested {
                Some(s) => Some(s@),
                None => opt_view(source.title),
            },
            source.state,
        ),
{
    let title = match requested {
        Some(s) => Some(s),
        None => match &source.title {
            Some(s) => Some(s.clone()),
            None => None,
        },
    };
    SessionTitle { title, state: source.state }
}

// ---------------------------------------------------------------- laws

/// Once a title is final, neither a guess from the prompt nor a generated
/// title replaces it; only a rename does.
pub proof fn law_final_title_stays(t: (Option<Seq<char>>, TitleState))
    requires
        t.1 is Final,
    ensures
        !takes_provisional(t),
        !takes_generated(t.1),
{
}

/// A guessed title is set at most once: after it, a second guess changes
/// nothing.
pub proof fn law_provisional_once(candidate: Seq<char>)
    ensures
        !takes_provisional((Some(candidate), TitleState::Provisional)),
{
}

} // verus!
