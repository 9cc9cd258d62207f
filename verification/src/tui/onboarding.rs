//! What a line submitted from the composer does while onboarding asks for a
//! model, a base URL or a key, and otherwise: a memory note, a command or a
//! prompt.
use vstd::prelude::*;

use crate::text::{chars_of, has_prefix, slice_chars, starts_with, string_of, trim, trim_chars, trim_start, trim_start_chars};
use crate::tui::transcript::push_str;

verus! {

/// What a submitted line does.
#[derive(Clone, Debug)]
pub enum Submission {
    /// A model name was asked for and the line is blank: ask again.
    ModelMissing,
    /// The model named, trimmed.
    ModelChosen(String),
    /// A base URL was asked for and the line is neither blank nor an
    /// `http://` or `https://` URL.
    BaseUrlRejected,
    /// The base URL given, trimmed; none for a blank line.
    BaseUrlChosen(Option<String>),
    /// The key given, trimmed; none for a blank line, which keeps a key
    /// already known.
    ApiKeyChosen(Option<String>),
    /// A note for the memory file: the text after `#`, trimmed.
    MemoryNote(String),
    /// A slash command.
    Command,
    /// A prompt for the model.
    Prompt,
}

/// What a submitted line does, by value.
pub enum SubmissionChoice {
    ModelMissing,
    ModelChosen(Seq<char>),
    BaseUrlRejected,
    BaseUrlChosen(Option<Seq<char>>),
    ApiKeyChosen(Option<Seq<char>>),
    MemoryNote(Seq<char>),
    Command,
    Prompt,
}

/// The value of a submission.
pub open spec fn submission_view(s: Submission) -> SubmissionChoice {
    match s {
        Submission::ModelMissing => SubmissionChoice::ModelMissing,
        Submission::ModelChosen(m) => SubmissionChoice::ModelChosen(m@),
        Submission::BaseUrlRejected => SubmissionChoice::BaseUrlRejected,
        Submission::BaseUrlChosen(u) => SubmissionChoice::BaseUrlChosen(
            match u {
                Some(v) => Some(v@),
                None => None,
            },
        ),
        Submission::ApiKeyChosen(k) => SubmissionChoice::ApiKeyChosen(
            match k {
                Some(v) => Some(v@),
                None => None,
            },
        ),
        Submission::MemoryNote(n) => SubmissionChoice::MemoryNote(n@),
        Submission::Command => SubmissionChoice::Command,
        Submission::Prompt => SubmissionChoice::Prompt,
    }
}

/// A base URL onboarding accepts: blank, or an `http://` or `https://` URL.
pub open spec fn base_url_ok(url: Seq<char>) -> bool {
    url.len() == 0 || starts_with(url, "http://"@) || starts_with(url, "https://"@)
}

/// A value where the trimmed line is not blank.
pub open spec fn nonblank(t: Seq<char>) -> Option<Seq<char>> {
    if t.len() == 0 {
        None
    } else {
        Some(t)
    }
}

/// What a submitted line does: the pending onboarding question takes it
/// first (model, then base URL, then key); otherwise a line starting with
/// `#` is a memory note, one starting with `/` a command, and anything else
/// a prompt.
pub open spec fn submission_choice(
    custom_model_pending: bool,
    base_url_pending: bool,
    api_key_pending: bool,
    prompt: Seq<char>,
) -> SubmissionChoice {
    let t = trim(prompt);
    let s = trim_start(prompt);
    if custom_model_pending {
        if t.len() == 0 {
            SubmissionChoice::ModelMissing
        } else {
            SubmissionChoice::ModelChosen(t)
        }
    } else if base_url_pending {
        if base_url_ok(t) {
            SubmissionChoice::BaseUrlChosen(nonblank(t))
        } else {
            SubmissionChoice::BaseUrlRejected
        }
    } else if api_key_pending {
        SubmissionChoice::ApiKeyChosen(nonblank(t))
    } else if s.len() > 0 && s[0] == '#' {
        SubmissionChoice::MemoryNote(trim(s.drop_first()))
    } else if s.len() > 0 && s[0] == '/' {
        SubmissionChoice::Command
    } else {
        SubmissionChoice::Prompt
    }
}

fn nonblank_string(t: &[char]) -> (r: Option<String>)
    ensures
        match r {
            Some(v) => nonblank(t@) == Some(v@),
            None => nonblank(t@) is None,
        },
{
    if t.len() == 0 {
        None
    } else {
        Some(string_of(t))
    }
}

/// What a line submitted from the composer does.
pub fn classify_submission(
    custom_model_pending: bool,
    base_url_pending: bool,
    api_key_pending: bool,
    prompt: &str,
) -> (r: Submission)
    ensures
        submission_view(r) == submission_choice(custom_model_pending, base_url_pending, api_key_pending, prompt@),
{
    let c = chars_of(prompt);
    let t = trim_chars(c.as_slice());
    if custom_model_pending {
        if t.len() == 0 {
            return Submission::ModelMissing;
        }
        return Submission::ModelChosen(string_of(t.as_slice()));
    }
    if base_url_pending {
        let ok = t.len() == 0 || has_prefix(t.as_slice(), chars_of("http://").as_slice()) || has_prefix(
            t.as_slice(),
            chars_of("https://").as_slice(),
        );
        if ok {
            return Submission::BaseUrlChosen(nonblank_string(t.as_slice()));
        }
        return Submission::BaseUrlRejected;
    }
    if api_key_pending {
        return Submission::ApiKeyChosen(nonblank_string(t.as_slice()));
    }
    let s = trim_start_chars(c.as_slice());
    if s.len() > 0 && s[0] == '#' {
        let rest = slice_chars(s.as_slice(), 1, s.len());
        assert(rest@ =~= s@.drop_first());
        Submission::MemoryNote(string_of(trim_chars(rest.as_slice()).as_slice()))
    } else if s.len() > 0 && s[0] == '/' {
        Submission::Command
    } else {
        Submission::Prompt
    }
}

/// Some candidate exists.
pub open spec fn exists_any(exists: Seq<bool>) -> bool {
    exists|i: int| 0 <= i < exists.len() && exists[i]
}

/// Which memory file a note goes to: the first candidate that exists, else
/// the first candidate, which is then created.
pub fn memory_target(exists: &[bool]) -> (r: usize)
    ensures
        exists_any(exists@) ==> r < exists.len() && exists@[r as int] && forall|k: int| 0 <= k < r ==> !exists@[k],
        !exists_any(exists@) ==> r == 0,
{
    let mut i: usize = 0;
    while i < exists.len()
        invariant
            i <= exists.len(),
            forall|k: int| 0 <= k < i ==> !exists@[k],
        decreases exists.len() - i,
    {
        if exists[i] {
            return i;
        }
        i += 1;
    }
    0
}

/// The line a memory note adds to the memory file: a bullet.
pub fn memory_line(note: &str) -> (r: String)
    ensures
        r@ == "- "@ + note@ + "\n"@,
{
    let mut v = chars_of("- ");
    push_str(&mut v, note);
    push_str(&mut v, "\n");
    string_of(v.as_slice())
}

} // verus!
