//! What an `apply_patch` request does, apart from reading and writing files:
//! which requests are refused, what each change turns a file into, and the
//! report of the changes.
use vstd::prelude::*;

use crate::ls::ToolOutput;
use crate::patch::apply::{apply_hunks, patched_text, text_view};
use crate::patch::error::{ErrorModel, PatchError};
use crate::patch::parse::{parse_patch, parse_view, parsed_patch};
use crate::patch::paths::{relative_worktree_path, resolve_relative, resolved, worktree_relative};
use crate::patch::types::{changes_view, ChangeModel, PatchChange, PatchKind};
use crate::text::{
    chars_eq, chars_of, extend_chars, join, join_chars, lines, lines_of, normalize_newlines,
    normalize_newlines_chars, string_of, trim, trim_chars, views,
};

verus! {

// ---------------------------------------------------------------- request

/// A patch request after its text is checked: the changes to make, or the
/// answer that refuses it.
#[derive(Debug, Clone)]
pub enum PatchRequest {
    Changes(Vec<PatchChange>),
    Rejected(ToolOutput),
}

/// The meaning of a [`PatchRequest`].
pub enum RequestModel {
    Changes(Seq<ChangeModel>),
    Rejected(Seq<char>),
}

/// The text of an empty wrapped patch.
pub open spec fn empty_patch_text() -> Seq<char> {
    "*** Begin Patch\n*** End Patch"@
}

/// How a request is answered before any file is touched: a blank text is
/// refused, an unparsable one fails, a patch without changes is refused
/// (with its own message when it is an empty wrapped patch), and anything
/// else yields its changes.
pub open spec fn request_outcome(text: Seq<char>) -> Result<RequestModel, ErrorModel> {
    if trim(text).len() == 0 {
        Ok(RequestModel::Rejected("patchText is required"@))
    } else {
        match parsed_patch(text) {
            Err(e) => Err(e),
            Ok(cs) => if cs.len() == 0 {
                if trim(normalize_newlines(text)) == empty_patch_text() {
                    Ok(RequestModel::Rejected("patch rejected: empty patch"@))
                } else {
                    Ok(RequestModel::Rejected("apply_patch verification failed: no hunks found"@))
                }
            } else {
                Ok(RequestModel::Changes(cs))
            },
        }
    }
}

/// View of the result of [`check_patch_request`].
pub open spec fn request_view(r: Result<PatchRequest, PatchError>) -> Result<RequestModel, ErrorModel> {
    match r {
        Ok(PatchRequest::Changes(cs)) => Ok(RequestModel::Changes(changes_view(cs@))),
        Ok(PatchRequest::Rejected(out)) => Ok(RequestModel::Rejected(out.content@)),
        Err(e) => Err(e@),
    }
}

/// Checks the text of a patch request and parses it.
pub fn check_patch_request(patch_text: &str) -> (r: Result<PatchRequest, PatchError>)
    ensures
        request_view(r) == request_outcome(patch_text@),
        r matches Ok(PatchRequest::Rejected(out)) ==> out.is_error,
{
    let text = chars_of(patch_text);
    if trim_chars(text.as_slice()).len() == 0 {
        return Ok(PatchRequest::Rejected(ToolOutput::error("patchText is required")));
    }
    let parsed = parse_patch(patch_text);
    let changes = match parsed {
        Ok(cs) => cs,
        Err(e) => {
            return Err(e);
        },
    };
    if changes.len() == 0 {
        let normalized = trim_chars(normalize_newlines_chars(text.as_slice()).as_slice());
        if chars_eq(normalized.as_slice(), chars_of("*** Begin Patch\n*** End Patch").as_slice()) {
            return Ok(PatchRequest::Rejected(ToolOutput::error("patch rejected: empty patch")));
        }
        return Ok(PatchRequest::Rejected(ToolOutput::error("apply_patch verification failed: no hunks found")));
    }
    Ok(PatchRequest::Changes(changes))
}

// ---------------------------------------------------------------- changes

/// What one change amounts to, once the file it reads is known.
#[derive(Debug, Clone)]
pub struct ChangePlan {
    pub source_path: String,
    pub target_path: Option<String>,
    pub new_content: String,
    pub additions: usize,
    pub deletions: usize,
    pub relative_path: String,
    pub kind: PatchKind,
    pub diff: String,
    pub summary: String,
}

/// The meaning of a [`ChangePlan`].
pub struct PlanModel {
    pub source_path: Seq<char>,
    pub target_path: Option<Seq<char>>,
    pub new_content: Seq<char>,
    pub additions: nat,
    pub deletions: nat,
    pub relative_path: Seq<char>,
    pub kind: PatchKind,
    pub diff: Seq<char>,
    pub summary: Seq<char>,
}

impl View for ChangePlan {
    type V = PlanModel;

    open spec fn view(&self) -> PlanModel {
        PlanModel {
            source_path: self.source_path@,
            target_path: match self.target_path {
                Some(t) => Some(t@),
                None => None,
            },
            new_content: self.new_content@,
            additions: self.additions as nat,
            deletions: self.deletions as nat,
            relative_path: self.relative_path@,
            kind: self.kind,
            diff: self.diff@,
            summary: self.summary@,
        }
    }
}

/// The file's text before the change: nothing for an added file.
pub open spec fn before_text(kind: PatchKind, old: Seq<char>) -> Seq<char> {
    if kind == PatchKind::Add {
        Seq::empty()
    } else {
        old
    }
}

/// The file's text after the change.
pub open spec fn after_text(c: ChangeModel, old: Seq<char>) -> Result<Seq<char>, ErrorModel> {
    match c.kind {
        PatchKind::Add => Ok(c.content),
        PatchKind::Update | PatchKind::Move => patched_text(old, c.hunks),
        PatchKind::Delete => Ok(Seq::empty()),
    }
}

/// The report line of a change: `A`, `D` or `M`, then the path relative to
/// the working directory (the destination, for a move).
pub open spec fn summary_line(kind: PatchKind, source_rel: Seq<char>, shown_rel: Seq<char>) -> Seq<char> {
    match kind {
        PatchKind::Add => "A "@ + source_rel,
        PatchKind::Delete => "D "@ + source_rel,
        PatchKind::Update | PatchKind::Move => "M "@ + shown_rel,
    }
}

/// The plan of change `c` under working directory `cwd`, given the text `old`
/// of the file it reads: both paths must be relative, and the hunks must
/// apply.
pub open spec fn planned(cwd: Seq<char>, c: ChangeModel, old: Seq<char>) -> Result<PlanModel, ErrorModel> {
    match resolved(cwd, c.path) {
        None => Err(ErrorModel::AbsolutePath),
        Some(source) => {
            let target: Result<Option<Seq<char>>, ErrorModel> = match c.move_path {
                None => Ok(None),
                Some(m) => match resolved(cwd, m) {
                    None => Err(ErrorModel::AbsolutePath),
                    Some(t) => Ok(Some(t)),
                },
            };
            match target {
                Err(e) => Err(e),
                Ok(target) => {
                    let base = before_text(c.kind, old);
                    match after_text(c, base) {
                        Err(e) => Err(e),
                        Ok(new) => {
                            let shown = match target {
                                Some(t) => t,
                                None => source,
                            };
                            let rel = worktree_relative(shown, cwd);
                            Ok(
                                PlanModel {
                                    source_path: source,
                                    target_path: target,
                                    new_content: new,
                                    additions: lines(new).len(),
                                    deletions: lines(base).len(),
                                    relative_path: rel,
                                    kind: c.kind,
                                    diff: "--- "@ + rel + "\n+++ "@ + rel + "\n"@,
                                    summary: summary_line(c.kind, worktree_relative(source, cwd), rel),
                                },
                            )
                        },
                    }
                },
            }
        },
    }
}

/// View of a result whose value is a [`ChangePlan`].
pub open spec fn plan_view(r: Result<ChangePlan, PatchError>) -> Result<PlanModel, ErrorModel> {
    match r {
        Ok(p) => Ok(p@),
        Err(e) => Err(e@),
    }
}

/// The paths a change reads and writes: its file, and its destination for a
/// move, both resolved against `cwd`.
pub fn change_paths(cwd: &str, change: &PatchChange) -> (r: Result<(String, Option<String>), PatchError>)
    ensures
        match r {
            Ok((s, t)) => resolved(cwd@, change.path@) == Some(s@) && match change.move_path {
                None => t is None,
                Some(m) => t matches Some(tt) && resolved(cwd@, m@) == Some(tt@),
            },
            Err(e) => e == PatchError::AbsolutePath && (resolved(cwd@, change.path@) is None || (
            change.move_path matches Some(m) && resolved(cwd@, m@) is None)),
        },
{
    let source = match resolve_relative(cwd, change.path.as_str()) {
        Ok(s) => s,
        Err(e) => {
            return Err(e);
        },
    };
    let target = match &change.move_path {
        None => None,
        Some(m) => match resolve_relative(cwd, m.as_str()) {
            Ok(t) => Some(t),
            Err(e) => {
                return Err(e);
            },
        },
    };
    Ok((source, target))
}

fn count_lines(s: &str) -> (r: usize)
    ensures
        r == lines(s@).len(),
{
    let ls = lines_of(chars_of(s).as_slice());
    assert(views(ls@).len() == ls@.len());
    ls.len()
}

/// What one change amounts to, given the current text of the file it reads
/// (ignored for an added file).
pub fn plan_change(cwd: &str, change: &PatchChange, old_content: &str) -> (r: Result<ChangePlan, PatchError>)
    ensures
        plan_view(r) == planned(cwd@, change@, old_content@),
{
    let (source, target) = match change_paths(cwd, change) {
        Ok(p) => p,
        Err(e) => {
            return Err(e);
        },
    };
    let base: &str = if change.kind == PatchKind::Add {
        ""
    } else {
        old_content
    };
    proof {
        reveal_strlit("");
    }
    let new_content = match change.kind {
        PatchKind::Add => change.content.as_str().to_owned(),
        PatchKind::Update | PatchKind::Move => match apply_hunks(base, change.hunks.as_slice()) {
            Ok(t) => t,
            Err(e) => {
                return Err(e);
            },
        },
        PatchKind::Delete => String::new(),
    };
    let additions = count_lines(new_content.as_str());
    let deletions = count_lines(base);
    let shown: &str = match &target {
        Some(t) => t.as_str(),
        None => source.as_str(),
    };
    let relative_path = relative_worktree_path(shown, cwd);
    let mut diff = chars_of("--- ");
    extend_chars(&mut diff, chars_of(relative_path.as_str()).as_slice());
    extend_chars(&mut diff, chars_of("\n+++ ").as_slice());
    extend_chars(&mut diff, chars_of(relative_path.as_str()).as_slice());
    extend_chars(&mut diff, chars_of("\n").as_slice());
    let summary = match change.kind {
        PatchKind::Add => {
            let mut v = chars_of("A ");
            extend_chars(&mut v, chars_of(relative_worktree_path(source.as_str(), cwd).as_str()).as_slice());
            v
        },
        PatchKind::Delete => {
            let mut v = chars_of("D ");
            extend_chars(&mut v, chars_of(relative_worktree_path(source.as_str(), cwd).as_str()).as_slice());
            v
        },
        PatchKind::Update | PatchKind::Move => {
            let mut v = chars_of("M ");
            extend_chars(&mut v, chars_of(relative_path.as_str()).as_slice());
            v
        },
    };
    Ok(
        ChangePlan {
            source_path: source,
            target_path: target,
            new_content,
            additions,
            deletions,
            relative_path,
            kind: change.kind,
            diff: string_of(diff.as_slice()),
            summary: string_of(summary.as_slice()),
        },
    )
}

// ---------------------------------------------------------------- report

/// The summary lines of the plans.
pub open spec fn plan_summaries(plans: Seq<ChangePlan>) -> Seq<Seq<char>> {
    plans.map_values(|p: ChangePlan| p.summary@)
}

/// The diffs of the plans, each followed by a blank line.
pub open spec fn combined_diff(plans: Seq<ChangePlan>) -> Seq<char>
    decreases plans.len(),
{
    if plans.len() == 0 {
        Seq::empty()
    } else {
        combined_diff(plans.drop_last()) + plans.last().diff@ + "\n"@
    }
}

/// The answer to a patch that was applied: the files it changed, one per
/// line.
pub open spec fn success_text(plans: Seq<ChangePlan>) -> Seq<char> {
    "Success. Updated the following files:\n"@ + join(plan_summaries(plans), seq!['\n'])
}

/// The answer to an applied patch, and the diff of all its changes.
pub fn patch_report(plans: &[ChangePlan]) -> (r: (ToolOutput, String))
    ensures
        r.0.content@ == success_text(plans@),
        !r.0.is_error,
        r.0.metadata is None,
        r.1@ == combined_diff(plans@),
{
    let mut summaries: Vec<Vec<char>> = Vec::new();
    let mut diff: Vec<char> = Vec::new();
    let mut i: usize = 0;
    while i < plans.len()
        invariant
            i <= plans.len(),
            views(summaries@) == plan_summaries(plans@).take(i as int),
            diff@ == combined_diff(plans@.take(i as int)),
        decreases plans.len() - i,
    {
        let ghost before = summaries@;
        let s = chars_of(plans[i].summary.as_str());
        summaries.push(s);
        proof {
            crate::text::lemma_views_push(before, s);
            assert(views(summaries@) =~= plan_summaries(plans@).take((i + 1) as int));
            assert(plans@.take((i + 1) as int).drop_last() =~= plans@.take(i as int));
        }
        extend_chars(&mut diff, chars_of(plans[i].diff.as_str()).as_slice());
        extend_chars(&mut diff, chars_of("\n").as_slice());
        i += 1;
    }
    assert(plan_summaries(plans@).take(i as int) =~= plan_summaries(plans@));
    assert(plans@.take(i as int) =~= plans@);
    let mut content = chars_of("Success. Updated the following files:\n");
    let nl: Vec<char> = vec!['\n'];
    assert(nl@ =~= seq!['\n']);
    extend_chars(&mut content, join_chars(&summaries, nl.as_slice()).as_slice());
    (ToolOutput::success(string_of(content.as_slice()).as_str()), string_of(diff.as_slice()))
}

} // verus!
