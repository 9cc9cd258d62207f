//! Data model of a parsed patch.
use vstd::prelude::*;

verus! {

/// What a patch does to one file.
#[derive(Debug, Clone, Copy, PartialEq, Eq, Structural)]
pub enum PatchKind {
    Add,
    Update,
    Delete,
    Move,
}

impl PatchKind {
    /// The lower-case name of the change kind.
    pub open spec fn name(self) -> Seq<char> {
        match self {
            PatchKind::Add => "add"@,
            PatchKind::Update => "update"@,
            PatchKind::Delete => "delete"@,
            PatchKind::Move => "move"@,
        }
    }

    /// The lower-case name of the change kind.
    pub fn as_str(self) -> (r: &'static str)
        ensures
            r@ == self.name(),
    {
        match self {
            Self::Add => "add",
            Self::Update => "update",
            Self::Delete => "delete",
            Self::Move => "move",
        }
    }
}

/// One line of a hunk: kept, added or removed.
#[derive(Debug, Clone, PartialEq, Eq)]
pub enum HunkLine {
    Context(String),
    Add(String),
    Remove(String),
}

/// The meaning of a [`HunkLine`].
pub enum LineModel {
    Context(Seq<char>),
    Add(Seq<char>),
    Remove(Seq<char>),
}

impl View for HunkLine {
    type V = LineModel;

    open spec fn view(&self) -> LineModel {
        match self {
            HunkLine::Context(t) => LineModel::Context(t@),
            HunkLine::Add(t) => LineModel::Add(t@),
            HunkLine::Remove(t) => LineModel::Remove(t@),
        }
    }
}

/// A block of changed lines introduced by an `@@` header.
#[derive(Debug, Clone)]
pub struct PatchHunk {
    pub lines: Vec<HunkLine>,
}

impl View for PatchHunk {
    type V = Seq<LineModel>;

    open spec fn view(&self) -> Seq<LineModel> {
        self.lines@.map_values(|l: HunkLine| l@)
    }
}

/// Views of a list of hunks.
pub open spec fn hunks_view(hunks: Seq<PatchHunk>) -> Seq<Seq<LineModel>> {
    hunks.map_values(|h: PatchHunk| h@)
}

/// One file operation of a patch.
#[derive(Debug, Clone)]
pub struct PatchChange {
    pub path: String,
    pub move_path: Option<String>,
    pub content: String,
    pub hunks: Vec<PatchHunk>,
    pub kind: PatchKind,
}

/// The meaning of a [`PatchChange`].
pub struct ChangeModel {
    pub path: Seq<char>,
    pub move_path: Option<Seq<char>>,
    pub content: Seq<char>,
    pub hunks: Seq<Seq<LineModel>>,
    pub kind: PatchKind,
}

/// View of an optional string.
pub open spec fn opt_view(o: Option<String>) -> Option<Seq<char>> {
    match o {
        Some(s) => Some(s@),
        None => None,
    }
}

impl View for PatchChange {
    type V = ChangeModel;

    open spec fn view(&self) -> ChangeModel {
        ChangeModel {
            path: self.path@,
            move_path: opt_view(self.move_path),
            content: self.content@,
            hunks: hunks_view(self.hunks@),
            kind: self.kind,
        }
    }
}

/// Views of a list of changes.
pub open spec fn changes_view(changes: Seq<PatchChange>) -> Seq<ChangeModel> {
    changes.map_values(|c: PatchChange| c@)
}

} // verus!
