//! Why a patch could not be parsed or applied.
use vstd::prelude::*;

use crate::text::{chars_of, decimal, extend_chars, push_decimal, string_of};

verus! {

/// How closely a hunk's lines must match the file's lines.
#[derive(Debug, Clone, Copy, PartialEq, Eq, Structural)]
pub enum MatchMode {
    Exact,
    Trimmed,
    NormalizedWhitespace,
}

/// Reasons a patch is rejected.
#[derive(Debug, Clone, PartialEq, Eq)]
pub enum PatchError {
    /// The first line is neither `*** Begin Patch` nor a file header.
    MissingStartHeader,
    /// A line where a file operation header was expected.
    UnexpectedHeader(String),
    /// The patch names no file operation.
    NoOperations,
    /// A wrapped patch lacks its `*** End Patch` line.
    MissingEndPatch,
    /// A line of an added file that does not start with `+`.
    AddLineWithoutPlus(String),
    /// A changed line before the first `@@` header.
    LineBeforeHunkHeader,
    /// A hunk line with an unknown first character.
    UnsupportedHunkLine(String),
    /// An update without any `@@` header.
    NoHunks,
    /// The hunk's lines were not found; the closest partial match is given.
    ContextNotFound {
        mode: MatchMode,
        start: usize,
        mismatch_at: usize,
        expected: String,
        actual: String,
    },
    /// The hunk's lines were not found and no line of it matched anywhere.
    NoPartialMatch,
    /// A file path that is not relative.
    AbsolutePath,
}

/// The meaning of a [`PatchError`].
pub enum ErrorModel {
    MissingStartHeader,
    UnexpectedHeader(Seq<char>),
    NoOperations,
    MissingEndPatch,
    AddLineWithoutPlus(Seq<char>),
    LineBeforeHunkHeader,
    UnsupportedHunkLine(Seq<char>),
    NoHunks,
    ContextNotFound {
        mode: MatchMode,
        start: int,
        mismatch_at: int,
        expected: Seq<char>,
        actual: Seq<char>,
    },
    NoPartialMatch,
    AbsolutePath,
}

impl View for PatchError {
    type V = ErrorModel;

    open spec fn view(&self) -> ErrorModel {
        match self {
            PatchError::MissingStartHeader => ErrorModel::MissingStartHeader,
            PatchError::UnexpectedHeader(l) => ErrorModel::UnexpectedHeader(l@),
            PatchError::NoOperations => ErrorModel::NoOperations,
            PatchError::MissingEndPatch => ErrorModel::MissingEndPatch,
            PatchError::AddLineWithoutPlus(l) => ErrorModel::AddLineWithoutPlus(l@),
            PatchError::LineBeforeHunkHeader => ErrorModel::LineBeforeHunkHeader,
            PatchError::UnsupportedHunkLine(l) => ErrorModel::UnsupportedHunkLine(l@),
            PatchError::NoHunks => ErrorModel::NoHunks,
            PatchError::ContextNotFound { mode, start, mismatch_at, expected, actual } =>
                ErrorModel::ContextNotFound {
                    mode: *mode,
                    start: *start as int,
                    mismatch_at: *mismatch_at as int,
                    expected: expected@,
                    actual: actual@,
                },
            PatchError::NoPartialMatch => ErrorModel::NoPartialMatch,
            PatchError::AbsolutePath => ErrorModel::AbsolutePath,
        }
    }
}

/// View of a result whose error is a [`PatchError`].
pub open spec fn err_view<T>(r: Result<T, PatchError>) -> Option<ErrorModel> {
    match r {
        Ok(_) => None,
        Err(e) => Some(e@),
    }
}


/// What `{:?}` prints for a string: the text quoted, with escapes.
pub uninterp spec fn debug_str(s: Seq<char>) -> Seq<char>;

/// `format!("{s:?}")` for a string slice.
#[verifier::external_body]
fn debug_quoted(s: &str) -> (r: String)
    ensures
        r@ == debug_str(s@),
{
    format!("{s:?}")
}

/// What `{:?}` prints for a match mode.
pub open spec fn mode_name(mode: MatchMode) -> Seq<char> {
    match mode {
        MatchMode::Exact => "Exact"@,
        MatchMode::Trimmed => "Trimmed"@,
        MatchMode::NormalizedWhitespace => "NormalizedWhitespace"@,
    }
}

/// The human-readable message of an error.
pub open spec fn message(e: ErrorModel) -> Seq<char> {
    match e {
        ErrorModel::MissingStartHeader => "patch must start with *** Begin Patch or a file operation header"@,
        ErrorModel::UnexpectedHeader(l) => "expected file operation header, got: "@ + l,
        ErrorModel::NoOperations => "no patch operations found"@,
        ErrorModel::MissingEndPatch => "patch must end with *** End Patch"@,
        ErrorModel::AddLineWithoutPlus(l) => "add file lines must start with +, got: "@ + l,
        ErrorModel::LineBeforeHunkHeader => "encountered patch lines before a hunk header"@,
        ErrorModel::UnsupportedHunkLine(l) => "unsupported hunk line: "@ + l,
        ErrorModel::NoHunks => "no hunks found"@,
        ErrorModel::ContextNotFound { mode, start, mismatch_at, expected, actual } =>
            "failed to locate hunk context; closest "@ + mode_name(mode) + " match started at old_lines["@
                + decimal(start as nat) + "], mismatch at hunk line "@ + decimal(mismatch_at as nat)
                + ": expected "@ + debug_str(expected) + ", got "@ + debug_str(actual),
        ErrorModel::NoPartialMatch => "failed to locate hunk context in source file; no partial match found"@,
        ErrorModel::AbsolutePath => "file references can only be relative, NEVER ABSOLUTE."@,
    }
}

fn text_then(prefix: &str, rest: &String) -> (r: String)
    ensures
        r@ == prefix@ + rest@,
{
    let mut v = chars_of(prefix);
    extend_chars(&mut v, chars_of(rest.as_str()).as_slice());
    string_of(v.as_slice())
}

impl PatchError {
    /// The human-readable message of the error.
    pub fn to_string(&self) -> (r: String)
        ensures
            r@ == message(self@),
    {
        match self {
            PatchError::MissingStartHeader => string_of(
                chars_of("patch must start with *** Begin Patch or a file operation header").as_slice(),
            ),
            PatchError::UnexpectedHeader(l) => text_then("expected file operation header, got: ", l),
            PatchError::NoOperations => string_of(chars_of("no patch operations found").as_slice()),
            PatchError::MissingEndPatch => string_of(chars_of("patch must end with *** End Patch").as_slice()),
            PatchError::AddLineWithoutPlus(l) => text_then("add file lines must start with +, got: ", l),
            PatchError::LineBeforeHunkHeader => string_of(
                chars_of("encountered patch lines before a hunk header").as_slice(),
            ),
            PatchError::UnsupportedHunkLine(l) => text_then("unsupported hunk line: ", l),
            PatchError::NoHunks => string_of(chars_of("no hunks found").as_slice()),
            PatchError::ContextNotFound { mode, start, mismatch_at, expected, actual } => {
                let mut v = chars_of("failed to locate hunk context; closest ");
                let name = match mode {
                    MatchMode::Exact => "Exact",
                    MatchMode::Trimmed => "Trimmed",
                    MatchMode::NormalizedWhitespace => "NormalizedWhitespace",
                };
                extend_chars(&mut v, chars_of(name).as_slice());
                extend_chars(&mut v, chars_of(" match started at old_lines[").as_slice());
                push_decimal(&mut v, *start);
                extend_chars(&mut v, chars_of("], mismatch at hunk line ").as_slice());
                push_decimal(&mut v, *mismatch_at);
                extend_chars(&mut v, chars_of(": expected ").as_slice());
                extend_chars(&mut v, chars_of(debug_quoted(expected.as_str()).as_str()).as_slice());
                extend_chars(&mut v, chars_of(", got ").as_slice());
                extend_chars(&mut v, chars_of(debug_quoted(actual.as_str()).as_str()).as_slice());
                string_of(v.as_slice())
            },
            PatchError::NoPartialMatch => string_of(
                chars_of("failed to locate hunk context in source file; no partial match found").as_slice(),
            ),
            PatchError::AbsolutePath => string_of(
                chars_of("file references can only be relative, NEVER ABSOLUTE.").as_slice(),
            ),
        }
    }
}

} // verus!
