use lpagent::patch::hunk_match::{normalize_whitespace, normalized_lines};
use lpagent::patch::apply::apply_hunks;
use lpagent::patch::error::PatchError;
use lpagent::patch::parse::parse_patch;
use lpagent::patch::paths::{relative_worktree_path, resolve_relative};
use lpagent::patch::types::{HunkLine, PatchHunk, PatchKind};

#[test]
fn parse_patchsupports_all_change_kinds() {
    let patch = parse_patch(
        "*** Begin Patch
*** Add File: add.txt
+hello
*** Update File: update.txt
@@
-old
+new
*** Delete File: delete.txt
*** Update File: from.txt
*** Move to: to.txt
@@
-before
+after
*** End Patch",
    )
    .expect("parse patch");

    assert_eq!(patch.len(), 4);
    assert_eq!(patch[0].path, "add.txt");
    assert_eq!(patch[0].kind, PatchKind::Add);
    assert_eq!(patch[0].content, "hello\n");

    assert_eq!(patch[1].path, "update.txt");
    assert_eq!(patch[1].kind, PatchKind::Update);
    assert!(patch[1].content.is_empty());
    assert_eq!(patch[1].hunks.len(), 1);
    assert_eq!(
        patch[1].hunks[0].lines,
        vec![
            HunkLine::Remove("old".to_string()),
            HunkLine::Add("new".to_string())
        ]
    );

    assert_eq!(patch[2].path, "delete.txt");
    assert_eq!(patch[2].kind, PatchKind::Delete);

    assert_eq!(patch[3].path, "from.txt");
    assert_eq!(patch[3].move_path.as_deref(), Some("to.txt"));
    assert_eq!(patch[3].kind, PatchKind::Move);
    assert!(patch[3].content.is_empty());
    assert_eq!(patch[3].hunks.len(), 1);
    assert_eq!(
        patch[3].hunks[0].lines,
        vec![
            HunkLine::Remove("before".to_string()),
            HunkLine::Add("after".to_string())
        ]
    );
}

#[test]
fn parse_patch_tolerates_git_diff_headers_before_hunk() {
    let patch = parse_patch(
        "*** Begin Patch
*** Update File: read.rs
diff --git a/read.rs b/read.rs
index 1234567..89abcde 100644
--- a/read.rs
+++ b/read.rs
@@ -10,11 +10,6 @@ use serde_json::json;
 use crate::{Tool, ToolContext, ToolOutput};
 
 const DESCRIPTION: &str = include_str!(\"read.txt\");
-const MAX_LINE_LENGTH: usize = 2000;
+const MAX_BYTES: usize = 50 * 1024;
*** End Patch",
    )
    .expect("parse patch with git diff headers");

    assert_eq!(patch.len(), 1);
    assert_eq!(patch[0].path, "read.rs");
    assert_eq!(patch[0].kind, PatchKind::Update);
    assert_eq!(patch[0].hunks.len(), 1);
    assert_eq!(
        patch[0].hunks[0].lines,
        vec![
            HunkLine::Context("use crate::{Tool, ToolContext, ToolOutput};".to_string()),
            HunkLine::Context(String::new()),
            HunkLine::Context(
                "const DESCRIPTION: &str = include_str!(\"read.txt\");".to_string()
            ),
            HunkLine::Remove("const MAX_LINE_LENGTH: usize = 2000;".to_string()),
            HunkLine::Add("const MAX_BYTES: usize = 50 * 1024;".to_string()),
        ]
    );
}

#[test]
fn parse_patch_requires_end_marker() {
    let error = parse_patch(
        "*** Begin Patch
*** Update File: README.md
@@
 **If you find this project useful, please consider giving it a ⭐**
+Bye",
    )
    .expect_err("patch without end marker should fail");

    assert!(error.to_string().contains("*** End Patch"));
}

#[test]
fn parse_patch_rejects_surrounding_log_text() {
    let error = parse_patch(
        "request tool=\"apply_patch\"\ninput={...}\n*** Begin Patch
*** Update File: README.md
@@
 **If you find this project useful, please consider giving it a ⭐**
+Bye
*** End Patch",
    )
    .expect_err("surrounding log text should fail");

    assert!(error.to_string().contains("*** Begin Patch"));
}

#[test]
fn parse_patch_rejects_non_prefixed_add_file_content() {
    let error = parse_patch(
        "*** Begin Patch
*** Add File: hello.txt
hello
*** End Patch",
    )
    .expect_err("non-prefixed add content should fail");

    assert!(error.to_string().contains("must start with +"));
}

#[test]
fn apply_hunks_matches_trimmed_lines_without_rewriting_context_whitespace() {
    let old_content = "start\n  keep me  \nold\nend\n";
    let hunks = vec![PatchHunk {
        lines: vec![
            HunkLine::Context("start".to_string()),
            HunkLine::Context("keep me".to_string()),
            HunkLine::Remove("old".to_string()),
            HunkLine::Add("new".to_string()),
            HunkLine::Context("end".to_string()),
        ],
    }];

    let new_content = apply_hunks(old_content, &hunks).expect("apply hunks");

    assert_eq!(new_content, "start\n  keep me  \nnew\nend\n");
}

#[test]
fn apply_hunks_matches_lines_with_normalized_whitespace() {
    let old_content = "alpha   beta\nold value\nomega\n";
    let hunks = vec![PatchHunk {
        lines: vec![
            HunkLine::Context("alpha beta".to_string()),
            HunkLine::Remove("old value".to_string()),
            HunkLine::Add("new value".to_string()),
            HunkLine::Context("omega".to_string()),
        ],
    }];

    let new_content = apply_hunks(old_content, &hunks).expect("apply hunks");

    assert_eq!(new_content, "alpha   beta\nnew value\nomega\n");
}

#[test]
fn resolve_relative_rejects_absolute_paths() {
    let base = "C:\\workspace";
    let path = "/absolute/file.txt";

    let error = resolve_relative(base, path).expect_err("absolute path should fail");
    assert!(error.to_string().contains("NEVER ABSOLUTE"));
}

#[test]
fn resolve_relative_appends_named_components() {
    assert_eq!(resolve_relative("/work", "./a//b/../c.txt").unwrap(), "/work/a/b/../c.txt");
    assert_eq!(resolve_relative("/work/", "x").unwrap(), "/work/x");
    assert_eq!(resolve_relative("", "x/y").unwrap(), "x/y");
}

#[test]
fn relative_worktree_path_strips_base() {
    assert_eq!(relative_worktree_path("/work/moved/to.txt", "/work"), "moved/to.txt");
    assert_eq!(relative_worktree_path("/other/file.txt", "/work"), "/other/file.txt");
    assert_eq!(relative_worktree_path("a\\b", "/work"), "a/b");
}

#[test]
fn parse_patch_reports_each_error() {
    assert_eq!(parse_patch("hello").unwrap_err(), PatchError::MissingStartHeader);
    assert_eq!(parse_patch("*** Begin Patch\n*** End Patch").unwrap_err(), PatchError::NoOperations);
    assert_eq!(
        parse_patch("*** Begin Patch\nnonsense\n*** End Patch").unwrap_err(),
        PatchError::UnexpectedHeader("nonsense".to_string())
    );
    assert_eq!(
        parse_patch("*** Update File: a\n+x").unwrap_err(),
        PatchError::LineBeforeHunkHeader
    );
    assert_eq!(
        parse_patch("*** Update File: a\n@@\n?x").unwrap_err(),
        PatchError::UnsupportedHunkLine("?x".to_string())
    );
    assert_eq!(parse_patch("*** Update File: a\n*** End Patch").unwrap_err(), PatchError::NoHunks);
    assert!(parse_patch("").unwrap().is_empty());
}

#[test]
fn parse_patch_accepts_crlf_and_unwrapped_patches() {
    let patch = parse_patch("*** Delete File: gone.txt\r\n*** Add File: new.txt\r\n+a\r\n+b\r\n").unwrap();
    assert_eq!(patch.len(), 2);
    assert_eq!(patch[0].kind, PatchKind::Delete);
    assert_eq!(patch[0].path, "gone.txt");
    assert_eq!(patch[1].content, "a\nb\n");
}

#[test]
fn apply_hunks_reports_closest_partial_match() {
    let hunks = vec![PatchHunk {
        lines: vec![
            HunkLine::Context("one".to_string()),
            HunkLine::Remove("two".to_string()),
        ],
    }];
    let error = apply_hunks("zero\none\nthree\n", &hunks).unwrap_err();
    assert_eq!(
        error.to_string(),
        "failed to locate hunk context; closest Exact match started at old_lines[1], mismatch at hunk line 1: expected \"two\", got \"three\""
    );
    let none = vec![PatchHunk { lines: vec![HunkLine::Remove("absent".to_string())] }];
    assert_eq!(apply_hunks("a\nb\n", &none).unwrap_err(), PatchError::NoPartialMatch);
}

#[test]
fn apply_hunks_with_no_hunks_normalizes_line_endings() {
    assert_eq!(apply_hunks("a\r\nb", &[]).unwrap(), "a\nb\n");
    assert_eq!(apply_hunks("", &[]).unwrap(), "");
}

#[test]
fn apply_hunks_applies_hunks_in_order() {
    let hunks = vec![
        PatchHunk { lines: vec![HunkLine::Remove("x".to_string()), HunkLine::Add("X".to_string())] },
        PatchHunk { lines: vec![HunkLine::Remove("x".to_string()), HunkLine::Add("Y".to_string())] },
    ];
    assert_eq!(apply_hunks("x\nmid\nx\n", &hunks).unwrap(), "X\nmid\nY\n");
}

#[test]
fn whitespace_and_lines_are_normalized_for_matching() {
    assert_eq!(normalize_whitespace("  a \t b  "), "a b");
    assert_eq!(normalized_lines("x\r\ny\rz\n"), vec!["x", "y", "z"]);
    assert!(normalized_lines("").is_empty());
}

#[test]
fn crlf_and_cr_patches_parse_like_lf() {
    let lf = "*** Begin Patch\n*** Add File: a.txt\n+one\n+two\n*** Update File: b.txt\n@@\n-old\n+new\n*** End Patch\n";
    let expected = format!("{:?}", parse_patch(lf));
    assert_eq!(format!("{:?}", parse_patch(&lf.replace('\n', "\r\n"))), expected);
    assert_eq!(format!("{:?}", parse_patch(&lf.replace('\n', "\r"))), expected);
    assert!(parse_patch(lf).is_ok());
}
