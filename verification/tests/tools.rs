use lpagent::ls::{format_listing, ls_base, ls_output, sort_entries, ToolOutput};
use lpagent::patch::error::PatchError;
use lpagent::patch::execute::{
    change_paths, check_patch_request, patch_report, plan_change, PatchRequest,
};
use lpagent::patch::types::{HunkLine, PatchChange, PatchHunk, PatchKind};

fn entries(items: &[(&str, bool)]) -> Vec<(String, bool)> {
    items.iter().map(|(n, d)| (n.to_string(), *d)).collect()
}

#[test]
fn lists_directories_before_files() {
    let out = ls_output(entries(&[("afile.txt", false), ("zsub", true)]));
    let lines: Vec<&str> = out.content.lines().collect();
    assert_eq!(lines, vec!["zsub/", "afile.txt"]);
    assert!(!out.is_error);
}

#[test]
fn reports_empty_directory() {
    assert_eq!(ls_output(Vec::new()).content, "(empty directory)");
}

#[test]
fn sort_orders_groups_then_names() {
    let sorted = sort_entries(entries(&[
        ("b", false),
        ("Z", true),
        ("a", false),
        ("src", true),
        ("B", false),
        ("ab", false),
    ]));
    assert_eq!(
        sorted,
        entries(&[
            ("Z", true),
            ("src", true),
            ("B", false),
            ("a", false),
            ("ab", false),
            ("b", false)
        ])
    );
}

#[test]
fn listing_marks_directories() {
    assert_eq!(format_listing(&entries(&[("d", true), ("f", false)])), "d/\nf");
    assert_eq!(format_listing(&[]), "(empty directory)");
}

#[test]
fn ls_base_resolves_against_cwd() {
    assert_eq!(ls_base("/work", None), "/work");
    assert_eq!(ls_base("/work", Some("src")), "/work/src");
    assert_eq!(ls_base("/work/", Some("src")), "/work/src");
    assert_eq!(ls_base("/work", Some("/etc")), "/etc");
    assert_eq!(ls_base("", Some("x")), "x");
}

#[test]
fn tool_output_constructors() {
    assert_eq!(
        ToolOutput::error("bad"),
        ToolOutput { content: "bad".to_string(), is_error: true, metadata: None }
    );
    assert!(!ToolOutput::success("ok").is_error);
}

#[test]
fn blank_patch_request_is_rejected() {
    match check_patch_request("  \n ").unwrap() {
        PatchRequest::Rejected(out) => {
            assert!(out.is_error);
            assert_eq!(out.content, "patchText is required");
        }
        PatchRequest::Changes(_) => panic!("expected a rejection"),
    }
}

#[test]
fn unparsable_patch_request_fails() {
    assert_eq!(
        check_patch_request("hello").unwrap_err(),
        PatchError::MissingStartHeader
    );
    assert_eq!(
        check_patch_request("*** Begin Patch\n*** End Patch").unwrap_err(),
        PatchError::NoOperations
    );
}

#[test]
fn valid_patch_request_yields_changes() {
    let text = "*** Begin Patch\n*** Add File: a.txt\n+hi\n*** End Patch";
    match check_patch_request(text).unwrap() {
        PatchRequest::Changes(cs) => {
            assert_eq!(cs.len(), 1);
            assert_eq!(cs[0].path, "a.txt");
            assert_eq!(cs[0].kind, PatchKind::Add);
        }
        PatchRequest::Rejected(_) => panic!("expected changes"),
    }
}

fn change(kind: PatchKind, path: &str, move_path: Option<&str>, hunks: Vec<PatchHunk>) -> PatchChange {
    PatchChange {
        path: path.to_string(),
        move_path: move_path.map(|m| m.to_string()),
        content: if kind == PatchKind::Add { "one\ntwo\n".to_string() } else { String::new() },
        hunks,
        kind,
    }
}

fn hunk(lines: Vec<HunkLine>) -> PatchHunk {
    PatchHunk { lines }
}

#[test]
fn plan_of_added_file() {
    let plan = plan_change("/w", &change(PatchKind::Add, "dir/a.txt", None, vec![]), "ignored").unwrap();
    assert_eq!(plan.source_path, "/w/dir/a.txt");
    assert_eq!(plan.target_path, None);
    assert_eq!(plan.new_content, "one\ntwo\n");
    assert_eq!(plan.additions, 2);
    assert_eq!(plan.deletions, 0);
    assert_eq!(plan.relative_path, "dir/a.txt");
    assert_eq!(plan.diff, "--- dir/a.txt\n+++ dir/a.txt\n");
    assert_eq!(plan.summary, "A dir/a.txt");
}

#[test]
fn plan_of_updated_file() {
    let h = hunk(vec![
        HunkLine::Context("a".to_string()),
        HunkLine::Remove("b".to_string()),
        HunkLine::Add("B".to_string()),
    ]);
    let plan = plan_change("/w", &change(PatchKind::Update, "f.txt", None, vec![h]), "a\nb\nc\n").unwrap();
    assert_eq!(plan.new_content, "a\nB\nc\n");
    assert_eq!(plan.additions, 3);
    assert_eq!(plan.deletions, 3);
    assert_eq!(plan.summary, "M f.txt");
}

#[test]
fn plan_of_moved_and_deleted_files() {
    let h = hunk(vec![HunkLine::Context("a".to_string())]);
    let plan = plan_change("/w", &change(PatchKind::Move, "old.txt", Some("new/n.txt"), vec![h]), "a\n").unwrap();
    assert_eq!(plan.target_path.as_deref(), Some("/w/new/n.txt"));
    assert_eq!(plan.relative_path, "new/n.txt");
    assert_eq!(plan.summary, "M new/n.txt");
    let plan = plan_change("/w", &change(PatchKind::Delete, "gone.txt", None, vec![]), "x\ny\n").unwrap();
    assert_eq!(plan.new_content, "");
    assert_eq!(plan.additions, 0);
    assert_eq!(plan.deletions, 2);
    assert_eq!(plan.summary, "D gone.txt");
}

#[test]
fn plan_refuses_absolute_paths() {
    let c = change(PatchKind::Delete, "/etc/passwd", None, vec![]);
    assert_eq!(plan_change("/w", &c, "").unwrap_err(), PatchError::AbsolutePath);
    assert_eq!(change_paths("/w", &c).unwrap_err(), PatchError::AbsolutePath);
    let m = change(PatchKind::Move, "a", Some("/b"), vec![]);
    assert_eq!(change_paths("/w", &m).unwrap_err(), PatchError::AbsolutePath);
}

#[test]
fn plan_reports_hunks_that_do_not_apply() {
    let h = hunk(vec![HunkLine::Context("zzz".to_string())]);
    let err = plan_change("/w", &change(PatchKind::Update, "f", None, vec![h]), "a\n").unwrap_err();
    assert_eq!(err, PatchError::NoPartialMatch);
}

#[test]
fn report_lists_changed_files() {
    let a = plan_change("/w", &change(PatchKind::Add, "a.txt", None, vec![]), "").unwrap();
    let d = plan_change("/w", &change(PatchKind::Delete, "b.txt", None, vec![]), "x").unwrap();
    let (out, diff) = patch_report(&[a, d]);
    assert!(!out.is_error);
    assert_eq!(out.content, "Success. Updated the following files:\nA a.txt\nD b.txt");
    assert_eq!(diff, "--- a.txt\n+++ a.txt\n\n--- b.txt\n+++ b.txt\n\n");
}

use lpagent::patch::apply::apply_hunks;

#[test]
fn context_only_hunk_leaves_text_unchanged() {
    let text = "start\n  keep me  \nend\n";
    let h = hunk(vec![HunkLine::Context("keep me".to_string())]);
    assert_eq!(apply_hunks(text, &[h]).unwrap(), text);
}

#[test]
fn no_hunks_keep_normal_text_and_normalize_other_text() {
    assert_eq!(apply_hunks("a\nb\n", &[]).unwrap(), "a\nb\n");
    assert_eq!(apply_hunks("", &[]).unwrap(), "");
    assert_eq!(apply_hunks("a\r\nb", &[]).unwrap(), "a\nb\n");
}

#[test]
fn execute_plan_applies_changes_and_returns_summary() {
    let text = "*** Begin Patch
*** Add File: add.txt
+hello
*** Update File: update.txt
@@
-old
+new
*** Delete File: delete.txt
*** Update File: from.txt
*** Move to: moved/to.txt
@@
-before
+after
*** End Patch";
    let files = |path: &str| match path {
        "/w/update.txt" => "old\n",
        "/w/from.txt" => "before\n",
        "/w/delete.txt" => "remove me\n",
        _ => "",
    };
    let changes = match check_patch_request(text).unwrap() {
        PatchRequest::Changes(cs) => cs,
        PatchRequest::Rejected(_) => panic!("expected changes"),
    };
    let mut plans = Vec::new();
    for c in &changes {
        let (source, _) = change_paths("/w", c).unwrap();
        plans.push(plan_change("/w", c, files(&source)).unwrap());
    }
    let (out, _diff) = patch_report(&plans);
    assert!(!out.is_error);
    assert!(out.content.contains("Success. Updated the following files:"));
    assert!(out.content.contains("A add.txt"));
    assert!(out.content.contains("M update.txt"));
    assert!(out.content.contains("D delete.txt"));
    assert!(out.content.contains("M moved/to.txt"));
    assert_eq!(plans[0].new_content, "hello\n");
    assert_eq!(plans[1].new_content, "new\n");
    assert_eq!(plans[3].new_content, "after\n");
    let counts: Vec<(usize, usize)> = plans.iter().map(|p| (p.additions, p.deletions)).collect();
    assert_eq!(counts, vec![(1, 0), (1, 1), (0, 1), (1, 1)]);
}
