use lpagent::tui::transcript::{
    abbreviate_cwd, append_box_line, append_wrapped_body, block_title, box_blank_line, box_bottom,
    box_top, format_assistant_stream_chunk, format_block, format_item, format_session_history,
    format_shell_command_echo, format_welcome_banner, rendered_tool_result_body, separator,
    split_assistant_pending_line, wrap_token_safe_with_first_and_subsequent_widths,
    TranscriptItem, TranscriptItemKind,
};

#[test]
fn formats_user_transcript_block() {
    let item = TranscriptItem::new(TranscriptItemKind::User, "You", "hello world");
    let rendered = format_item(80, &item);

    assert!(rendered.contains("--- user"));
    assert!(rendered.contains("> hello world"));
}

#[test]
fn formats_folded_tool_result_preview() {
    let body = (1..=8)
        .map(|index| format!("line {index}"))
        .collect::<Vec<_>>()
        .join("\n");
    let item = TranscriptItem::new(TranscriptItemKind::ToolResult, "Tool output", &body);
    let rendered = format_item(80, &item);

    assert!(rendered.contains("--- tool output"));
    assert!(rendered.contains("line 1"));
    assert!(rendered.contains("line 6"));
    assert!(rendered.contains("more lines folded"));
}

#[test]
fn formats_welcome_banner_with_logo_and_quickstart() {
    let rendered = format_welcome_banner(
        "gpt-5.4-mini high",
        "/Users/someone/projects/launchpad-agent",
        None,
        "0.118.0",
        80,
    );

    assert!(rendered.contains("╭"));
    assert!(rendered.contains("A G E N T"));
    assert!(rendered.contains("Any model. Any terminal."));
    assert!(rendered.contains("v0.118.0"));
    assert!(rendered.contains("model       gpt-5.4-mini high"));
    assert!(rendered.contains("directory   "));
    assert!(rendered.contains("Get started"));
    assert!(rendered.contains("/configure"));
    assert!(rendered.contains("Or just type a message to begin."));
}

#[test]
fn splits_long_assistant_pending_line_before_turn_end() {
    let (flushed, remainder) = split_assistant_pending_line(
        24,
        "this is a long assistant line without newline yet",
        true,
    );

    assert!(!flushed.is_empty());
    assert!(unicode_width::UnicodeWidthStr::width(flushed[0].as_str()) <= 13);
    assert!(!remainder.is_empty());
}

#[test]
fn short_pending_line_stays_pending() {
    let (flushed, remainder) = split_assistant_pending_line(80, "short", true);
    assert!(flushed.is_empty());
    assert_eq!(remainder, "short");
}

#[test]
fn pending_split_keeps_every_word() {
    let (flushed, remainder) = split_assistant_pending_line(
        24,
        "this is a long assistant line without newline yet",
        true,
    );
    assert_eq!(flushed, vec!["this is a", "long assistant line"]);
    assert_eq!(remainder, "without newline yet");
}

#[test]
fn wrap_packs_words_greedily() {
    let lines = wrap_token_safe_with_first_and_subsequent_widths("aa bb cc dd", 5, 8);
    assert_eq!(lines, vec!["aa bb", "cc dd"]);
    let lines = wrap_token_safe_with_first_and_subsequent_widths("aa bb cc dd ee", 2, 8);
    assert_eq!(lines, vec!["aa", "bb cc dd", "ee"]);
}

#[test]
fn wrap_never_splits_a_long_word() {
    let lines = wrap_token_safe_with_first_and_subsequent_widths("abcdefghij k", 3, 3);
    assert_eq!(lines, vec!["abcdefghij", "k"]);
}

#[test]
fn wrap_of_empty_or_blank_text_is_one_empty_line() {
    assert_eq!(wrap_token_safe_with_first_and_subsequent_widths("", 10, 10), vec![""]);
    assert_eq!(wrap_token_safe_with_first_and_subsequent_widths("   ", 10, 10), vec![""]);
}

#[test]
fn wrap_zero_width_counts_as_one() {
    let lines = wrap_token_safe_with_first_and_subsequent_widths("a b", 0, 0);
    assert_eq!(lines, vec!["a", "b"]);
}

#[test]
fn separator_fills_to_width() {
    assert_eq!(separator("user", 12), "--- user ---");
    assert_eq!(separator("  ", 5), "-----");
    assert_eq!(separator("long title", 4), "--- long title ");
}

#[test]
fn block_title_joins_kind_and_title() {
    assert_eq!(block_title("error", ""), "error");
    assert_eq!(block_title("error", "boom"), "error: boom");
}

#[test]
fn format_block_with_empty_body_is_just_the_header() {
    assert_eq!(format_block("x", "\n\n", 10, None), "\n--- x ----\n");
}

#[test]
fn format_block_wraps_body_under_prefix() {
    let out = format_block("user", "aa bb cc", 8, Some("> "));
    assert_eq!(out, "\n--- user \n> aa bb\n  cc\n");
}

#[test]
fn append_wrapped_body_folds_after_limit() {
    let mut out = String::new();
    append_wrapped_body(&mut out, "one\ntwo\nthree\nfour", 40, "> ", "  ", Some(2));
    assert_eq!(out, "> one\n  two\n  ... 2 more lines folded\n");
    let mut out = String::new();
    append_wrapped_body(&mut out, "one\ntwo", 40, "> ", "  ", Some(0));
    assert_eq!(out, "> ... 2 more lines folded\n");
}

#[test]
fn tool_result_body_folds_after_six_lines() {
    let body = (1..=8)
        .map(|index| format!("line {index}"))
        .collect::<Vec<_>>()
        .join("\n");
    let item = TranscriptItem::new(TranscriptItemKind::ToolResult, "", &body);
    assert_eq!(
        rendered_tool_result_body(&item),
        "line 1\nline 2\nline 3\nline 4\nline 5\nline 6\n... 2 more lines folded\n"
    );
    let item = TranscriptItem::new(TranscriptItemKind::ToolResult, "", "a\nb\n\n");
    assert_eq!(rendered_tool_result_body(&item), "a\nb");
}

#[test]
fn format_item_titles_by_kind() {
    let item = TranscriptItem::new(TranscriptItemKind::Error, "  boom ", "bad");
    assert_eq!(format_item(20, &item), "\n--- error: boom ----\nbad\n");
    let item = TranscriptItem::new(TranscriptItemKind::ToolCall, "bash", "ls");
    assert_eq!(format_item(14, &item), "\n--- tool: bash \ntool> ls\n");
}

#[test]
fn session_history_concatenates_items() {
    let a = TranscriptItem::new(TranscriptItemKind::User, "", "hi");
    let b = TranscriptItem::new(TranscriptItemKind::System, "", "");
    let expected = format!("{}{}", format_item(30, &a), format_item(30, &b));
    assert_eq!(format_session_history(30, &[a, b]), expected);
}

#[test]
fn shell_command_echo() {
    assert_eq!(format_shell_command_echo("ls -la"), "\n› ls -la\n");
}

#[test]
fn stream_chunk_with_and_without_header() {
    let lines = vec!["hello there".to_string(), "".to_string()];
    assert_eq!(
        format_assistant_stream_chunk(20, &lines, true),
        "\n--- assistant ------\nassistant> hello\n  there\n  \n"
    );
    assert_eq!(
        format_assistant_stream_chunk(40, &lines, false),
        "  hello there\n  \n"
    );
    assert_eq!(format_assistant_stream_chunk(40, &[], false), "");
}

#[test]
fn box_edges() {
    assert_eq!(box_top(3), "╭───╮");
    assert_eq!(box_bottom(2), "╰──╯");
    assert_eq!(box_blank_line(2), "│  │");
}

#[test]
fn box_line_pads_to_inner_width() {
    let mut out = String::new();
    append_box_line(&mut out, "ab", 5);
    assert_eq!(out, "│ab   │\n");
    let mut out = String::new();
    append_box_line(&mut out, "", 3);
    assert_eq!(out, "│   │\n");
}

#[test]
fn abbreviates_home_directory() {
    assert_eq!(abbreviate_cwd("/home/me/code/x", Some("/home/me")), "~/code/x");
    assert_eq!(abbreviate_cwd("/home/me", Some("/home/me")), "~");
    assert_eq!(abbreviate_cwd("/home/meat", Some("/home/me")), "/home/meat");
    assert_eq!(abbreviate_cwd("/srv/x", None), "/srv/x");
}

#[test]
fn welcome_banner_shows_abbreviated_directory() {
    let rendered = format_welcome_banner("m", "/home/me/work", Some("/home/me"), "1.0", 80);
    assert!(rendered.contains("  ◆  directory   ~/work\n\n"));
    let first = rendered.lines().next().unwrap();
    assert_eq!(first.chars().count(), 78);
}
