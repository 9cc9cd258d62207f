use lpagent::tui::geometry::Rect;
use lpagent::tui::panels::{
    aux_panel_height, inline_aux_panel, inline_panel_row_rects,
    inline_aux_panel_height, inline_aux_panel_rows, inline_text_panel_height, preset_panel_height, session_panel_height,
    thinking_panel_height,
    text_panel_height, AuxPanel, AuxPanelContent, ModelListEntry, PanelLimits, PresetListEntry,
    SessionListEntry, ThinkingListEntry,
};
use lpagent::tui::render::{
    append_tool_call_title, append_tool_result, append_user_bubble, append_wrapped_styled_text,
    fold_tool_output, line_count, rendered_line_count, rendered_transcript_body, span, split_tool_call_title,
    style_welcome_line, transcript_text, Span, StyleRole,
};
use lpagent::tui::provider::ProviderFamily;
use lpagent::tui::transcript::{TranscriptItem, TranscriptItemKind};

fn texts(rows: &[Vec<Span>]) -> Vec<String> {
    rows.iter()
        .map(|r| r.iter().map(|s| s.text.as_str()).collect::<String>())
        .collect()
}

#[test]
fn split_tool_call_title_at_first_colon() {
    assert_eq!(
        split_tool_call_title("bash: ls -la: x"),
        ("bash".to_string(), "ls -la: x".to_string())
    );
    assert_eq!(split_tool_call_title("  glob  "), ("glob".to_string(), String::new()));
}

#[test]
fn fold_tool_output_keeps_head_lines() {
    assert_eq!(fold_tool_output("a\nb\nc\n", 4), "a\nb\nc");
    assert_eq!(fold_tool_output("a\nb\nc", 2), "a\nb\n...");
    assert_eq!(fold_tool_output("", 2), "");
}

#[test]
fn transcript_body_by_fold_stage() {
    let mut item = TranscriptItem::new(TranscriptItemKind::ToolResult, "t", "1\n2\n3\n4\n5\n6\n");
    assert_eq!(rendered_transcript_body(&item), "1\n2\n3\n4\n5\n6");
    item.fold_stage = 1;
    assert_eq!(rendered_transcript_body(&item), "1\n2\n3\n4\n...");
    item.fold_stage = 2;
    assert_eq!(rendered_transcript_body(&item), "1\n...");
    item.fold_stage = 3;
    assert_eq!(rendered_transcript_body(&item), "");
    let other = TranscriptItem::new(TranscriptItemKind::System, "s", "x\n\n");
    assert_eq!(rendered_transcript_body(&other), "x");
}

#[test]
fn wrapped_styled_text_prefixes_rows() {
    let mut rows = Vec::new();
    append_wrapped_styled_text(&mut rows, "one two three\nfour", "  └ ", "    ", 12, StyleRole::Muted);
    assert_eq!(texts(&rows), vec!["  └ one", "    two", "    three", "    four"]);
    assert_eq!(rows[0][0].style, StyleRole::Prefix(TranscriptItemKind::ToolResult));
    assert_eq!(rows[0][1].style, StyleRole::Muted);
    let mut rows = Vec::new();
    append_wrapped_styled_text(&mut rows, "", "> ", "  ", 12, StyleRole::Muted);
    assert_eq!(rows, vec![vec![span("> ", StyleRole::Prefix(TranscriptItemKind::User))]]);
}

#[test]
fn tool_call_title_highlights_tool_name() {
    let mut rows = Vec::new();
    append_tool_call_title(&mut rows, "bash: ls -la", 40);
    let k = TranscriptItemKind::ToolCall;
    assert_eq!(
        rows,
        vec![vec![
            span("◇ ", StyleRole::Prefix(k)),
            span("bash", StyleRole::Title(k)),
            span("  ", StyleRole::Plain),
            span("ls -la", StyleRole::Body(k)),
        ]]
    );
}

#[test]
fn tool_result_shows_title_and_body() {
    let mut rows = Vec::new();
    let item = TranscriptItem::new(TranscriptItemKind::ToolResult, "Exit 0", "done");
    append_tool_result(&mut rows, &item, 40);
    assert_eq!(texts(&rows), vec!["  └ Exit 0", "  └ done"]);
    let mut rows = Vec::new();
    let generic = TranscriptItem::new(TranscriptItemKind::ToolResult, "Tool output", "done");
    append_tool_result(&mut rows, &generic, 40);
    assert_eq!(texts(&rows), vec!["  └ done"]);
}

#[test]
fn user_bubble_fills_to_width() {
    let mut rows = Vec::new();
    let item = TranscriptItem::new(TranscriptItemKind::User, "You", "hi");
    append_user_bubble(&mut rows, &item, 10);
    assert_eq!(rows.len(), 1);
    assert_eq!(rows[0][0].text, "❯ ");
    assert_eq!(rows[0][1].text, "hi");
    assert_eq!(rows[0][2].text, "      ");
}

#[test]
fn welcome_lines_are_styled_by_shape() {
    assert_eq!(style_welcome_line("╭──╮"), vec![span("╭──╮", StyleRole::AccentDim)]);
    let row = style_welcome_line("│ A G E N T │");
    assert_eq!(row[1], span(" A G E N T ", StyleRole::AccentBright));
    let row = style_welcome_line("  ◆  model       m");
    assert_eq!(row[1], span("model       m", StyleRole::Muted));
    let row = style_welcome_line("    ❯ /exit        quit");
    assert_eq!(
        row[2],
        span("/exit", StyleRole::Title(TranscriptItemKind::Assistant))
    );
    assert_eq!(row[3], span("        quit", StyleRole::Muted));
    assert_eq!(style_welcome_line("other"), vec![span("other", StyleRole::Muted)]);
}

#[test]
fn transcript_separates_items_and_counts_rows() {
    let items = vec![
        TranscriptItem::new(TranscriptItemKind::User, "You", "hello"),
        TranscriptItem::new(TranscriptItemKind::Assistant, "Assistant", "hi"),
        TranscriptItem::new(TranscriptItemKind::ToolCall, "bash: ls", ""),
    ];
    let markdown = vec![Vec::new(), vec![vec![span("hi", StyleRole::Plain)]], Vec::new()];
    let rows = transcript_text(&items, &markdown, 0, 40, false);
    let t = texts(&rows);
    assert_eq!(t.len(), 5);
    assert!(t[0].starts_with("❯ hello"));
    assert_eq!(t[1], "");
    assert_eq!(t[2], "• hi");
    assert_eq!(t[3], "");
    assert_eq!(t[4], "◇ bash  ls");
    assert_eq!(rendered_line_count(&rows, 40), 5);
    let empty = transcript_text(&[], &[], 0, 40, false);
    assert!(texts(&empty)[0].starts_with("No conversation yet."));
}

#[test]
fn collapsed_reasoning_and_spinner_rows() {
    let items = vec![
        TranscriptItem::new(TranscriptItemKind::Reasoning, "", "abc"),
        TranscriptItem::new(TranscriptItemKind::System, "Thinking", ""),
    ];
    let rows = transcript_text(&items, &[Vec::new(), Vec::new()], 7, 60, false);
    let t = texts(&rows);
    assert_eq!(t[0], "∙ thought (3 chars) — /reasoning to show");
    assert_eq!(t[1], "");
    assert_eq!(t[2], "⠙  thinking");
}

fn limits() -> PanelLimits {
    PanelLimits { max_text_height: 12, max_list_height: 10 }
}

#[test]
fn panel_heights_are_clamped() {
    assert_eq!(text_panel_height("a\nb", &limits()), 4);
    assert_eq!(text_panel_height(&"x\n".repeat(30), &limits()), 12);
    let sessions = vec![
        SessionListEntry {
            session_id: "s1".to_string(),
            title: "t".to_string(),
            updated_at: "u".to_string(),
            is_active: true,
        };
        3
    ];
    assert_eq!(session_panel_height(&sessions, &limits()), 8);
    assert_eq!(inline_text_panel_height("a", "", &limits()), 2);
    assert_eq!(inline_text_panel_height("a\nb\nc", "T", &limits()), 4);
    let panel = AuxPanel { title: "Models".to_string(), content: AuxPanelContent::ModelList(vec![
        ModelListEntry {
            slug: "m".to_string(),
            display_name: "m".to_string(),
            provider: ProviderFamily::Openai,
            description: None,
            is_current: false,
            is_builtin: false,
            is_custom_mode: false,
        };
        9
    ]) };
    assert_eq!(inline_aux_panel_height(Some(&panel), false, &limits()), 8);
    assert_eq!(inline_aux_panel_height(Some(&panel), true, &limits()), 0);
    assert_eq!(inline_aux_panel_height(None, false, &limits()), 0);
}

#[test]
fn inline_panel_rows_mark_selection() {
    let panel = AuxPanel {
        title: "Sessions".to_string(),
        content: AuxPanelContent::SessionList(vec![
            SessionListEntry {
                session_id: "s1".to_string(),
                title: "first".to_string(),
                updated_at: "u1".to_string(),
                is_active: true,
            },
            SessionListEntry {
                session_id: "s2".to_string(),
                title: "second".to_string(),
                updated_at: "u2".to_string(),
                is_active: false,
            },
        ]),
    };
    let rows = inline_aux_panel_rows(&panel, 1);
    assert_eq!(
        texts(&rows),
        vec!["  Sessions", "  first  [current]", "  s1  u1", "› second  [saved]", "  s2  u2"]
    );
    assert_eq!(rows[3][0].style, StyleRole::Prompt);

    let models = AuxPanel {
        title: String::new(),
        content: AuxPanelContent::ModelList(vec![
            ModelListEntry {
                slug: "a".to_string(),
                display_name: "a".to_string(),
                provider: ProviderFamily::Openai,
                description: Some("fast".to_string()),
                is_current: true,
                is_builtin: false,
                is_custom_mode: false,
            },
            ModelListEntry {
                slug: "b".to_string(),
                display_name: "b".to_string(),
                provider: ProviderFamily::Openai,
                description: Some("  ".to_string()),
                is_current: false,
                is_builtin: false,
                is_custom_mode: false,
            },
        ]),
    };
    assert_eq!(texts(&inline_aux_panel_rows(&models, 0)), vec!["› a  current", "  fast", "  b"]);

    let thinking = AuxPanel {
        title: String::new(),
        content: AuxPanelContent::ThinkingList(vec![ThinkingListEntry {
            label: "High".to_string(),
            value: "high".to_string(),
            description: "more".to_string(),
            is_current: false,
        }]),
    };
    assert_eq!(texts(&inline_aux_panel_rows(&thinking, 5)), vec!["  High  [high]", "  more"]);

    let presets = AuxPanel {
        title: String::new(),
        content: AuxPanelContent::PresetList(vec![PresetListEntry {
            id: "openai".to_string(),
            display_name: "OpenAI".to_string(),
            description: String::new(),
            default_base_url: None,
            is_current: false,
        }]),
    };
    assert_eq!(texts(&inline_aux_panel_rows(&presets, 0)), vec!["› OpenAI"]);

    let text = AuxPanel { title: String::new(), content: AuxPanelContent::Text("a\nb".to_string()) };
    assert_eq!(texts(&inline_aux_panel_rows(&text, 0)), vec!["  a", "  b"]);
}

#[test]
fn list_panel_heights_count_two_rows_per_entry() {
    let thinking = vec![
        ThinkingListEntry { label: "L".to_string(), value: "l".to_string(), description: String::new(), is_current: false };
        2
    ];
    assert_eq!(thinking_panel_height(&thinking, &limits()), 6);
    let presets = vec![
        PresetListEntry {
            id: "p".to_string(),
            display_name: "P".to_string(),
            description: String::new(),
            default_base_url: None,
            is_current: false,
        };
        7
    ];
    assert_eq!(preset_panel_height(&presets, &limits()), 10);
    assert_eq!(preset_panel_height(&[], &limits()), 4);
}

#[test]
fn panel_heights_and_inline_rows_are_placed() {
    let text = AuxPanel { title: "T".to_string(), content: AuxPanelContent::Text("a\nb\nc".to_string()) };
    assert_eq!(aux_panel_height(Some(&text), false, 7, &limits()), 5);
    assert_eq!(aux_panel_height(Some(&text), true, 7, &limits()), 0);
    assert_eq!(aux_panel_height(None, false, 7, &limits()), 0);
    let models = AuxPanel { title: String::new(), content: AuxPanelContent::ModelList(vec![]) };
    assert_eq!(aux_panel_height(Some(&models), false, 7, &limits()), 7);
    assert_eq!(inline_aux_panel(Some(&text), false, &limits()), Some(4));
    assert_eq!(inline_aux_panel(None, false, &limits()), None);
    let area = Rect { x: 1, y: 10, width: 30, height: 3 };
    let rects = inline_panel_row_rects(area, 2);
    assert_eq!(rects, vec![Rect { x: 3, y: 11, width: 28, height: 1 }, Rect { x: 3, y: 12, width: 28, height: 1 }]);
    let rects = inline_panel_row_rects(area, 5);
    assert_eq!(rects.len(), 3);
    assert_eq!(rects[0].y, 10);
    let rows = vec![vec![span("hello world", StyleRole::Plain)], vec![]];
    assert_eq!(line_count(&rows, 5), 3);
}
