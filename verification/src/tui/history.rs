//! Projecting a saved session's history onto transcript items.
use vstd::prelude::*;

use crate::tui::transcript::{TranscriptItem, TranscriptItemKind};

verus! {

/// The kinds of saved history entries.
#[derive(Clone, Copy, Debug, PartialEq, Eq, Structural)]
pub enum SessionHistoryItemKind {
    User,
    Assistant,
    ToolCall,
    ToolResult,
    Error,
}

/// One entry of a saved session's history.
#[derive(Clone, Debug)]
pub struct SessionHistoryItem {
    pub kind: SessionHistoryItemKind,
    pub title: String,
    pub body: String,
}

/// The transcript item that a call and the result or error right after it
/// merge into: titled by the call, holding the result's body.
pub open spec fn merged_view(call: SessionHistoryItem, next: SessionHistoryItem) -> (
    TranscriptItemKind,
    Seq<char>,
    Seq<char>,
    u8,
) {
    if next.kind == SessionHistoryItemKind::Error {
        (TranscriptItemKind::Error, call.title@, next.body@, 0u8)
    } else {
        (TranscriptItemKind::ToolResult, call.title@, next.body@, 0u8)
    }
}

/// The transcript item for a history entry shown on its own; a tool call
/// shows no body.
pub open spec fn single_view(item: SessionHistoryItem) -> (TranscriptItemKind, Seq<char>, Seq<char>, u8) {
    match item.kind {
        SessionHistoryItemKind::User => (TranscriptItemKind::User, item.title@, item.body@, 0u8),
        SessionHistoryItemKind::Assistant => (TranscriptItemKind::Assistant, item.title@, item.body@, 0u8),
        SessionHistoryItemKind::ToolCall => (TranscriptItemKind::ToolCall, item.title@, Seq::empty(), 0u8),
        SessionHistoryItemKind::ToolResult => (TranscriptItemKind::ToolResult, item.title@, item.body@, 0u8),
        SessionHistoryItemKind::Error => (TranscriptItemKind::Error, item.title@, item.body@, 0u8),
    }
}

/// Whether a tool call at the head of `items` merges with what follows it.
pub open spec fn merges(items: Seq<SessionHistoryItem>) -> bool {
    items.len() > 1 && items[0].kind == SessionHistoryItemKind::ToolCall && (items[1].kind
        == SessionHistoryItemKind::ToolResult || items[1].kind == SessionHistoryItemKind::Error)
}

/// History entries as transcript items: a tool call directly followed by
/// its result or error becomes one item; every other entry becomes its own.
pub open spec fn projected(items: Seq<SessionHistoryItem>) -> Seq<(TranscriptItemKind, Seq<char>, Seq<char>, u8)>
    decreases items.len(),
{
    if items.len() == 0 {
        Seq::empty()
    } else if merges(items) {
        seq![merged_view(items[0], items[1])] + projected(items.skip(2))
    } else {
        seq![single_view(items[0])] + projected(items.skip(1))
    }
}

/// The views of transcript items.
pub open spec fn item_views(items: Seq<TranscriptItem>) -> Seq<(TranscriptItemKind, Seq<char>, Seq<char>, u8)> {
    items.map_values(|t: TranscriptItem| t.view())
}

/// Rebuilds the transcript of a saved session from its history.
pub fn project_history_items(items: &[SessionHistoryItem]) -> (r: Vec<TranscriptItem>)
    ensures
        item_views(r@) == projected(items@),
{
    let mut transcript: Vec<TranscriptItem> = Vec::new();
    let mut index: usize = 0;
    assert(items@.skip(0) =~= items@);
    while index < items.len()
        invariant
            index <= items.len(),
            item_views(transcript@) + projected(items@.skip(index as int)) == projected(items@),
        decreases items.len() - index,
    {
        let ghost rest = items@.skip(index as int);
        let ghost before = transcript@;
        let item = &items[index];
        assert(rest[0] == items@[index as int]);
        if item.kind == SessionHistoryItemKind::ToolCall && index + 1 < items.len() && (items[index + 1].kind
            == SessionHistoryItemKind::ToolResult || items[index + 1].kind == SessionHistoryItemKind::Error) {
            let next = &items[index + 1];
            assert(rest[1] == items@[index + 1]);
            let merged = if next.kind == SessionHistoryItemKind::Error {
                TranscriptItem::tool_error(item.title.as_str(), next.body.as_str())
            } else {
                TranscriptItem::restored_tool_result(item.title.as_str(), next.body.as_str())
            };
            transcript.push(merged);
            assert(rest.skip(2) =~= items@.skip(index + 2));
            assert(item_views(transcript@) =~= item_views(before).push(merged_view(rest[0], rest[1])));
            assert(item_views(before) + projected(rest) =~= item_views(transcript@) + projected(rest.skip(2)));
            index += 2;
        } else {
            let t = match item.kind {
                SessionHistoryItemKind::ToolCall => TranscriptItem::tool_call(item.title.as_str()),
                SessionHistoryItemKind::ToolResult => TranscriptItem::restored_tool_result(
                    item.title.as_str(),
                    item.body.as_str(),
                ),
                SessionHistoryItemKind::Error => TranscriptItem::tool_error(item.title.as_str(), item.body.as_str()),
                SessionHistoryItemKind::User => TranscriptItem::new(
                    TranscriptItemKind::User,
                    item.title.as_str(),
                    item.body.as_str(),
                ),
                SessionHistoryItemKind::Assistant => TranscriptItem::new(
                    TranscriptItemKind::Assistant,
                    item.title.as_str(),
                    item.body.as_str(),
                ),
            };
            transcript.push(t);
            assert(rest.skip(1) =~= items@.skip(index + 1));
            assert(item_views(transcript@) =~= item_views(before).push(single_view(rest[0])));
            assert(item_views(before) + projected(rest) =~= item_views(transcript@) + projected(rest.skip(1)));
            index += 1;
        }
    }
    assert(items@.skip(index as int) =~= Seq::<SessionHistoryItem>::empty());
    assert(item_views(transcript@) + projected(Seq::<SessionHistoryItem>::empty()) =~= item_views(transcript@));
    transcript
}

} // verus!
