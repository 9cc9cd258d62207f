//! What a running turn streams to the client: one assistant item and one
//! reasoning item, each started at its first piece of text and holding all
//! of them, and token totals counted from where the turn started.
use vstd::prelude::*;

use crate::text::{chars_of, string_of, trim, trim_chars};
use crate::tui::transcript::push_str;
use crate::tui::worker::TurnStatus;

verus! {

/// The two kinds of streamed text.
#[derive(Clone, Copy, Debug, PartialEq, Eq, Structural)]
pub enum StreamKind {
    Assistant,
    Reasoning,
}

/// The streamed items of a running turn.
#[derive(Clone, Debug)]
pub struct TurnStream {
    assistant_item: Option<u64>,
    assistant_text: String,
    reasoning_item: Option<u64>,
    reasoning_text: String,
    usage_base: Option<(u64, u64)>,
}

/// The streamed items of a turn, by value.
pub struct StreamView {
    pub assistant_item: Option<u64>,
    pub assistant_text: Seq<char>,
    pub reasoning_item: Option<u64>,
    pub reasoning_text: Seq<char>,
    pub usage_base: Option<(u64, u64)>,
}

impl View for TurnStream {
    type V = StreamView;

    closed spec fn view(&self) -> StreamView {
        StreamView {
            assistant_item: self.assistant_item,
            assistant_text: self.assistant_text@,
            reasoning_item: self.reasoning_item,
            reasoning_text: self.reasoning_text@,
            usage_base: self.usage_base,
        }
    }
}

/// The stream before any text arrived.
pub open spec fn empty_stream() -> StreamView {
    StreamView {
        assistant_item: None,
        assistant_text: Seq::empty(),
        reasoning_item: None,
        reasoning_text: Seq::empty(),
        usage_base: None,
    }
}

/// The stream after a piece of text of `kind`: the item of that kind is
/// the one already started, else `item`, and it holds the text too.
pub open spec fn after_delta(s: StreamView, kind: StreamKind, item: u64, text: Seq<char>) -> StreamView {
    match kind {
        StreamKind::Assistant => StreamView {
            assistant_item: Some(s.assistant_item.unwrap_or(item)),
            assistant_text: s.assistant_text + text,
            ..s
        },
        StreamKind::Reasoning => StreamView {
            reasoning_item: Some(s.reasoning_item.unwrap_or(item)),
            reasoning_text: s.reasoning_text + text,
            ..s
        },
    }
}

/// The item of `kind`, where one was started.
pub open spec fn item_of(s: StreamView, kind: StreamKind) -> Option<u64> {
    match kind {
        StreamKind::Assistant => s.assistant_item,
        StreamKind::Reasoning => s.reasoning_item,
    }
}

/// The text of `kind` streamed so far.
pub open spec fn text_of(s: StreamView, kind: StreamKind) -> Seq<char> {
    match kind {
        StreamKind::Assistant => s.assistant_text,
        StreamKind::Reasoning => s.reasoning_text,
    }
}

/// The items open in `s`, with their text: the assistant's, then the
/// reasoning, each where it was started.
pub open spec fn open_items(s: StreamView) -> Seq<(StreamKind, u64, Seq<char>)> {
    let a: Seq<(StreamKind, u64, Seq<char>)> = match s.assistant_item {
        Some(id) => seq![(StreamKind::Assistant, id, s.assistant_text)],
        None => Seq::empty(),
    };
    let b: Seq<(StreamKind, u64, Seq<char>)> = match s.reasoning_item {
        Some(id) => seq![(StreamKind::Reasoning, id, s.reasoning_text)],
        None => Seq::empty(),
    };
    a + b
}

/// Items with their text, by value.
pub open spec fn item_views(r: Seq<(StreamKind, u64, String)>) -> Seq<(StreamKind, u64, Seq<char>)> {
    r.map_values(|e: (StreamKind, u64, String)| (e.0, e.1, e.2@))
}

/// `s` once a tool call closed its items: no item open and no text held;
/// the token base stays.
pub open spec fn closed_for_tool_call(s: StreamView) -> StreamView {
    StreamView {
        assistant_item: None,
        assistant_text: Seq::empty(),
        reasoning_item: None,
        reasoning_text: Seq::empty(),
        ..s
    }
}

impl TurnStream {
    /// A stream with nothing streamed.
    pub fn new() -> (r: TurnStream)
        ensures
            r@ == empty_stream(),
    {
        TurnStream {
            assistant_item: None,
            assistant_text: String::new(),
            reasoning_item: None,
            reasoning_text: String::new(),
            usage_base: None,
        }
    }

    /// The item text of `kind` goes to, where one was started; where none
    /// was, the runtime starts one first.
    pub fn item_for(&self, kind: StreamKind) -> (r: Option<u64>)
        ensures
            r == item_of(self@, kind),
    {
        match kind {
            StreamKind::Assistant => self.assistant_item,
            StreamKind::Reasoning => self.reasoning_item,
        }
    }

    /// Records a piece of text of `kind`; `item` is the item started for it
    /// where none was yet.
    pub fn push_delta(&mut self, kind: StreamKind, item: u64, text: &str)
        ensures
            final(self)@ == after_delta(old(self)@, kind, item, text@),
    {
        match kind {
            StreamKind::Assistant => {
                if self.assistant_item.is_none() {
                    self.assistant_item = Some(item);
                }
                let mut v = chars_of(self.assistant_text.as_str());
                push_str(&mut v, text);
                self.assistant_text = string_of(v.as_slice());
            },
            StreamKind::Reasoning => {
                if self.reasoning_item.is_none() {
                    self.reasoning_item = Some(item);
                }
                let mut v = chars_of(self.reasoning_text.as_str());
                push_str(&mut v, text);
                self.reasoning_text = string_of(v.as_slice());
            },
        }
    }

    /// The session's token totals after a usage report of the turn: the
    /// totals when the turn's first report came, plus the report.
    pub fn usage_totals(&mut self, session_totals: (u64, u64), input_tokens: u64, output_tokens: u64) -> (r: (u64, u64))
        requires
            old(self)@.usage_base.unwrap_or(session_totals).0 + input_tokens <= u64::MAX,
            old(self)@.usage_base.unwrap_or(session_totals).1 + output_tokens <= u64::MAX,
        ensures
            final(self)@ == (StreamView { usage_base: Some(old(self)@.usage_base.unwrap_or(session_totals)), ..old(self)@ }),
            r == (
                (old(self)@.usage_base.unwrap_or(session_totals).0 + input_tokens) as u64,
                (old(self)@.usage_base.unwrap_or(session_totals).1 + output_tokens) as u64,
            ),
    {
        let base = match self.usage_base {
            Some(b) => b,
            None => session_totals,
        };
        self.usage_base = Some(base);
        (base.0 + input_tokens, base.1 + output_tokens)
    }

    /// The items to complete when the turn ends, with their text: the
    /// assistant's, then the reasoning, each where it was started.
    pub fn finished_items(&self) -> (r: Vec<(StreamKind, u64, String)>)
        ensures
            r@.len() == (if self@.assistant_item is Some { 1int } else { 0 }) + (if self@.reasoning_item is Some {
                1int
            } else {
                0
            }),
            forall|i: int|
                0 <= i < r@.len() ==> {
                    let k = (#[trigger] r@[i]).0;
                    &&& item_of(self@, k) == Some(r@[i].1)
                    &&& r@[i].2@ == text_of(self@, k)
                    &&& (i == 0 && self@.assistant_item is Some ==> k == StreamKind::Assistant)
                    &&& (i == 1 ==> k == StreamKind::Reasoning)
                    &&& (self@.assistant_item is None ==> k == StreamKind::Reasoning)
                },
            item_views(r@) == open_items(self@),
    {
        let mut r: Vec<(StreamKind, u64, String)> = Vec::new();
        match self.assistant_item {
            Some(id) => r.push((StreamKind::Assistant, id, self.assistant_text.clone())),
            None => {},
        }
        match self.reasoning_item {
            Some(id) => r.push((StreamKind::Reasoning, id, self.reasoning_text.clone())),
            None => {},
        }
        assert(item_views(r@) =~= open_items(self@));
        r
    }

    /// A tool call starts: the open assistant and reasoning items are
    /// returned with their text, to be completed before the call is shown,
    /// and text after the call goes to new items.
    pub fn close_for_tool_call(&mut self) -> (r: Vec<(StreamKind, u64, String)>)
        ensures
            item_views(r@) == open_items(old(self)@),
            final(self)@ == closed_for_tool_call(old(self)@),
    {
        let r = self.finished_items();
        self.assistant_item = None;
        self.assistant_text = String::new();
        self.reasoning_item = None;
        self.reasoning_text = String::new();
        r
    }
}

/// The stream after pieces of text, in order.
pub open spec fn after_deltas(s: StreamView, deltas: Seq<(StreamKind, u64, Seq<char>)>) -> StreamView
    decreases deltas.len(),
{
    if deltas.len() == 0 {
        s
    } else {
        let d = deltas.last();
        after_delta(after_deltas(s, deltas.drop_last()), d.0, d.1, d.2)
    }
}

/// The texts of the pieces of `kind`, joined.
pub open spec fn streamed_text(deltas: Seq<(StreamKind, u64, Seq<char>)>, kind: StreamKind) -> Seq<char>
    decreases deltas.len(),
{
    if deltas.len() == 0 {
        Seq::empty()
    } else {
        let d = deltas.last();
        streamed_text(deltas.drop_last(), kind) + if d.0 == kind {
            d.2
        } else {
            Seq::empty()
        }
    }
}

/// The first piece of `kind`, where there is one.
pub open spec fn first_of(deltas: Seq<(StreamKind, u64, Seq<char>)>, kind: StreamKind) -> Option<u64>
    decreases deltas.len(),
{
    if deltas.len() == 0 {
        None
    } else {
        match first_of(deltas.drop_last(), kind) {
            Some(i) => Some(i),
            None => if deltas.last().0 == kind {
                Some(deltas.last().1)
            } else {
                None
            },
        }
    }
}

/// A turn streams each kind of text into one item, the one started at its
/// first piece, and that item holds every piece of that kind, in order.
pub proof fn law_stream_collects_pieces(deltas: Seq<(StreamKind, u64, Seq<char>)>, kind: StreamKind)
    ensures
        item_of(after_deltas(empty_stream(), deltas), kind) == first_of(deltas, kind),
        text_of(after_deltas(empty_stream(), deltas), kind) == streamed_text(deltas, kind),
    decreases deltas.len(),
{
    if deltas.len() > 0 {
        law_stream_collects_pieces(deltas.drop_last(), kind);
        let d = deltas.last();
        if d.0 != kind {
            assert(streamed_text(deltas.drop_last(), kind) + Seq::<char>::empty() =~= streamed_text(deltas.drop_last(), kind));
        }
    }
}

// ---------------------------------------------------------------- the reply

/// A message of the conversation as the title reads it: whether the
/// assistant wrote it, and its text blocks.
#[derive(Clone, Debug)]
pub struct ConversationMessage {
    pub from_assistant: bool,
    pub texts: Vec<String>,
}

/// The text blocks of a message, joined.
pub open spec fn joined_texts(texts: Seq<String>) -> Seq<char>
    decreases texts.len(),
{
    if texts.len() == 0 {
        Seq::empty()
    } else {
        joined_texts(texts.drop_last()) + texts.last()@
    }
}

/// The first reply of the assistant that is not blank.
pub open spec fn first_reply(messages: Seq<ConversationMessage>) -> Option<Seq<char>>
    decreases messages.len(),
{
    if messages.len() == 0 {
        None
    } else {
        let m = messages[0];
        let t = joined_texts(m.texts@);
        if m.from_assistant && trim(t).len() > 0 {
            Some(t)
        } else {
            first_reply(messages.drop_first())
        }
    }
}

fn joined(texts: &Vec<String>) -> (r: Vec<char>)
    ensures
        r@ == joined_texts(texts@),
{
    let mut v: Vec<char> = Vec::new();
    let mut i: usize = 0;
    while i < texts.len()
        invariant
            i <= texts.len(),
            v@ == joined_texts(texts@.take(i as int)),
        decreases texts.len() - i,
    {
        push_str(&mut v, texts[i].as_str());
        assert(texts@.take((i + 1) as int).drop_last() =~= texts@.take(i as int));
        i += 1;
    }
    assert(texts@.take(i as int) =~= texts@);
    v
}

/// The assistant's first reply that is not blank, from which the session's
/// title is generated.
pub fn first_assistant_reply(messages: &[ConversationMessage]) -> (r: Option<String>)
    ensures
        match r {
            Some(s) => first_reply(messages@) == Some(s@),
            None => first_reply(messages@) is None,
        },
{
    let mut i: usize = 0;
    assert(messages@.skip(0) =~= messages@);
    while i < messages.len()
        invariant
            i <= messages.len(),
            first_reply(messages@) == first_reply(messages@.skip(i as int)),
        decreases messages.len() - i,
    {
        let t = joined(&messages[i].texts);
        assert(messages@.skip(i as int)[0] == messages@[i as int]);
        if messages[i].from_assistant && trim_chars(t.as_slice()).len() > 0 {
            return Some(string_of(t.as_slice()));
        }
        assert(messages@.skip(i as int).drop_first() =~= messages@.skip(i + 1));
        i += 1;
    }
    None
}

/// The status a turn ends with once the query returns: completed when it
/// succeeded, failed otherwise.
pub fn final_turn_status(succeeded: bool) -> (r: TurnStatus)
    ensures
        r == (if succeeded {
            TurnStatus::Completed
        } else {
            TurnStatus::Failed
        }),
{
    if succeeded {
        TurnStatus::Completed
    } else {
        TurnStatus::Failed
    }
}

/// Whether the model is asked for a title once a turn ends: the turn
/// completed and the assistant replied.
pub fn wants_generated_title(completed: bool, reply: &Option<String>) -> (r: bool)
    ensures
        r == (completed && reply is Some),
{
    completed && reply.is_some()
}

} // verus!
