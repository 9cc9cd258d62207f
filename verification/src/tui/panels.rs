//! The auxiliary panel under the transcript: what it lists, how tall it is,
//! and its rows when drawn inline.
use vstd::prelude::*;

use crate::text::{chars_of, lines, lines_of, string_of, trim, trim_chars, views};
use crate::tui::render::{row_view, rows_view, span, span_view, Span, StyleRole};
use crate::tui::provider::ProviderFamily;
use crate::tui::transcript::push_str;

verus! {

/// A saved session in the session list.
#[derive(Clone, Debug, PartialEq, Eq)]
pub struct SessionListEntry {
    pub session_id: String,
    pub title: String,
    pub updated_at: String,
    pub is_active: bool,
}

/// A model in the model list.
#[derive(Clone, Debug, PartialEq, Eq)]
pub struct ModelListEntry {
    pub slug: String,
    pub display_name: String,
    pub provider: ProviderFamily,
    pub description: Option<String>,
    pub is_current: bool,
    pub is_builtin: bool,
    pub is_custom_mode: bool,
}

/// A thinking mode in the thinking list.
#[derive(Clone, Debug, PartialEq, Eq)]
pub struct ThinkingListEntry {
    pub label: String,
    pub value: String,
    pub description: String,
    pub is_current: bool,
}

/// A provider preset in the preset list.
#[derive(Clone, Debug, PartialEq, Eq)]
pub struct PresetListEntry {
    pub id: String,
    pub display_name: String,
    pub description: String,
    pub default_base_url: Option<String>,
    pub is_current: bool,
}

/// What the panel shows.
#[derive(Clone, Debug, PartialEq, Eq)]
pub enum AuxPanelContent {
    Text(String),
    SessionList(Vec<SessionListEntry>),
    ThinkingList(Vec<ThinkingListEntry>),
    ModelList(Vec<ModelListEntry>),
    PresetList(Vec<PresetListEntry>),
}

/// The panel: a title and its content.
#[derive(Clone, Debug, PartialEq, Eq)]
pub struct AuxPanel {
    pub title: String,
    pub content: AuxPanelContent,
}

/// The tallest the text panel and the list panels may grow.
#[derive(Clone, Copy, Debug, PartialEq, Eq, Structural)]
pub struct PanelLimits {
    pub max_text_height: u16,
    pub max_list_height: u16,
}

// ---------------------------------------------------------------- heights

/// `n` kept within `lo..=hi`.
pub open spec fn clamped(n: int, lo: int, hi: int) -> int {
    if n < lo {
        lo
    } else if n > hi {
        hi
    } else {
        n
    }
}

fn clamp_to(n: u128, lo: u16, hi: u16) -> (r: u16)
    requires
        lo <= hi,
    ensures
        r == clamped(n as int, lo as int, hi as int),
{
    if n < lo as u128 {
        lo
    } else if n > hi as u128 {
        hi
    } else {
        n as u16
    }
}

fn line_total(body: &str) -> (r: usize)
    ensures
        r == lines(body@).len(),
{
    let ls = lines_of(chars_of(body).as_slice());
    assert(views(ls@).len() == ls@.len());
    ls.len()
}

/// Height of the text panel: its lines and two border rows, at least four.
pub fn text_panel_height(body: &str, limits: &PanelLimits) -> (r: u16)
    requires
        4 <= limits.max_text_height,
    ensures
        r == clamped(lines(body@).len() + 2int, 4, limits.max_text_height as int),
{
    clamp_to(line_total(body) as u128 + 2, 4, limits.max_text_height)
}

/// Height of a list panel of `n` two-row entries with its borders, at least
/// four.
pub fn list_panel_height(n: usize, limits: &PanelLimits) -> (r: u16)
    requires
        4 <= limits.max_list_height,
    ensures
        r == clamped(2 * n + 2, 4, limits.max_list_height as int),
{
    clamp_to(2 * (n as u128) + 2, 4, limits.max_list_height)
}

/// Height of the session list panel.
pub fn session_panel_height(entries: &[SessionListEntry], limits: &PanelLimits) -> (r: u16)
    requires
        4 <= limits.max_list_height,
    ensures
        r == clamped(2 * entries@.len() + 2int, 4, limits.max_list_height as int),
{
    list_panel_height(entries.len(), limits)
}

/// Height of the thinking list panel.
pub fn thinking_panel_height(entries: &[ThinkingListEntry], limits: &PanelLimits) -> (r: u16)
    requires
        4 <= limits.max_list_height,
    ensures
        r == clamped(2 * entries@.len() + 2int, 4, limits.max_list_height as int),
{
    list_panel_height(entries.len(), limits)
}

/// Height of the preset list panel.
pub fn preset_panel_height(entries: &[PresetListEntry], limits: &PanelLimits) -> (r: u16)
    requires
        4 <= limits.max_list_height,
    ensures
        r == clamped(2 * entries@.len() + 2int, 4, limits.max_list_height as int),
{
    list_panel_height(entries.len(), limits)
}

/// One row for a title that is not empty.
pub open spec fn title_row_count(title: Seq<char>) -> int {
    if title.len() > 0 {
        1
    } else {
        0
    }
}

fn title_rows_of(title: &str) -> (r: u128)
    ensures
        r == title_row_count(title@),
{
    if chars_of(title).len() > 0 {
        1
    } else {
        0
    }
}

/// Height of an inline text panel: its lines and a title row, at least two.
pub fn inline_text_panel_height(body: &str, title: &str, limits: &PanelLimits) -> (r: u16)
    requires
        2 <= limits.max_text_height,
    ensures
        r == clamped(lines(body@).len() + title_row_count(title@), 2, limits.max_text_height as int),
{
    clamp_to(line_total(body) as u128 + title_rows_of(title), 2, limits.max_text_height)
}

/// Height of an inline list of `n` two-row entries and a title row, at least
/// two and at most `max`.
pub fn inline_list_height(n: usize, title: &str, max: u16) -> (r: u16)
    requires
        2 <= max,
    ensures
        r == clamped(2 * n + title_row_count(title@), 2, max as int),
{
    clamp_to(2 * (n as u128) + title_rows_of(title), 2, max)
}

/// Height of the inline session list.
pub fn inline_session_panel_height(entries: &[SessionListEntry], title: &str, limits: &PanelLimits) -> (r: u16)
    requires
        2 <= limits.max_list_height,
    ensures
        r == clamped(2 * entries@.len() + title_row_count(title@), 2, limits.max_list_height as int),
{
    inline_list_height(entries.len(), title, limits.max_list_height)
}

/// Height of the inline thinking list.
pub fn inline_thinking_panel_height(entries: &[ThinkingListEntry], title: &str, limits: &PanelLimits) -> (r: u16)
    requires
        2 <= limits.max_list_height,
    ensures
        r == clamped(2 * entries@.len() + title_row_count(title@), 2, limits.max_list_height as int),
{
    inline_list_height(entries.len(), title, limits.max_list_height)
}

/// Height of the inline preset list.
pub fn inline_preset_panel_height(entries: &[PresetListEntry], title: &str, limits: &PanelLimits) -> (r: u16)
    requires
        2 <= limits.max_list_height,
    ensures
        r == clamped(2 * entries@.len() + title_row_count(title@), 2, limits.max_list_height as int),
{
    inline_list_height(entries.len(), title, limits.max_list_height)
}

/// Height of the inline panel: nothing without a panel or during model
/// onboarding; otherwise by its content (a model list at most eight rows).
pub open spec fn inline_height(panel: Option<AuxPanel>, show_model_onboarding: bool, limits: PanelLimits) -> int {
    match panel {
        None => 0,
        Some(p) => if show_model_onboarding {
            0
        } else {
            let t = title_row_count(p.title@);
            match p.content {
                AuxPanelContent::Text(body) => clamped(lines(body@).len() + t, 2, limits.max_text_height as int),
                AuxPanelContent::SessionList(es) => clamped(2 * es@.len() + t, 2, limits.max_list_height as int),
                AuxPanelContent::ThinkingList(es) => clamped(2 * es@.len() + t, 2, limits.max_list_height as int),
                AuxPanelContent::ModelList(es) => clamped(2 * es@.len() + t, 2, 8),
                AuxPanelContent::PresetList(es) => clamped(2 * es@.len() + t, 2, limits.max_list_height as int),
            }
        },
    }
}

/// Height of the inline panel.
pub fn inline_aux_panel_height(panel: Option<&AuxPanel>, show_model_onboarding: bool, limits: &PanelLimits) -> (r: u16)
    requires
        2 <= limits.max_text_height,
        2 <= limits.max_list_height,
    ensures
        r == inline_height(
            match panel {
                Some(p) => Some(*p),
                None => None,
            },
            show_model_onboarding,
            *limits,
        ),
{
    let p = match panel {
        None => {
            return 0;
        },
        Some(p) => p,
    };
    if show_model_onboarding {
        return 0;
    }
    match &p.content {
        AuxPanelContent::Text(body) => inline_text_panel_height(body.as_str(), p.title.as_str(), limits),
        AuxPanelContent::SessionList(es) => inline_session_panel_height(es.as_slice(), p.title.as_str(), limits),
        AuxPanelContent::ThinkingList(es) => inline_thinking_panel_height(es.as_slice(), p.title.as_str(), limits),
        AuxPanelContent::ModelList(es) => inline_list_height(es.len(), p.title.as_str(), 8),
        AuxPanelContent::PresetList(es) => inline_preset_panel_height(es.as_slice(), p.title.as_str(), limits),
    }
}

/// Height of the panel above the transcript: nothing without a panel or
/// during model onboarding; otherwise by its content, a model list taking
/// `model_list_height` rows.
pub open spec fn panel_height(
    panel: Option<AuxPanel>,
    show_model_onboarding: bool,
    model_list_height: u16,
    limits: PanelLimits,
) -> int {
    match panel {
        None => 0,
        Some(p) => if show_model_onboarding {
            0
        } else {
            match p.content {
                AuxPanelContent::Text(body) => clamped(lines(body@).len() + 2int, 4, limits.max_text_height as int),
                AuxPanelContent::SessionList(es) => clamped(2 * es@.len() + 2int, 4, limits.max_list_height as int),
                AuxPanelContent::ThinkingList(es) => clamped(2 * es@.len() + 2int, 4, limits.max_list_height as int),
                AuxPanelContent::ModelList(_) => model_list_height as int,
                AuxPanelContent::PresetList(es) => clamped(2 * es@.len() + 2int, 4, limits.max_list_height as int),
            }
        },
    }
}

/// Height of the panel above the transcript; `model_list_height` is the
/// height a model list takes.
pub fn aux_panel_height(
    panel: Option<&AuxPanel>,
    show_model_onboarding: bool,
    model_list_height: u16,
    limits: &PanelLimits,
) -> (r: u16)
    requires
        4 <= limits.max_text_height,
        4 <= limits.max_list_height,
    ensures
        r == panel_height(
            match panel {
                Some(p) => Some(*p),
                None => None,
            },
            show_model_onboarding,
            model_list_height,
            *limits,
        ),
{
    let p = match panel {
        None => {
            return 0;
        },
        Some(p) => p,
    };
    if show_model_onboarding {
        return 0;
    }
    match &p.content {
        AuxPanelContent::Text(body) => text_panel_height(body.as_str(), limits),
        AuxPanelContent::SessionList(es) => session_panel_height(es.as_slice(), limits),
        AuxPanelContent::ThinkingList(es) => thinking_panel_height(es.as_slice(), limits),
        AuxPanelContent::ModelList(_) => model_list_height,
        AuxPanelContent::PresetList(es) => preset_panel_height(es.as_slice(), limits),
    }
}

/// The height of the inline panel where it is drawn: a panel that takes no
/// rows is not drawn.
pub fn inline_aux_panel(panel: Option<&AuxPanel>, show_model_onboarding: bool, limits: &PanelLimits) -> (r: Option<u16>)
    requires
        2 <= limits.max_text_height,
        2 <= limits.max_list_height,
    ensures
        match r {
            Some(h) => h > 0 && h == inline_height(
                match panel {
                    Some(p) => Some(*p),
                    None => None,
                },
                show_model_onboarding,
                *limits,
            ),
            None => inline_height(
                match panel {
                    Some(p) => Some(*p),
                    None => None,
                },
                show_model_onboarding,
                *limits,
            ) == 0,
        },
{
    let h = inline_aux_panel_height(panel, show_model_onboarding, limits);
    if h == 0 {
        None
    } else {
        Some(h)
    }
}

/// Where the inline panel's rows go in `area`: against its bottom, each
/// two columns in from its left, one row high; rows that do not fit are
/// left out.
pub open spec fn row_rect(area: crate::tui::geometry::Rect, count: int, index: int) -> crate::tui::geometry::Rect {
    let start = crate::tui::geometry::min_of(
        area.y + crate::tui::geometry::sat_sub(area.height as int, count % 0x10000),
        u16::MAX as int,
    );
    crate::tui::geometry::Rect {
        x: crate::tui::geometry::min_of(area.x + 2, u16::MAX as int) as u16,
        y: crate::tui::geometry::min_of(start + index, u16::MAX as int) as u16,
        width: crate::tui::geometry::sat_sub(area.width as int, 2) as u16,
        height: 1,
    }
}

/// The rectangles of the inline panel's rows in `area`, in order.
pub fn inline_panel_row_rects(area: crate::tui::geometry::Rect, count: usize) -> (r: Vec<crate::tui::geometry::Rect>)
    ensures
        r.len() <= count,
        forall|i: int| 0 <= i < r.len() ==> #[trigger] r@[i] == row_rect(area, count as int, i),
        forall|i: int| 0 <= i < r.len() ==> (r@[i].y as int) < crate::tui::geometry::min_of(
            area.y + area.height,
            u16::MAX as int,
        ),
        r.len() < count ==> row_rect(area, count as int, r.len() as int).y as int >= crate::tui::geometry::min_of(
            area.y + area.height,
            u16::MAX as int,
        ),
{
    let n16: u16 = (count % 0x10000) as u16;
    let start = area.y.saturating_add(area.height.saturating_sub(n16));
    let bottom = area.y.saturating_add(area.height);
    let mut r: Vec<crate::tui::geometry::Rect> = Vec::new();
    let mut i: usize = 0;
    while i < count
        invariant
            i <= count,
            r.len() == i,
            n16 as int == count as int % 0x10000,
            start as int == crate::tui::geometry::min_of(
                area.y + crate::tui::geometry::sat_sub(area.height as int, count as int % 0x10000),
                u16::MAX as int,
            ),
            bottom as int == crate::tui::geometry::min_of(area.y + area.height, u16::MAX as int),
            forall|k: int| 0 <= k < r.len() ==> #[trigger] r@[k] == row_rect(area, count as int, k),
            forall|k: int| 0 <= k < r.len() ==> (r@[k].y as int) < bottom,
        ensures
            r.len() <= count,
            forall|k: int| 0 <= k < r.len() ==> #[trigger] r@[k] == row_rect(area, count as int, k),
            forall|k: int| 0 <= k < r.len() ==> (r@[k].y as int) < bottom,
            r.len() < count ==> row_rect(area, count as int, r.len() as int).y as int >= bottom,
        decreases count - i,
    {
        let iy: u16 = if i < 0x10000 {
            i as u16
        } else {
            u16::MAX
        };
        let y = start.saturating_add(iy);
        if y >= bottom {
            break;
        }
        r.push(
            crate::tui::geometry::Rect {
                x: area.x.saturating_add(2),
                y,
                width: area.width.saturating_sub(2),
                height: 1,
            },
        );
        i += 1;
    }
    r
}

// ---------------------------------------------------------------- rows

/// The selection marker and its style.
pub open spec fn marker(index: int, selection: int) -> (Seq<char>, StyleRole) {
    if index == selection {
        ("› "@, StyleRole::Prompt)
    } else {
        ("  "@, StyleRole::Muted)
    }
}

/// The two rows of a session entry.
pub open spec fn session_rows(e: SessionListEntry, index: int, selection: int) -> Seq<Seq<(Seq<char>, StyleRole)>> {
    seq![
        seq![
            marker(index, selection),
            (e.title@, StyleRole::PanelTitle),
            ("  "@, StyleRole::Plain),
            ("["@ + (if e.is_active { "current"@ } else { "saved"@ }) + "]"@, StyleRole::Muted),
        ],
        seq![("  "@, StyleRole::Plain), (e.session_id@, StyleRole::Muted), ("  "@, StyleRole::Plain), (e.updated_at@, StyleRole::Muted)],
    ]
}

/// The first row of a model or preset entry: marker, name (bold when
/// current) and a `current` tag.
pub open spec fn named_row(name: Seq<char>, is_current: bool, index: int, selection: int) -> Seq<(Seq<char>, StyleRole)> {
    let head = seq![marker(index, selection), (name, if is_current { StyleRole::Bold } else { StyleRole::PanelTitle })];
    if is_current {
        head + seq![("  "@, StyleRole::Plain), ("current"@, StyleRole::Muted)]
    } else {
        head
    }
}

/// The rows of a model entry: its name row, and its description when not
/// blank.
pub open spec fn model_rows(e: ModelListEntry, index: int, selection: int) -> Seq<Seq<(Seq<char>, StyleRole)>> {
    let first = seq![named_row(e.display_name@, e.is_current, index, selection)];
    match e.description {
        Some(d) => if trim(d@).len() > 0 {
            first.push(seq![("  "@, StyleRole::Plain), (d@, StyleRole::Muted)])
        } else {
            first
        },
        None => first,
    }
}

/// The two rows of a thinking entry.
pub open spec fn thinking_rows(e: ThinkingListEntry, index: int, selection: int) -> Seq<Seq<(Seq<char>, StyleRole)>> {
    seq![
        seq![
            marker(index, selection),
            (e.label@, StyleRole::PanelTitle),
            ("  "@, StyleRole::Plain),
            ("["@ + e.value@ + "]"@, StyleRole::Muted),
        ],
        seq![("  "@, StyleRole::Plain), (e.description@, StyleRole::Muted)],
    ]
}

/// The rows of a preset entry: its name row, and its description when not
/// empty.
pub open spec fn preset_rows(e: PresetListEntry, index: int, selection: int) -> Seq<Seq<(Seq<char>, StyleRole)>> {
    let first = seq![named_row(e.display_name@, e.is_current, index, selection)];
    if e.description@.len() > 0 {
        first.push(seq![("  "@, StyleRole::Plain), (e.description@, StyleRole::Muted)])
    } else {
        first
    }
}

/// The rows of every entry, in order.
pub open spec fn each_rows<T>(es: Seq<T>, f: spec_fn(T, int) -> Seq<Seq<(Seq<char>, StyleRole)>>) -> Seq<
    Seq<(Seq<char>, StyleRole)>,
>
    decreases es.len(),
{
    if es.len() == 0 {
        Seq::empty()
    } else {
        each_rows(es.drop_last(), f) + f(es.last(), es.len() - 1)
    }
}

/// The text panel's rows: each line indented by two spaces.
pub open spec fn text_rows(body: Seq<char>) -> Seq<Seq<(Seq<char>, StyleRole)>> {
    lines(body).map_values(|l: Seq<char>| seq![("  "@ + l, StyleRole::Plain)])
}

/// The inline panel's rows: the title, muted, when not empty, then the
/// content's rows, the selected entry marked.
pub open spec fn panel_rows(p: AuxPanel, selection: int) -> Seq<Seq<(Seq<char>, StyleRole)>> {
    let head: Seq<Seq<(Seq<char>, StyleRole)>> = if p.title@.len() > 0 {
        seq![seq![("  "@ + p.title@, StyleRole::Muted)]]
    } else {
        Seq::empty()
    };
    head + match p.content {
        AuxPanelContent::Text(body) => text_rows(body@),
        AuxPanelContent::SessionList(es) => each_rows(es@, |e: SessionListEntry, i: int| session_rows(e, i, selection)),
        AuxPanelContent::ModelList(es) => each_rows(es@, |e: ModelListEntry, i: int| model_rows(e, i, selection)),
        AuxPanelContent::ThinkingList(es) => each_rows(es@, |e: ThinkingListEntry, i: int| thinking_rows(e, i, selection)),
        AuxPanelContent::PresetList(es) => each_rows(es@, |e: PresetListEntry, i: int| preset_rows(e, i, selection)),
    }
}

fn push_row(rows: &mut Vec<Vec<Span>>, row: Vec<Span>)
    ensures
        rows_view(final(rows)@) == rows_view(old(rows)@).push(row_view(row@)),
{
    let ghost before = rows@;
    rows.push(row);
    assert(rows_view(rows@) =~= rows_view(before).push(row_view(row@)));
}

fn push_span(row: &mut Vec<Span>, text: &str, style: StyleRole)
    ensures
        row_view(final(row)@) == row_view(old(row)@).push((text@, style)),
{
    let ghost before = row@;
    row.push(span(text, style));
    assert(row_view(row@) =~= row_view(before).push((text@, style)));
}

fn marker_span(row: &mut Vec<Span>, index: usize, selection: usize)
    ensures
        row_view(final(row)@) == row_view(old(row)@).push(marker(index as int, selection as int)),
{
    if index == selection {
        push_span(row, "› ", StyleRole::Prompt);
    } else {
        push_span(row, "  ", StyleRole::Muted);
    }
}

fn bracketed(value: &str) -> (r: String)
    ensures
        r@ == "["@ + value@ + "]"@,
{
    let mut v = chars_of("[");
    push_str(&mut v, value);
    push_str(&mut v, "]");
    string_of(v.as_slice())
}

fn named_row_exec(name: &str, is_current: bool, index: usize, selection: usize) -> (r: Vec<Span>)
    ensures
        row_view(r@) == named_row(name@, is_current, index as int, selection as int),
{
    let mut row: Vec<Span> = Vec::new();
    marker_span(&mut row, index, selection);
    push_span(&mut row, name, if is_current {
        StyleRole::Bold
    } else {
        StyleRole::PanelTitle
    });
    if is_current {
        push_span(&mut row, "  ", StyleRole::Plain);
        push_span(&mut row, "current", StyleRole::Muted);
    }
    assert(row_view(row@) =~= named_row(name@, is_current, index as int, selection as int));
    row
}

/// The rows of the inline panel, with entry `selection` marked.
pub fn inline_aux_panel_rows(panel: &AuxPanel, selection: usize) -> (r: Vec<Vec<Span>>)
    ensures
        rows_view(r@) == panel_rows(*panel, selection as int),
{
    let mut rows: Vec<Vec<Span>> = Vec::new();
    let tl = chars_of(panel.title.as_str());
    if tl.len() > 0 {
        let mut t = chars_of("  ");
        push_str(&mut t, panel.title.as_str());
        let mut row: Vec<Span> = Vec::new();
        push_span(&mut row, string_of(t.as_slice()).as_str(), StyleRole::Muted);
        push_row(&mut rows, row);
    }
    let ghost head = rows_view(rows@);
    assert(head =~~= (if panel.title@.len() > 0 {
        seq![seq![("  "@ + panel.title@, StyleRole::Muted)]]
    } else {
        Seq::<Seq<(Seq<char>, StyleRole)>>::empty()
    }));
    match &panel.content {
        AuxPanelContent::Text(body) => {
            let ls = lines_of(chars_of(body.as_str()).as_slice());
            let ghost expected = text_rows(body@);
            let mut i: usize = 0;
            while i < ls.len()
                invariant
                    i <= ls.len(),
                    views(ls@) == lines(body@),
                    expected == text_rows(body@),
                    rows_view(rows@) == head + expected.take(i as int),
                decreases ls.len() - i,
            {
                let mut t = chars_of("  ");
                crate::text::extend_chars(&mut t, ls[i].as_slice());
                let mut row: Vec<Span> = Vec::new();
                push_span(&mut row, string_of(t.as_slice()).as_str(), StyleRole::Plain);
                push_row(&mut rows, row);
                assert(views(ls@)[i as int] == ls@[i as int]@);
                assert(expected.take((i + 1) as int) =~= expected.take(i as int).push(expected[i as int]));
                assert(rows_view(rows@) =~~= head + expected.take((i + 1) as int));
                i += 1;
            }
            assert(expected.take(i as int) =~= expected);
        },
        AuxPanelContent::SessionList(es) => {
            let mut i: usize = 0;
            while i < es.len()
                invariant
                    i <= es.len(),
                    rows_view(rows@) == head + each_rows(es@.take(i as int), |e: SessionListEntry, k: int| session_rows(e, k, selection as int)),
                decreases es.len() - i,
            {
                let e = &es[i];
                let mut a: Vec<Span> = Vec::new();
                marker_span(&mut a, i, selection);
                push_span(&mut a, e.title.as_str(), StyleRole::PanelTitle);
                push_span(&mut a, "  ", StyleRole::Plain);
                let tag = bracketed(if e.is_active {
                    "current"
                } else {
                    "saved"
                });
                push_span(&mut a, tag.as_str(), StyleRole::Muted);
                let mut b: Vec<Span> = Vec::new();
                push_span(&mut b, "  ", StyleRole::Plain);
                push_span(&mut b, e.session_id.as_str(), StyleRole::Muted);
                push_span(&mut b, "  ", StyleRole::Plain);
                push_span(&mut b, e.updated_at.as_str(), StyleRole::Muted);
                let ghost before = rows_view(rows@);
                push_row(&mut rows, a);
                push_row(&mut rows, b);
                assert(es@.take((i + 1) as int).drop_last() =~= es@.take(i as int));
                assert(rows_view(rows@) =~~= before + session_rows(es@[i as int], i as int, selection as int));
                i += 1;
            }
            assert(es@.take(i as int) =~= es@);
        },
        AuxPanelContent::ModelList(es) => {
            let mut i: usize = 0;
            while i < es.len()
                invariant
                    i <= es.len(),
                    rows_view(rows@) == head + each_rows(es@.take(i as int), |e: ModelListEntry, k: int| model_rows(e, k, selection as int)),
                decreases es.len() - i,
            {
                let e = &es[i];
                let ghost before = rows_view(rows@);
                push_row(&mut rows, named_row_exec(e.display_name.as_str(), e.is_current, i, selection));
                match &e.description {
                    Some(d) => {
                        if trim_chars(chars_of(d.as_str()).as_slice()).len() > 0 {
                            let mut b: Vec<Span> = Vec::new();
                            push_span(&mut b, "  ", StyleRole::Plain);
                            push_span(&mut b, d.as_str(), StyleRole::Muted);
                            push_row(&mut rows, b);
                        }
                    },
                    None => {},
                }
                assert(es@.take((i + 1) as int).drop_last() =~= es@.take(i as int));
                assert(rows_view(rows@) =~~= before + model_rows(es@[i as int], i as int, selection as int));
                i += 1;
            }
            assert(es@.take(i as int) =~= es@);
        },
        AuxPanelContent::ThinkingList(es) => {
            let mut i: usize = 0;
            while i < es.len()
                invariant
                    i <= es.len(),
                    rows_view(rows@) == head + each_rows(es@.take(i as int), |e: ThinkingListEntry, k: int| thinking_rows(e, k, selection as int)),
                decreases es.len() - i,
            {
                let e = &es[i];
                let mut a: Vec<Span> = Vec::new();
                marker_span(&mut a, i, selection);
                push_span(&mut a, e.label.as_str(), StyleRole::PanelTitle);
                push_span(&mut a, "  ", StyleRole::Plain);
                let v = bracketed(e.value.as_str());
                push_span(&mut a, v.as_str(), StyleRole::Muted);
                let mut b: Vec<Span> = Vec::new();
                push_span(&mut b, "  ", StyleRole::Plain);
                push_span(&mut b, e.description.as_str(), StyleRole::Muted);
                let ghost before = rows_view(rows@);
                push_row(&mut rows, a);
                push_row(&mut rows, b);
                assert(es@.take((i + 1) as int).drop_last() =~= es@.take(i as int));
                assert(rows_view(rows@) =~~= before + thinking_rows(es@[i as int], i as int, selection as int));
                i += 1;
            }
            assert(es@.take(i as int) =~= es@);
        },
        AuxPanelContent::PresetList(es) => {
            let mut i: usize = 0;
            while i < es.len()
                invariant
                    i <= es.len(),
                    rows_view(rows@) == head + each_rows(es@.take(i as int), |e: PresetListEntry, k: int| preset_rows(e, k, selection as int)),
                decreases es.len() - i,
            {
                let e = &es[i];
                let ghost before = rows_view(rows@);
                push_row(&mut rows, named_row_exec(e.display_name.as_str(), e.is_current, i, selection));
                if chars_of(e.description.as_str()).len() > 0 {
                    let mut b: Vec<Span> = Vec::new();
                    push_span(&mut b, "  ", StyleRole::Plain);
                    push_span(&mut b, e.description.as_str(), StyleRole::Muted);
                    push_row(&mut rows, b);
                }
                assert(es@.take((i + 1) as int).drop_last() =~= es@.take(i as int));
                assert(rows_view(rows@) =~~= before + preset_rows(es@[i as int], i as int, selection as int));
                i += 1;
            }
            assert(es@.take(i as int) =~= es@);
        },
    }
    rows
}

// ---------------------------------------------------------------- list items

/// Lines of list items, each line a sequence of styled pieces.
pub open spec fn items_view(items: Seq<Vec<Vec<Span>>>) -> Seq<Seq<Seq<(Seq<char>, StyleRole)>>> {
    items.map_values(|it: Vec<Vec<Span>>| rows_view(it@))
}

/// The single item a list shows when it has no entries.
pub open spec fn empty_items(message: Seq<char>) -> Seq<Seq<Seq<(Seq<char>, StyleRole)>>> {
    seq![seq![seq![(message, StyleRole::Muted)]]]
}

/// A session as a list item: title and whether it is the current one, then
/// its id and when it was last updated.
pub open spec fn session_item(e: SessionListEntry) -> Seq<Seq<(Seq<char>, StyleRole)>> {
    seq![
        seq![
            (e.title@, StyleRole::PanelTitle),
            ("  "@, StyleRole::Muted),
            ("["@ + (if e.is_active { "current"@ } else { "saved"@ }) + "]"@, StyleRole::Muted),
        ],
        seq![(e.session_id@, StyleRole::Muted), ("  "@, StyleRole::Muted), (e.updated_at@, StyleRole::Muted)],
    ]
}

/// The session list's items.
pub open spec fn session_list_items(es: Seq<SessionListEntry>) -> Seq<Seq<Seq<(Seq<char>, StyleRole)>>> {
    if es.len() == 0 {
        empty_items("No saved sessions found."@)
    } else {
        es.map_values(|e: SessionListEntry| session_item(e))
    }
}

/// A model's description when it is not blank, else `fallback`.
pub open spec fn description_or(description: Option<String>, fallback: Seq<char>) -> Seq<char> {
    match description {
        Some(d) => if trim(d@).len() > 0 {
            d@
        } else {
            fallback
        },
        None => fallback,
    }
}

/// A model as a list item while the user is onboarding: its name, tagged
/// when current, and its description.
pub open spec fn onboarding_model_item(e: ModelListEntry) -> Seq<Seq<(Seq<char>, StyleRole)>> {
    let title = if e.is_current {
        e.display_name@ + "  current"@
    } else {
        e.display_name@
    };
    let fallback = if e.is_custom_mode {
        "Type a model name manually"@
    } else {
        Seq::empty()
    };
    seq![seq![(title, StyleRole::PanelTitle)], seq![(description_or(e.description, fallback), StyleRole::Muted)]]
}

/// A model as a list item in the model switcher: its name, styled by its
/// kind, a `current` tag, and its description.
pub open spec fn switch_model_item(e: ModelListEntry) -> Seq<Seq<(Seq<char>, StyleRole)>> {
    let style = if e.is_custom_mode {
        StyleRole::Prompt
    } else if e.is_current {
        StyleRole::Bold
    } else {
        StyleRole::PanelTitle
    };
    let tag = if e.is_current {
        ("  current"@, StyleRole::Muted)
    } else {
        (Seq::empty(), StyleRole::Plain)
    };
    let fallback = if e.is_custom_mode {
        "Open onboarding to add another model"@
    } else {
        "saved model"@
    };
    seq![seq![(e.display_name@, style), tag], seq![(description_or(e.description, fallback), StyleRole::Muted)]]
}

/// The model list's items.
pub open spec fn model_list_items(es: Seq<ModelListEntry>, onboarding: bool) -> Seq<Seq<Seq<(Seq<char>, StyleRole)>>> {
    if es.len() == 0 {
        empty_items("No models available."@)
    } else if onboarding {
        es.map_values(|e: ModelListEntry| onboarding_model_item(e))
    } else {
        es.map_values(|e: ModelListEntry| switch_model_item(e))
    }
}

/// A preset as a list item: its name, bold and tagged when current, then its
/// description.
pub open spec fn preset_item(e: PresetListEntry) -> Seq<Seq<(Seq<char>, StyleRole)>> {
    let name = (e.display_name@, if e.is_current { StyleRole::Bold } else { StyleRole::PanelTitle });
    let first = if e.is_current {
        seq![name, ("  "@, StyleRole::Plain), ("current"@, StyleRole::Muted)]
    } else {
        seq![name]
    };
    seq![first, seq![(e.description@, StyleRole::Muted)]]
}

/// The preset list's items.
pub open spec fn preset_list_items(es: Seq<PresetListEntry>) -> Seq<Seq<Seq<(Seq<char>, StyleRole)>>> {
    if es.len() == 0 {
        empty_items("No providers available."@)
    } else {
        es.map_values(|e: PresetListEntry| preset_item(e))
    }
}

/// A thinking option as a list item: its label, tagged when current, its
/// value in brackets, then its description.
pub open spec fn thinking_item(e: ThinkingListEntry) -> Seq<Seq<(Seq<char>, StyleRole)>> {
    let title = if e.is_current {
        e.label@ + "  current"@
    } else {
        e.label@
    };
    seq![
        seq![(title, StyleRole::PanelTitle), ("  "@, StyleRole::Muted), ("["@ + e.value@ + "]"@, StyleRole::Muted)],
        seq![(e.description@, StyleRole::Muted)],
    ]
}

/// The thinking list's items.
pub open spec fn thinking_list_items(es: Seq<ThinkingListEntry>) -> Seq<Seq<Seq<(Seq<char>, StyleRole)>>> {
    if es.len() == 0 {
        empty_items("No thinking options available."@)
    } else {
        es.map_values(|e: ThinkingListEntry| thinking_item(e))
    }
}

fn empty_item_list(message: &str) -> (r: Vec<Vec<Vec<Span>>>)
    ensures
        items_view(r@) == empty_items(message@),
{
    let mut row: Vec<Span> = Vec::new();
    push_span(&mut row, message, StyleRole::Muted);
    let mut item: Vec<Vec<Span>> = Vec::new();
    push_row(&mut item, row);
    let mut r: Vec<Vec<Vec<Span>>> = Vec::new();
    r.push(item);
    assert(items_view(r@) =~~= empty_items(message@));
    r
}

fn push_item(items: &mut Vec<Vec<Vec<Span>>>, item: Vec<Vec<Span>>)
    ensures
        items_view(final(items)@) == items_view(old(items)@).push(rows_view(item@)),
{
    let ghost before = items@;
    items.push(item);
    assert(items_view(items@) =~= items_view(before).push(rows_view(item@)));
}

fn two_rows(a: Vec<Span>, b: Vec<Span>) -> (r: Vec<Vec<Span>>)
    ensures
        rows_view(r@) == seq![row_view(a@), row_view(b@)],
{
    let mut r: Vec<Vec<Span>> = Vec::new();
    push_row(&mut r, a);
    push_row(&mut r, b);
    assert(rows_view(r@) =~= seq![row_view(a@), row_view(b@)]);
    r
}

fn with_current_tag(name: &str, is_current: bool) -> (r: String)
    ensures
        r@ == if is_current {
            name@ + "  current"@
        } else {
            name@
        },
{
    let mut v = chars_of(name);
    if is_current {
        push_str(&mut v, "  current");
    }
    string_of(v.as_slice())
}

fn description_or_exec(description: &Option<String>, fallback: &str) -> (r: String)
    ensures
        r@ == description_or(*description, fallback@),
{
    match description {
        Some(d) => {
            if trim_chars(chars_of(d.as_str()).as_slice()).len() > 0 {
                string_of(chars_of(d.as_str()).as_slice())
            } else {
                fallback.to_owned()
            }
        },
        None => fallback.to_owned(),
    }
}

/// The session list's items, for the popup list.
pub fn session_items(entries: &[SessionListEntry]) -> (r: Vec<Vec<Vec<Span>>>)
    ensures
        items_view(r@) == session_list_items(entries@),
{
    if entries.len() == 0 {
        return empty_item_list("No saved sessions found.");
    }
    let mut items: Vec<Vec<Vec<Span>>> = Vec::new();
    let mut i: usize = 0;
    while i < entries.len()
        invariant
            i <= entries.len(),
            items_view(items@) == entries@.take(i as int).map_values(|e: SessionListEntry| session_item(e)),
        decreases entries.len() - i,
    {
        let e = &entries[i];
        let mut a: Vec<Span> = Vec::new();
        push_span(&mut a, e.title.as_str(), StyleRole::PanelTitle);
        push_span(&mut a, "  ", StyleRole::Muted);
        let tag = bracketed(if e.is_active {
            "current"
        } else {
            "saved"
        });
        push_span(&mut a, tag.as_str(), StyleRole::Muted);
        let mut b: Vec<Span> = Vec::new();
        push_span(&mut b, e.session_id.as_str(), StyleRole::Muted);
        push_span(&mut b, "  ", StyleRole::Muted);
        push_span(&mut b, e.updated_at.as_str(), StyleRole::Muted);
        let item = two_rows(a, b);
        assert(rows_view(item@) =~~= session_item(entries@[i as int]));
        push_item(&mut items, item);
        proof {
            assert(entries@.take((i + 1) as int).map_values(|e: SessionListEntry| session_item(e)) =~~= entries@.take(
                i as int,
            ).map_values(|e: SessionListEntry| session_item(e)).push(session_item(entries@[i as int])));
        }
        i += 1;
    }
    assert(entries@.take(i as int) =~= entries@);
    items
}

/// The model list's items, for the popup list; `onboarding` picks the
/// onboarding wording.
pub fn model_items(entries: &[ModelListEntry], onboarding: bool) -> (r: Vec<Vec<Vec<Span>>>)
    ensures
        items_view(r@) == model_list_items(entries@, onboarding),
{
    if entries.len() == 0 {
        return empty_item_list("No models available.");
    }
    let ghost f = if onboarding {
        |e: ModelListEntry| onboarding_model_item(e)
    } else {
        |e: ModelListEntry| switch_model_item(e)
    };
    let mut items: Vec<Vec<Vec<Span>>> = Vec::new();
    let mut i: usize = 0;
    while i < entries.len()
        invariant
            i <= entries.len(),
            f == if onboarding {
                |e: ModelListEntry| onboarding_model_item(e)
            } else {
                |e: ModelListEntry| switch_model_item(e)
            },
            items_view(items@) == entries@.take(i as int).map_values(f),
        decreases entries.len() - i,
    {
        let e = &entries[i];
        if onboarding {
            let title = with_current_tag(e.display_name.as_str(), e.is_current);
            let description = description_or_exec(&e.description, if e.is_custom_mode {
                "Type a model name manually"
            } else {
                ""
            });
            proof {
                reveal_strlit("");
            }
            let mut a: Vec<Span> = Vec::new();
            push_span(&mut a, title.as_str(), StyleRole::PanelTitle);
            let mut b: Vec<Span> = Vec::new();
            push_span(&mut b, description.as_str(), StyleRole::Muted);
            let item = two_rows(a, b);
            assert(rows_view(item@) =~~= onboarding_model_item(entries@[i as int]));
            push_item(&mut items, item);
        } else {
            let style = if e.is_custom_mode {
                StyleRole::Prompt
            } else if e.is_current {
                StyleRole::Bold
            } else {
                StyleRole::PanelTitle
            };
            let mut a: Vec<Span> = Vec::new();
            push_span(&mut a, e.display_name.as_str(), style);
            if e.is_current {
                push_span(&mut a, "  current", StyleRole::Muted);
            } else {
                push_span(&mut a, "", StyleRole::Plain);
                proof {
                    reveal_strlit("");
                }
            }
            let description = description_or_exec(&e.description, if e.is_custom_mode {
                "Open onboarding to add another model"
            } else {
                "saved model"
            });
            let mut b: Vec<Span> = Vec::new();
            push_span(&mut b, description.as_str(), StyleRole::Muted);
            let item = two_rows(a, b);
            assert(rows_view(item@) =~~= switch_model_item(entries@[i as int]));
            push_item(&mut items, item);
        }
        proof {
            assert(entries@.take((i + 1) as int).map_values(f) =~~= entries@.take(i as int).map_values(f).push(
                f(entries@[i as int]),
            ));
        }
        i += 1;
    }
    assert(entries@.take(i as int) =~= entries@);
    items
}

/// The preset list's items, for the popup list.
pub fn preset_items(entries: &[PresetListEntry]) -> (r: Vec<Vec<Vec<Span>>>)
    ensures
        items_view(r@) == preset_list_items(entries@),
{
    if entries.len() == 0 {
        return empty_item_list("No providers available.");
    }
    let mut items: Vec<Vec<Vec<Span>>> = Vec::new();
    let mut i: usize = 0;
    while i < entries.len()
        invariant
            i <= entries.len(),
            items_view(items@) == entries@.take(i as int).map_values(|e: PresetListEntry| preset_item(e)),
        decreases entries.len() - i,
    {
        let e = &entries[i];
        let mut a: Vec<Span> = Vec::new();
        push_span(&mut a, e.display_name.as_str(), if e.is_current {
            StyleRole::Bold
        } else {
            StyleRole::PanelTitle
        });
        if e.is_current {
            push_span(&mut a, "  ", StyleRole::Plain);
            push_span(&mut a, "current", StyleRole::Muted);
        }
        let mut b: Vec<Span> = Vec::new();
        push_span(&mut b, e.description.as_str(), StyleRole::Muted);
        let item = two_rows(a, b);
        assert(rows_view(item@) =~~= preset_item(entries@[i as int]));
        push_item(&mut items, item);
        proof {
            assert(entries@.take((i + 1) as int).map_values(|e: PresetListEntry| preset_item(e)) =~~= entries@.take(
                i as int,
            ).map_values(|e: PresetListEntry| preset_item(e)).push(preset_item(entries@[i as int])));
        }
        i += 1;
    }
    assert(entries@.take(i as int) =~= entries@);
    items
}

/// The thinking list's items, for the popup list.
pub fn thinking_items(entries: &[ThinkingListEntry]) -> (r: Vec<Vec<Vec<Span>>>)
    ensures
        items_view(r@) == thinking_list_items(entries@),
{
    if entries.len() == 0 {
        return empty_item_list("No thinking options available.");
    }
    let mut items: Vec<Vec<Vec<Span>>> = Vec::new();
    let mut i: usize = 0;
    while i < entries.len()
        invariant
            i <= entries.len(),
            items_view(items@) == entries@.take(i as int).map_values(|e: ThinkingListEntry| thinking_item(e)),
        decreases entries.len() - i,
    {
        let e = &entries[i];
        let title = with_current_tag(e.label.as_str(), e.is_current);
        let mut a: Vec<Span> = Vec::new();
        push_span(&mut a, title.as_str(), StyleRole::PanelTitle);
        push_span(&mut a, "  ", StyleRole::Muted);
        let tag = bracketed(e.value.as_str());
        push_span(&mut a, tag.as_str(), StyleRole::Muted);
        let mut b: Vec<Span> = Vec::new();
        push_span(&mut b, e.description.as_str(), StyleRole::Muted);
        let item = two_rows(a, b);
        assert(rows_view(item@) =~~= thinking_item(entries@[i as int]));
        push_item(&mut items, item);
        proof {
            assert(entries@.take((i + 1) as int).map_values(|e: ThinkingListEntry| thinking_item(e)) =~~= entries@.take(
                i as int,
            ).map_values(|e: ThinkingListEntry| thinking_item(e)).push(thinking_item(entries@[i as int])));
        }
        i += 1;
    }
    assert(entries@.take(i as int) =~= entries@);
    items
}

} // verus!
