//! The colors of the interface: the style each role is drawn in.
use vstd::prelude::*;

use crate::tui::render::StyleRole;
use crate::tui::transcript::TranscriptItemKind;

verus! {

/// The shades of the palette.
#[derive(Clone, Copy, Debug, PartialEq, Eq, Structural)]
pub enum Shade {
    /// The brightest slate, for focal text.
    Slate100,
    /// Slate for primary body text.
    Slate200,
    /// Slate for secondary body text.
    Slate300,
    /// Muted slate.
    Slate400,
    /// Dim slate, for connectors.
    Slate500,
    /// Slate for separators.
    Slate600,
    /// The brightest accent.
    Cyan200,
    /// The accent.
    Cyan300,
    /// The accent for tool glyphs.
    Cyan400,
    /// The accent for borders.
    Cyan600,
    /// Amber, for what waits on the user.
    Amber300,
    /// Red, for errors.
    Red300,
    /// The background of menus.
    Surface,
    /// The background of the user's messages.
    UserBubbleBg,
}

/// The red, green and blue of a shade.
pub open spec fn shade_rgb(s: Shade) -> (u8, u8, u8) {
    match s {
        Shade::Slate100 => (234, 238, 245),
        Shade::Slate200 => (213, 219, 227),
        Shade::Slate300 => (175, 184, 200),
        Shade::Slate400 => (138, 148, 163),
        Shade::Slate500 => (113, 124, 141),
        Shade::Slate600 => (82, 92, 108),
        Shade::Cyan200 => (165, 231, 241),
        Shade::Cyan300 => (112, 211, 228),
        Shade::Cyan400 => (80, 180, 200),
        Shade::Cyan600 => (48, 122, 140),
        Shade::Amber300 => (245, 201, 117),
        Shade::Red300 => (244, 137, 137),
        Shade::Surface => (24, 28, 34),
        Shade::UserBubbleBg => (40, 46, 56),
    }
}

/// The red, green and blue of a shade.
pub fn rgb_of(s: Shade) -> (r: (u8, u8, u8))
    ensures
        r == shade_rgb(s),
{
    match s {
        Shade::Slate100 => (234, 238, 245),
        Shade::Slate200 => (213, 219, 227),
        Shade::Slate300 => (175, 184, 200),
        Shade::Slate400 => (138, 148, 163),
        Shade::Slate500 => (113, 124, 141),
        Shade::Slate600 => (82, 92, 108),
        Shade::Cyan200 => (165, 231, 241),
        Shade::Cyan300 => (112, 211, 228),
        Shade::Cyan400 => (80, 180, 200),
        Shade::Cyan600 => (48, 122, 140),
        Shade::Amber300 => (245, 201, 117),
        Shade::Red300 => (244, 137, 137),
        Shade::Surface => (24, 28, 34),
        Shade::UserBubbleBg => (40, 46, 56),
    }
}

/// A terminal color.
#[derive(Clone, Copy, Debug, PartialEq, Eq, Structural)]
pub enum Color {
    Shade(Shade),
    Black,
    Yellow,
}

/// How text is drawn: its colors, where set, and whether it is bold.
#[derive(Clone, Copy, Debug, PartialEq, Eq, Structural)]
pub struct Style {
    pub fg: Option<Color>,
    pub bg: Option<Color>,
    pub bold: bool,
}

/// A foreground color.
pub open spec fn fg(c: Color) -> Style {
    Style { fg: Some(c), bg: None, bold: false }
}

/// A bold foreground color.
pub open spec fn fg_bold(c: Color) -> Style {
    Style { fg: Some(c), bg: None, bold: true }
}

/// The style of a transcript entry's prefix.
pub open spec fn prefix_style(kind: TranscriptItemKind) -> Style {
    match kind {
        TranscriptItemKind::User => fg_bold(Color::Shade(Shade::Cyan300)),
        TranscriptItemKind::Assistant => fg_bold(Color::Shade(Shade::Cyan400)),
        TranscriptItemKind::Reasoning => fg(Color::Shade(Shade::Slate500)),
        TranscriptItemKind::ToolCall => fg_bold(Color::Shade(Shade::Cyan300)),
        TranscriptItemKind::ToolResult => fg(Color::Shade(Shade::Slate500)),
        TranscriptItemKind::Error => fg_bold(Color::Shade(Shade::Red300)),
        TranscriptItemKind::System => fg(Color::Shade(Shade::Slate500)),
        TranscriptItemKind::ApprovalPrompt => fg_bold(Color::Shade(Shade::Amber300)),
        TranscriptItemKind::ApprovalResolution => fg(Color::Shade(Shade::Slate400)),
    }
}

/// The style of a transcript entry's title.
pub open spec fn title_style(kind: TranscriptItemKind) -> Style {
    match kind {
        TranscriptItemKind::ToolCall => fg_bold(Color::Shade(Shade::Slate100)),
        TranscriptItemKind::ToolResult => fg(Color::Shade(Shade::Slate300)),
        TranscriptItemKind::Reasoning => fg(Color::Shade(Shade::Slate500)),
        TranscriptItemKind::Error => fg_bold(Color::Shade(Shade::Red300)),
        TranscriptItemKind::System => fg_bold(Color::Shade(Shade::Slate300)),
        TranscriptItemKind::User => fg_bold(Color::Shade(Shade::Cyan200)),
        TranscriptItemKind::Assistant => fg(Color::Shade(Shade::Slate100)),
        TranscriptItemKind::ApprovalPrompt => fg_bold(Color::Shade(Shade::Amber300)),
        TranscriptItemKind::ApprovalResolution => fg(Color::Shade(Shade::Slate300)),
    }
}

/// The style of a transcript entry's body.
pub open spec fn body_style(kind: TranscriptItemKind) -> Style {
    match kind {
        TranscriptItemKind::User => fg(Color::Shade(Shade::Slate100)),
        TranscriptItemKind::Assistant => fg(Color::Shade(Shade::Slate100)),
        TranscriptItemKind::Reasoning => fg(Color::Shade(Shade::Slate400)),
        TranscriptItemKind::ToolCall => fg(Color::Shade(Shade::Slate300)),
        TranscriptItemKind::ToolResult => fg(Color::Shade(Shade::Slate400)),
        TranscriptItemKind::Error => fg(Color::Shade(Shade::Red300)),
        TranscriptItemKind::System => fg(Color::Shade(Shade::Slate400)),
        TranscriptItemKind::ApprovalPrompt => fg(Color::Shade(Shade::Slate200)),
        TranscriptItemKind::ApprovalResolution => fg(Color::Shade(Shade::Slate400)),
    }
}

/// The style each role is drawn in.
pub open spec fn role_style(role: StyleRole) -> Style {
    match role {
        StyleRole::Plain => Style { fg: None, bg: None, bold: false },
        StyleRole::Bold => Style { fg: None, bg: None, bold: true },
        StyleRole::Prompt => fg_bold(Color::Shade(Shade::Cyan300)),
        StyleRole::Muted => fg(Color::Shade(Shade::Slate500)),
        StyleRole::Dim => fg(Color::Shade(Shade::Slate600)),
        StyleRole::Accent => fg(Color::Shade(Shade::Cyan300)),
        StyleRole::AccentBright => fg_bold(Color::Shade(Shade::Cyan200)),
        StyleRole::AccentDim => fg(Color::Shade(Shade::Cyan400)),
        StyleRole::UserBubblePrefix => Style { fg: Some(Color::Shade(Shade::Cyan300)), bg: Some(Color::Shade(Shade::UserBubbleBg)), bold: true },
        StyleRole::UserBubbleBody => Style { fg: Some(Color::Shade(Shade::Slate100)), bg: Some(Color::Shade(Shade::UserBubbleBg)), bold: false },
        StyleRole::UserBubbleFill => Style { fg: None, bg: Some(Color::Shade(Shade::UserBubbleBg)), bold: false },
        StyleRole::PanelTitle => fg_bold(Color::Shade(Shade::Slate500)),
        StyleRole::Interrupted => fg_bold(Color::Yellow),
        StyleRole::Prefix(k) => prefix_style(k),
        StyleRole::Title(k) => title_style(k),
        StyleRole::Body(k) => body_style(k),
    }
}

fn plain_fg(c: Color, bold: bool) -> (r: Style)
    ensures
        r == (Style { fg: Some(c), bg: None, bold }),
{
    Style { fg: Some(c), bg: None, bold }
}

fn prefix_style_of(kind: TranscriptItemKind) -> (r: Style)
    ensures
        r == prefix_style(kind),
{
    match kind {
        TranscriptItemKind::User => plain_fg(Color::Shade(Shade::Cyan300), true),
        TranscriptItemKind::Assistant => plain_fg(Color::Shade(Shade::Cyan400), true),
        TranscriptItemKind::Reasoning => plain_fg(Color::Shade(Shade::Slate500), false),
        TranscriptItemKind::ToolCall => plain_fg(Color::Shade(Shade::Cyan300), true),
        TranscriptItemKind::ToolResult => plain_fg(Color::Shade(Shade::Slate500), false),
        TranscriptItemKind::Error => plain_fg(Color::Shade(Shade::Red300), true),
        TranscriptItemKind::System => plain_fg(Color::Shade(Shade::Slate500), false),
        TranscriptItemKind::ApprovalPrompt => plain_fg(Color::Shade(Shade::Amber300), true),
        TranscriptItemKind::ApprovalResolution => plain_fg(Color::Shade(Shade::Slate400), false),
    }
}

fn title_style_of(kind: TranscriptItemKind) -> (r: Style)
    ensures
        r == title_style(kind),
{
    match kind {
        TranscriptItemKind::ToolCall => plain_fg(Color::Shade(Shade::Slate100), true),
        TranscriptItemKind::ToolResult => plain_fg(Color::Shade(Shade::Slate300), false),
        TranscriptItemKind::Reasoning => plain_fg(Color::Shade(Shade::Slate500), false),
        TranscriptItemKind::Error => plain_fg(Color::Shade(Shade::Red300), true),
        TranscriptItemKind::System => plain_fg(Color::Shade(Shade::Slate300), true),
        TranscriptItemKind::User => plain_fg(Color::Shade(Shade::Cyan200), true),
        TranscriptItemKind::Assistant => plain_fg(Color::Shade(Shade::Slate100), false),
        TranscriptItemKind::ApprovalPrompt => plain_fg(Color::Shade(Shade::Amber300), true),
        TranscriptItemKind::ApprovalResolution => plain_fg(Color::Shade(Shade::Slate300), false),
    }
}

fn body_style_of(kind: TranscriptItemKind) -> (r: Style)
    ensures
        r == body_style(kind),
{
    match kind {
        TranscriptItemKind::User => plain_fg(Color::Shade(Shade::Slate100), false),
        TranscriptItemKind::Assistant => plain_fg(Color::Shade(Shade::Slate100), false),
        TranscriptItemKind::Reasoning => plain_fg(Color::Shade(Shade::Slate400), false),
        TranscriptItemKind::ToolCall => plain_fg(Color::Shade(Shade::Slate300), false),
        TranscriptItemKind::ToolResult => plain_fg(Color::Shade(Shade::Slate400), false),
        TranscriptItemKind::Error => plain_fg(Color::Shade(Shade::Red300), false),
        TranscriptItemKind::System => plain_fg(Color::Shade(Shade::Slate400), false),
        TranscriptItemKind::ApprovalPrompt => plain_fg(Color::Shade(Shade::Slate200), false),
        TranscriptItemKind::ApprovalResolution => plain_fg(Color::Shade(Shade::Slate400), false),
    }
}

/// The style a role is drawn in.
pub fn style_of(role: StyleRole) -> (r: Style)
    ensures
        r == role_style(role),
{
    match role {
        StyleRole::Plain => Style { fg: None, bg: None, bold: false },
        StyleRole::Bold => Style { fg: None, bg: None, bold: true },
        StyleRole::Prompt => plain_fg(Color::Shade(Shade::Cyan300), true),
        StyleRole::Muted => plain_fg(Color::Shade(Shade::Slate500), false),
        StyleRole::Dim => plain_fg(Color::Shade(Shade::Slate600), false),
        StyleRole::Accent => plain_fg(Color::Shade(Shade::Cyan300), false),
        StyleRole::AccentBright => plain_fg(Color::Shade(Shade::Cyan200), true),
        StyleRole::AccentDim => plain_fg(Color::Shade(Shade::Cyan400), false),
        StyleRole::UserBubblePrefix => Style { fg: Some(Color::Shade(Shade::Cyan300)), bg: Some(Color::Shade(Shade::UserBubbleBg)), bold: true },
        StyleRole::UserBubbleBody => Style { fg: Some(Color::Shade(Shade::Slate100)), bg: Some(Color::Shade(Shade::UserBubbleBg)), bold: false },
        StyleRole::UserBubbleFill => Style { fg: None, bg: Some(Color::Shade(Shade::UserBubbleBg)), bold: false },
        StyleRole::PanelTitle => plain_fg(Color::Shade(Shade::Slate500), true),
        StyleRole::Interrupted => plain_fg(Color::Yellow, true),
        StyleRole::Prefix(k) => prefix_style_of(k),
        StyleRole::Title(k) => title_style_of(k),
        StyleRole::Body(k) => body_style_of(k),
    }
}

/// The style of a selected list row: black on light slate.
pub fn selected() -> (r: Style)
    ensures
        r == (Style { fg: Some(Color::Black), bg: Some(Color::Shade(Shade::Slate200)), bold: false }),
{
    Style { fg: Some(Color::Black), bg: Some(Color::Shade(Shade::Slate200)), bold: false }
}

/// The style of a popup's border.
pub fn overlay_border() -> (r: Style)
    ensures
        r == fg(Color::Shade(Shade::Cyan600)),
{
    plain_fg(Color::Shade(Shade::Cyan600), false)
}

/// The background of menus.
pub fn menu_surface() -> (r: Style)
    ensures
        r == (Style { fg: None, bg: Some(Color::Shade(Shade::Surface)), bold: false }),
{
    Style { fg: None, bg: Some(Color::Shade(Shade::Surface)), bold: false }
}

/// The composer's border: amber and bold while a turn runs, the prompt
/// style while onboarding asks for input, else the border accent.
pub fn composer_border(busy: bool, onboarding_prompt: bool) -> (r: Style)
    ensures
        r == if busy {
            fg_bold(Color::Shade(Shade::Amber300))
        } else if onboarding_prompt {
            fg_bold(Color::Shade(Shade::Cyan300))
        } else {
            fg(Color::Shade(Shade::Cyan600))
        },
{
    if busy {
        plain_fg(Color::Shade(Shade::Amber300), true)
    } else if onboarding_prompt {
        plain_fg(Color::Shade(Shade::Cyan300), true)
    } else {
        plain_fg(Color::Shade(Shade::Cyan600), false)
    }
}

} // verus!
