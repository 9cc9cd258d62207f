//! Where the popups go: their size within the space the screen leaves, and
//! the title of their border.
use vstd::prelude::*;

use crate::text::chars_of;
use crate::tui::transcript::push_str;

verus! {

/// A rectangle of cells.
#[derive(Clone, Copy, Debug, PartialEq, Eq, Structural)]
pub struct Rect {
    pub x: u16,
    pub y: u16,
    pub width: u16,
    pub height: u16,
}

/// The sizes the popups keep to.
#[derive(Clone, Copy, Debug, PartialEq, Eq, Structural)]
pub struct OverlayLimits {
    pub min_width: u16,
    pub max_width: u16,
    pub max_text_height: u16,
    pub max_list_height: u16,
    pub brand_header_height: u16,
    pub onboarding_width: u16,
    pub max_onboarding_list_height: u16,
}

/// `a - b`, or 0 where `b` is larger.
pub open spec fn sat_sub(a: int, b: int) -> int {
    if a > b {
        a - b
    } else {
        0
    }
}

/// `n` kept within `lo..=hi`.
pub open spec fn clamp_to(n: int, lo: int, hi: int) -> int {
    if n < lo {
        lo
    } else if n > hi {
        hi
    } else {
        n
    }
}

/// The smaller of two.
pub open spec fn min_of(a: int, b: int) -> int {
    if a < b {
        a
    } else {
        b
    }
}

/// The larger of two.
pub open spec fn max_of(a: int, b: int) -> int {
    if a > b {
        a
    } else {
        b
    }
}

/// A popup's width: the width it is given, kept within the overlay widths.
pub open spec fn popup_width(width: int, limits: OverlayLimits) -> int {
    clamp_to(width, limits.min_width as int, limits.max_width as int)
}

/// A popup's height: what it asks for, at least 4 rows, at most what the
/// space leaves (`spare` rows kept free, but never under 4), and at most the
/// text or list overlay height.
pub open spec fn popup_height(desired: int, space: int, spare: int, item_count: int, limits: OverlayLimits) -> int {
    let cap = if item_count == 0 {
        limits.max_text_height as int
    } else {
        limits.max_list_height as int
    };
    min_of(min_of(max_of(desired, 4), max_of(sat_sub(space, spare), 4)), cap)
}

fn clamp_u16(n: u16, lo: u16, hi: u16) -> (r: u16)
    requires
        lo <= hi,
    ensures
        r == clamp_to(n as int, lo as int, hi as int),
{
    if n < lo {
        lo
    } else if n > hi {
        hi
    } else {
        n
    }
}

fn min_u16(a: u16, b: u16) -> (r: u16)
    ensures
        r == min_of(a as int, b as int),
{
    if a < b {
        a
    } else {
        b
    }
}

fn max_u16(a: u16, b: u16) -> (r: u16)
    ensures
        r == max_of(a as int, b as int),
{
    if a > b {
        a
    } else {
        b
    }
}

fn height_of(desired: u16, space: u16, spare: u16, item_count: usize, limits: &OverlayLimits) -> (r: u16)
    ensures
        r == popup_height(desired as int, space as int, spare as int, item_count as int, *limits),
{
    let cap = if item_count == 0 {
        limits.max_text_height
    } else {
        limits.max_list_height
    };
    min_u16(min_u16(max_u16(desired, 4), max_u16(space.saturating_sub(spare), 4)), cap)
}

/// The popup above the bottom of `base`, against its right edge.
pub fn bottom_popup_area(base: Rect, desired_height: u16, item_count: usize, limits: &OverlayLimits) -> (r: Rect)
    requires
        limits.min_width <= limits.max_width,
        base.x + base.width <= u16::MAX,
        base.y + base.height <= u16::MAX,
    ensures
        r.width == popup_width(base.width as int, *limits),
        r.height == popup_height(desired_height as int, base.height as int, 1, item_count as int, *limits),
        r.x == base.x + sat_sub(base.width as int, r.width as int),
        r.y == base.y + sat_sub(base.height as int, r.height as int),
{
    let width = clamp_u16(base.width, limits.min_width, limits.max_width);
    let height = height_of(desired_height, base.height, 1, item_count, limits);
    Rect {
        x: base.x + base.width.saturating_sub(width),
        y: base.y + base.height.saturating_sub(height),
        width,
        height,
    }
}

/// The popup just above the composer, as wide as the composer allows and
/// as tall as the content area leaves.
pub fn composer_popup_area(
    content: Rect,
    composer: Rect,
    desired_height: u16,
    item_count: usize,
    limits: &OverlayLimits,
) -> (r: Rect)
    requires
        limits.min_width <= limits.max_width,
    ensures
        r.width == popup_width(composer.width as int, *limits),
        r.height == popup_height(desired_height as int, content.height as int, 1, item_count as int, *limits),
        r.x == composer.x,
        r.y == sat_sub(composer.y as int, r.height as int),
{
    let width = clamp_u16(composer.width, limits.min_width, limits.max_width);
    let height = height_of(desired_height, content.height, 1, item_count, limits);
    Rect { x: composer.x, y: composer.y.saturating_sub(height), width, height }
}

/// The width and height of the popup centered in `base`; the layout
/// centers a box of that size.
pub fn centered_popup_size(base: Rect, desired_height: u16, item_count: usize, limits: &OverlayLimits) -> (r: (
    u16,
    u16,
))
    requires
        limits.min_width <= limits.max_width,
    ensures
        r.0 == popup_width(base.width as int, *limits),
        r.1 == popup_height(desired_height as int, base.height as int, 2, item_count as int, *limits),
{
    (clamp_u16(base.width, limits.min_width, limits.max_width), height_of(desired_height, base.height, 2, item_count, limits))
}

/// The onboarding popup: under the brand header, at least 56 columns wide,
/// at least 8 rows tall.
pub fn onboarding_popup_area(base: Rect, desired_height: u16, limits: &OverlayLimits) -> (r: Rect)
    requires
        56 <= limits.onboarding_width,
    ensures
        r.x == base.x,
        r.y == min_of(base.y + limits.brand_header_height, u16::MAX as int),
        r.width == clamp_to(base.width as int, 56, limits.onboarding_width as int),
        r.height == min_of(
            min_of(max_of(desired_height as int, 8), max_of(sat_sub(sat_sub(base.height as int, limits.brand_header_height as int), 1), 8)),
            limits.max_onboarding_list_height as int,
        ),
{
    let width = clamp_u16(base.width, 56, limits.onboarding_width);
    let y = base.y.saturating_add(limits.brand_header_height);
    let available = max_u16(base.height.saturating_sub(limits.brand_header_height).saturating_sub(1), 8);
    let height = min_u16(min_u16(max_u16(desired_height, 8), available), limits.max_onboarding_list_height);
    Rect { x: base.x, y, width, height }
}

/// The title on a popup's border: the title between spaces, or the hint to
/// go back where the title is hidden or empty.
pub open spec fn overlay_title(title: Seq<char>, hide_title: bool) -> Seq<char> {
    if hide_title || title.len() == 0 {
        " Esc back "@
    } else {
        " "@ + title + " "@
    }
}

/// The title on a popup's border.
pub fn overlay_block_title(title: &str, hide_title: bool) -> (r: String)
    ensures
        r@ == overlay_title(title@, hide_title),
{
    let t = chars_of(title);
    if hide_title || t.len() == 0 {
        " Esc back ".to_owned()
    } else {
        let mut v = chars_of(" ");
        push_str(&mut v, title);
        push_str(&mut v, " ");
        crate::text::string_of(v.as_slice())
    }
}

} // verus!
