//! Layout decisions of the transcript display: which top line is shown,
//! how many blank lines pad the viewport at the tail, whether a scrollbar
//! is drawn, and where the "jump to latest" button goes.

use crate::tui::scroll_state::{spec_canonical, spec_resolved_top, TranscriptScroll, TAIL_SENTINEL};
use ratatui::layout::Rect;
use vstd::prelude::*;

verus! {

#[verifier::external_type_specification]
pub struct ExRect(Rect);

/// `Rect::new`: keeps `x` and `y`, and clamps `width` and `height` so that
/// the right and bottom edges stay within `u16`.
pub assume_specification[ Rect::new ](x: u16, y: u16, width: u16, height: u16) -> (r: Rect)
    ensures
        r.x == x,
        r.y == y,
        r.width == (if width > u16::MAX - x { (u16::MAX - x) as u16 } else { width }),
        r.height == (if height > u16::MAX - y { (u16::MAX - y) as u16 } else { height }),
;

/// Jump to latest button dimensions
pub const JUMP_BUTTON_WIDTH: u16 = 3;

/// Jump to latest button dimensions
pub const JUMP_BUTTON_HEIGHT: u16 = 3;

/// Scrollbar data for rendering.
#[derive(Debug, Clone, Copy, PartialEq, Eq, Structural)]
pub struct ScrollbarData {
    pub top: usize,
    pub visible: usize,
    pub total: usize,
}

/// What the transcript display shows for a given scroll state and size.
#[derive(Debug, Clone, Copy)]
pub struct ChatLayout {
    /// The scroll state after resolving (the tail sentinel at the bottom).
    pub scroll: TranscriptScroll,
    /// Index of the first line shown.
    pub top: usize,
    /// Blank lines added below the content when following the tail.
    pub padding: usize,
    /// Scrollbar (if content exceeds viewport).
    pub scrollbar: Option<ScrollbarData>,
    /// Jump button (if scrolled up from tail).
    pub jump_button: Option<Rect>,
}

/// Number of lines shown from line `top` of `total`, at most `count`.
pub open spec fn shown_count(total: int, top: int, count: int) -> int {
    if top >= total {
        0
    } else if top + count < total {
        count
    } else {
        total - top
    }
}

/// `a - b`, or zero when `b` is larger.
pub open spec fn sat_sub(a: u16, b: u16) -> int {
    if a >= b {
        a - b
    } else {
        0
    }
}

/// Where the jump button goes: the top right corner of `area`, left of the
/// scrollbar when there is one.
pub open spec fn jump_button_x(area: Rect, has_scrollbar: bool) -> int {
    area.x + sat_sub(
        area.width,
        if has_scrollbar {
            (JUMP_BUTTON_WIDTH + 1) as u16
        } else {
            JUMP_BUTTON_WIDTH
        },
    )
}

/// Calculate jump button position.
pub fn jump_button_rect(area: Rect, has_scrollbar: bool) -> (button: Rect)
    requires
        jump_button_x(area, has_scrollbar) <= u16::MAX,
    ensures
        button.x == jump_button_x(area, has_scrollbar),
        button.y == area.y,
        button.width == (if JUMP_BUTTON_WIDTH > u16::MAX - button.x {
            (u16::MAX - button.x) as u16
        } else {
            JUMP_BUTTON_WIDTH
        }),
        button.height == (if JUMP_BUTTON_HEIGHT > u16::MAX - area.y {
            (u16::MAX - area.y) as u16
        } else {
            JUMP_BUTTON_HEIGHT
        }),
{
    let x = area.x + area.width.saturating_sub(
        if has_scrollbar {
            JUMP_BUTTON_WIDTH + 1
        } else {
            JUMP_BUTTON_WIDTH
        },
    );
    let y = area.y;
    Rect::new(x, y, JUMP_BUTTON_WIDTH, JUMP_BUTTON_HEIGHT)
}

/// Lay out a transcript of `total_lines` lines in a `width` by `height`
/// viewport: resolve the scroll state, pad the viewport with blank lines
/// when following the tail, draw a scrollbar when the content does not
/// fit (and there is room for one), and offer the jump button when
/// scrolled up.
pub fn chat_layout(total_lines: usize, scroll: TranscriptScroll, width: u16, height: u16) -> (layout:
    ChatLayout)
    ensures
        layout.top == spec_resolved_top(scroll@, total_lines, height as usize),
        layout.scroll@ == spec_canonical(layout.top as int, total_lines, height as usize),
        layout.padding == (if layout.scroll@ == TAIL_SENTINEL {
            height - shown_count(total_lines as int, layout.top as int, height as int)
        } else {
            0
        }),
        layout.scrollbar == (if total_lines > height && width > 1 {
            Some(ScrollbarData { top: layout.top, visible: height as usize, total: total_lines })
        } else {
            None
        }),
        layout.jump_button is Some <==> (layout.scroll@ != TAIL_SENTINEL && layout.scrollbar is Some),
        layout.jump_button matches Some(button) ==> {
            &&& button.x == jump_button_x(Rect { x: 0, y: 0, width, height }, true)
            &&& button.y == 0
            &&& button.width == JUMP_BUTTON_WIDTH
            &&& button.height == JUMP_BUTTON_HEIGHT
        },
{
    let visible_lines = height as usize;
    let (resolved_scroll, top) = scroll.resolve_top(total_lines, visible_lines);
    let shown = if top >= total_lines {
        0
    } else if visible_lines < total_lines - top {
        visible_lines
    } else {
        total_lines - top
    };
    let padding = if resolved_scroll.is_at_tail() && shown < visible_lines {
        visible_lines - shown
    } else {
        0
    };
    let scrollbar = if total_lines > visible_lines && width > 1 {
        Some(ScrollbarData { top, visible: visible_lines, total: total_lines })
    } else {
        None
    };
    let jump_button = if !resolved_scroll.is_at_tail() && scrollbar.is_some() {
        Some(jump_button_rect(Rect::new(0, 0, width, height), true))
    } else {
        None
    };
    ChatLayout { scroll: resolved_scroll, top, padding, scrollbar, jump_button }
}

} // verus!
