//! Scroll state tracking for transcript rendering.
//!
//! The transcript view uses a flat line-index scroll model: a single `offset`
//! into the rendered line buffer points at the top visible line, with
//! `usize::MAX` reserved as a sentinel meaning "stuck to the live tail."

use vstd::prelude::*;

verus! {

/// Sentinel offset meaning "stuck to live tail".
pub const TAIL_SENTINEL: usize = usize::MAX;

/// Flat line-offset scroll state for the transcript view.
///
/// Stores the index of the top visible line, or `TAIL_SENTINEL` to mean
/// "stuck to bottom."
#[derive(Debug, Clone, Copy, PartialEq, Eq, Structural)]
pub struct TranscriptScroll {
    offset: usize,
}

impl View for TranscriptScroll {
    type V = usize;

    /// The raw offset (the sentinel when following the tail).
    closed spec fn view(&self) -> usize {
        self.offset
    }
}

/// Largest top line that still fills the viewport.
pub open spec fn spec_max_start(total_lines: usize, visible_lines: usize) -> int {
    if total_lines > visible_lines {
        total_lines - visible_lines
    } else {
        0
    }
}

/// The concrete top line that a raw offset resolves to.
pub open spec fn spec_resolved_top(offset: usize, total_lines: usize, visible_lines: usize) -> int {
    if total_lines <= visible_lines {
        0
    } else if offset == TAIL_SENTINEL || offset >= spec_max_start(total_lines, visible_lines) {
        spec_max_start(total_lines, visible_lines)
    } else {
        offset as int
    }
}

/// The canonical raw offset of a resolved top line: the sentinel at the tail.
pub open spec fn spec_canonical(top: int, total_lines: usize, visible_lines: usize) -> usize {
    if total_lines <= visible_lines || top >= spec_max_start(total_lines, visible_lines) {
        TAIL_SENTINEL
    } else {
        top as usize
    }
}

/// The raw offset after scrolling by `delta` lines.
pub open spec fn spec_scrolled(offset: usize, delta: i32, total_lines: usize, visible_lines: usize) -> usize {
    if delta == 0 {
        offset
    } else if total_lines <= visible_lines {
        TAIL_SENTINEL
    } else {
        let ms = spec_max_start(total_lines, visible_lines);
        let cur = spec_resolved_top(offset, total_lines, visible_lines);
        let moved = cur + delta;
        let new_top = if moved < 0 {
            0
        } else if moved > ms {
            ms
        } else {
            moved
        };
        spec_canonical(new_top, total_lines, visible_lines)
    }
}

impl Default for TranscriptScroll {
    /// Default state is "stuck to live tail".
    fn default() -> (s: Self)
        ensures
            s@ == TAIL_SENTINEL,
    {
        Self::to_bottom()
    }
}

impl TranscriptScroll {
    /// State that follows the live tail (default).
    #[must_use]
    pub fn to_bottom() -> (s: Self)
        ensures
            s@ == TAIL_SENTINEL,
    {
        Self { offset: TAIL_SENTINEL }
    }

    /// State pinned to a specific line index.
    #[must_use]
    pub fn at_line(offset: usize) -> (s: Self)
        ensures
            s@ == offset,
    {
        Self { offset }
    }

    /// Returns true when the view is following the live tail.
    #[must_use]
    pub fn is_at_tail(self) -> (b: bool)
        ensures
            b == (self@ == TAIL_SENTINEL),
    {
        self.offset == TAIL_SENTINEL
    }

    /// Resolve the scroll state to a concrete top line index.
    ///
    /// `max_start` is `total_lines.saturating_sub(visible_lines)`. The
    /// returned `Self` is the canonicalized state — if the resolved top
    /// reached the tail, we collapse to `to_bottom`.
    #[must_use]
    pub fn resolve_top(self, total_lines: usize, visible_lines: usize) -> (r: (Self, usize))
        ensures
            r.1 == spec_resolved_top(self@, total_lines, visible_lines),
            r.0@ == spec_canonical(r.1 as int, total_lines, visible_lines),
    {
        if total_lines <= visible_lines {
            return (Self::to_bottom(), 0);
        }
        let max_start = total_lines - visible_lines;

        if self.offset == TAIL_SENTINEL {
            return (Self::to_bottom(), max_start);
        }
        let top = if self.offset < max_start { self.offset } else { max_start };
        if top >= max_start {
            (Self::to_bottom(), max_start)
        } else {
            (Self::at_line(top), top)
        }
    }

    /// Apply a scroll delta and return the updated state.
    ///
    /// `delta_lines` is signed: negative scrolls up (toward the start),
    /// positive scrolls down (toward the tail). When the resolved offset
    /// hits `max_start` we snap to `to_bottom` so subsequent appended
    /// content pulls the view along.
    #[must_use]
    pub fn scrolled_by(self, delta_lines: i32, total_lines: usize, visible_lines: usize) -> (s: Self)
        ensures
            s@ == spec_scrolled(self@, delta_lines, total_lines, visible_lines),
    {
        if delta_lines == 0 {
            return self;
        }
        if total_lines <= visible_lines {
            return Self::to_bottom();
        }
        let max_start = total_lines - visible_lines;
        let current_top = if self.offset == TAIL_SENTINEL {
            max_start
        } else if self.offset < max_start {
            self.offset
        } else {
            max_start
        };

        let new_top = if delta_lines < 0 {
            let up: u64 = (0i64 - delta_lines as i64) as u64;
            if (current_top as u64) < up {
                0
            } else {
                current_top - (up as usize)
            }
        } else {
            let down = delta_lines as usize;
            if down >= max_start - current_top {
                max_start
            } else {
                current_top + down
            }
        };

        if new_top >= max_start {
            Self::to_bottom()
        } else {
            Self::at_line(new_top)
        }
    }

    /// Get the raw offset value (for debugging).
    #[must_use]
    pub fn raw_offset(self) -> (o: usize)
        ensures
            o == self@,
    {
        self.offset
    }
}

/// Direction for scroll input.
#[derive(Debug, Clone, Copy, PartialEq, Eq, Structural)]
pub enum ScrollDirection {
    Up,
    Down,
}

impl ScrollDirection {
    /// Convert direction to signed delta.
    #[must_use]
    pub fn delta(self, lines: usize) -> (d: i32)
        requires
            self == ScrollDirection::Up ==> lines as i32 != i32::MIN,
        ensures
            d == (match self {
                ScrollDirection::Up => -(lines as i32),
                ScrollDirection::Down => lines as i32 as int,
            }),
    {
        match self {
            ScrollDirection::Up => -(lines as i32),
            ScrollDirection::Down => lines as i32,
        }
    }
}

/// Resolving is idempotent: the canonical state returned by `resolve_top`
/// resolves again to the same state and the same top line.
pub proof fn lemma_resolve_idempotent(offset: usize, total_lines: usize, visible_lines: usize)
    ensures
        ({
            let top = spec_resolved_top(offset, total_lines, visible_lines);
            let canon = spec_canonical(top, total_lines, visible_lines);
            spec_resolved_top(canon, total_lines, visible_lines) == top
                && spec_canonical(spec_resolved_top(canon, total_lines, visible_lines), total_lines, visible_lines) == canon
        }),
{
}

/// The resolved top line never lies past the last full page.
pub proof fn lemma_resolved_top_in_range(offset: usize, total_lines: usize, visible_lines: usize)
    ensures
        0 <= spec_resolved_top(offset, total_lines, visible_lines) <= spec_max_start(total_lines, visible_lines),
{
}

/// Scrolling stays within the transcript: the new state resolves to a top
/// line within `0..=max_start`, and reaching `max_start` means following the tail.
pub proof fn lemma_scroll_stays_in_range(offset: usize, delta: i32, total_lines: usize, visible_lines: usize)
    requires
        delta != 0,
    ensures
        ({
            let s = spec_scrolled(offset, delta, total_lines, visible_lines);
            &&& 0 <= spec_resolved_top(s, total_lines, visible_lines) <= spec_max_start(total_lines, visible_lines)
            &&& (spec_resolved_top(s, total_lines, visible_lines) == spec_max_start(total_lines, visible_lines)
                <==> s == TAIL_SENTINEL)
        }),
{
}

/// Scrolling up and then down by the same amount returns to the same top
/// line whenever neither move was clamped.
pub proof fn lemma_scroll_up_down_roundtrip(offset: usize, n: i32, total_lines: usize, visible_lines: usize)
    requires
        0 < n,
        total_lines > visible_lines,
        spec_resolved_top(offset, total_lines, visible_lines) >= n,
    ensures
        spec_resolved_top(
            spec_scrolled(spec_scrolled(offset, -n as i32, total_lines, visible_lines), n, total_lines, visible_lines),
            total_lines,
            visible_lines,
        ) == spec_resolved_top(offset, total_lines, visible_lines),
{
}

/// Scrolling any state down by at least a page count brings the view to the tail.
pub proof fn lemma_scroll_down_reaches_tail(offset: usize, delta: i32, total_lines: usize, visible_lines: usize)
    requires
        delta > 0,
        delta >= spec_max_start(total_lines, visible_lines),
    ensures
        spec_scrolled(offset, delta, total_lines, visible_lines) == TAIL_SENTINEL,
{
}

} // verus!
