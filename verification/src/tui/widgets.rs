//! Pieces of the transcript widgets that do not draw: the footer's wave
//! animation, the header's status frames and data, and tool card states.

pub mod chat;

use crate::text;
use crate::tui::history_cell::{spec_truncate_to_width, truncate_to_width};
use crate::unicode::{display_width, str_width};
use vstd::prelude::*;

verus! {

/// Number of wave animation glyphs.
pub const WAVE_GLYPH_COUNT: usize = 8;

/// Wave animation glyphs for working state, lowest to highest.
pub open spec fn wave_glyph(i: int) -> char {
    if i == 0 {
        '▁'
    } else if i == 1 {
        '▂'
    } else if i == 2 {
        '▃'
    } else if i == 3 {
        '▄'
    } else if i == 4 {
        '▅'
    } else if i == 5 {
        '▆'
    } else if i == 6 {
        '▇'
    } else {
        '█'
    }
}

/// Get wave glyph for animation frame: the glyphs cycle along the columns
/// and over the frames.
pub fn get_wave_glyph(frame: u64, col: usize, width: usize) -> (c: char)
    requires
        (frame as usize) + col <= usize::MAX,
    ensures
        c == wave_glyph((((frame as usize) + col) as int) % (WAVE_GLYPH_COUNT as int)),
{
    let idx = (frame as usize + col) % WAVE_GLYPH_COUNT;
    match idx {
        0 => '▁',
        1 => '▂',
        2 => '▃',
        3 => '▄',
        4 => '▅',
        5 => '▆',
        6 => '▇',
        _ => '█',
    }
}

/// Milliseconds each status frame is shown.
pub const STATUS_FRAME_MS: u64 = 420;

/// Whale status frames.
pub fn status_frames_whale() -> (v: Vec<&'static str>)
    ensures
        v@.len() == 8,
{
    vec!["🐳", "🐳.", "🐳..", "🐳...", "🐋", "🐋.", "🐋..", "🐋..."]
}

/// Dot status frames.
pub fn status_frames_dots() -> (v: Vec<&'static str>)
    ensures
        v@.len() == 6,
{
    vec!["●", "○", "●", "○", "●", "○"]
}

/// The frames a status indicator can show.
pub open spec fn known_frame(f: Seq<char>) -> bool {
    ||| f == "🐳"@
    ||| f == "🐳."@
    ||| f == "🐳.."@
    ||| f == "🐳..."@
    ||| f == "🐋"@
    ||| f == "🐋."@
    ||| f == "🐋.."@
    ||| f == "🐋..."@
    ||| f == "●"@
    ||| f == "○"@
}

/// The frame shown `elapsed_ms` after the start: frames advance every
/// 420 ms and cycle; an unknown frame shows as `●`, and no frames as nothing.
pub open spec fn status_frame_at(elapsed_ms: u64, frames: Seq<Seq<char>>) -> Seq<char> {
    if frames.len() == 0 {
        Seq::<char>::empty()
    } else {
        let f = frames[((elapsed_ms / STATUS_FRAME_MS) as int) % (frames.len() as int)];
        if known_frame(f) {
            f
        } else {
            "●"@
        }
    }
}

/// The known frame equal to `f`, if any.
fn known_frame_text(f: &str) -> (r: Option<&'static str>)
    ensures
        match r {
            Some(k) => known_frame(f@) && k@ == f@,
            None => !known_frame(f@),
        },
{
    let known = vec!["🐳", "🐳.", "🐳..", "🐳...", "🐋", "🐋.", "🐋..", "🐋...", "●", "○"];
    let mut i: usize = 0;
    while i < known.len()
        invariant
            i <= known@.len(),
            known@ == seq!["🐳", "🐳.", "🐳..", "🐳...", "🐋", "🐋.", "🐋..", "🐋...", "●", "○"],
            forall|j: int| 0 <= j < i ==> (#[trigger] known@[j])@ != f@,
        decreases known.len() - i,
    {
        if text::str_eq(known[i], f) {
            return Some(known[i]);
        }
        i += 1;
    }
    assert(!known_frame(f@)) by {
        assert(known@[0]@ != f@);
        assert(known@[1]@ != f@);
        assert(known@[2]@ != f@);
        assert(known@[3]@ != f@);
        assert(known@[4]@ != f@);
        assert(known@[5]@ != f@);
        assert(known@[6]@ != f@);
        assert(known@[7]@ != f@);
        assert(known@[8]@ != f@);
        assert(known@[9]@ != f@);
    }
    None
}

/// Get status frame based on elapsed time.
pub fn get_status_frame(elapsed_ms: u64, frames: &[&str]) -> (r: &'static str)
    ensures
        r@ == status_frame_at(elapsed_ms, frames@.map_values(|f: &str| f@)),
{
    if frames.len() == 0 {
        proof {
            reveal_strlit("");
        }
        return "";
    }
    let idx = ((elapsed_ms / STATUS_FRAME_MS) % (frames.len() as u64)) as usize;
    proof {
        assert(((elapsed_ms / STATUS_FRAME_MS) as int) % (frames@.len() as int) == idx);
    }
    match known_frame_text(frames[idx]) {
        Some(k) => k,
        None => "●",
    }
}

/// Data required to render the header.
#[derive(Debug, Clone)]
pub struct HeaderData {
    /// Model name (e.g., "gpt-4").
    pub model: String,
    /// Provider name (e.g., "openai").
    pub provider: String,
    /// Workspace/directory name.
    pub workspace: String,
    /// Whether streaming is active.
    pub is_streaming: bool,
    /// Status indicator frame (animated glyph).
    pub status_frame: Option<String>,
}

/// Columns taken on the header line before the workspace: the status
/// frame and a space (when there is one), the provider chip, a space, the
/// model, a space, the separator and a space.
pub open spec fn header_used_width(d: HeaderData) -> nat {
    (match d.status_frame {
        Some(f) => display_width(f@) + display_width(" "@),
        None => 0,
    }) + display_width("["@ + d.provider@ + "]"@) + display_width(" "@) + display_width(d.model@) + display_width(
        " "@,
    ) + display_width("│"@) + display_width(" "@)
}

/// The workspace as the header shows it on a line `width` columns wide:
/// cut to the room left (one column kept free), or `None` where the rest
/// of the line already fills it.
pub open spec fn spec_workspace_shown(d: HeaderData, width: nat) -> Option<Seq<char>> {
    let used = header_used_width(d) as int;
    if used + 1 > width {
        None
    } else {
        let room = (width - used - 1) as nat;
        if display_width(d.workspace@) > room {
            Some(spec_truncate_to_width(d.workspace@, room))
        } else {
            Some(d.workspace@)
        }
    }
}

impl HeaderData {
    /// The workspace as shown on a header line `width` columns wide.
    pub fn workspace_shown(&self, width: u16) -> (r: Option<String>)
        ensures
            match spec_workspace_shown(*self, width as nat) {
                Some(w) => r matches Some(s) && s@ == w,
                None => r is None,
            },
    {
        let mut used: u128 = 0;
        match &self.status_frame {
            Some(f) => {
                used = used + str_width(f.as_str()) as u128 + str_width(" ") as u128;
            },
            None => {},
        }
        let chip = text::concat3("[", self.provider.as_str(), "]");
        used = used + str_width(chip.as_str()) as u128;
        used = used + str_width(" ") as u128;
        used = used + str_width(self.model.as_str()) as u128;
        used = used + str_width(" ") as u128;
        used = used + str_width("│") as u128;
        used = used + str_width(" ") as u128;
        if used + 1 > width as u128 {
            return None;
        }
        let room = (width as u128 - used - 1) as usize;
        if str_width(self.workspace.as_str()) > room {
            Some(truncate_to_width(self.workspace.as_str(), room))
        } else {
            Some(self.workspace.clone())
        }
    }
}

/// Tool execution status for display.
#[derive(Debug, Clone, Copy, PartialEq, Eq, Structural)]
pub enum ToolStatusKind {
    /// Tool is currently running.
    Running,
    /// Tool completed successfully.
    Success,
    /// Tool failed with error.
    Failed,
    /// Tool waiting for approval.
    Pending,
}

} // verus!
