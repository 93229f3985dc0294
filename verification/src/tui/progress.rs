//! Progress indicator state: spinners, per-tool progress and the manager
//! that tracks them.

use crate::text;
use crate::text::{byte_len, decimal, push_str};
use crate::time::{clock_entropy, duration_as_nanos, duration_from_millis, duration_nanos, instant_elapsed, instant_now, nanos_since};
use std::time::{Duration, Instant};
use vstd::prelude::*;

verus! {

/// Number of spinner animation frames.
pub const SPINNER_FRAME_COUNT: usize = 10;

/// Number of spinner verbs.
pub const SPINNER_VERB_COUNT: usize = 20;

/// Milliseconds between spinner frames.
pub const SPINNER_INTERVAL_MS: u64 = 80;

/// Spinner frame characters (Braille dots).
pub open spec fn spec_spinner_frame(i: int) -> char {
    if i == 0 { '⠋' } else if i == 1 { '⠙' } else if i == 2 { '⠹' } else if i == 3 { '⠸' } else if i == 4 { '⠼' }
    else if i == 5 { '⠴' } else if i == 6 { '⠦' } else if i == 7 { '⠧' } else if i == 8 { '⠇' } else { '⠏' }
}

/// The spinner frame character at index `i`.
pub fn spinner_frame(i: usize) -> (c: char)
    requires
        i < SPINNER_FRAME_COUNT,
    ensures
        c == spec_spinner_frame(i as int),
{
    match i {
        0 => '⠋',
        1 => '⠙',
        2 => '⠹',
        3 => '⠸',
        4 => '⠼',
        5 => '⠴',
        6 => '⠦',
        7 => '⠧',
        8 => '⠇',
        _ => '⠏',
    }
}

/// The loading verbs, in order.
pub open spec fn spec_spinner_verbs() -> Seq<Seq<char>> {
    seq![
        "Thinking"@,
        "Processing"@,
        "Computing"@,
        "Calculating"@,
        "Analyzing"@,
        "Generating"@,
        "Crafting"@,
        "Working"@,
        "Loading"@,
        "Preparing"@,
        "Executing"@,
        "Building"@,
        "Compiling"@,
        "Reading"@,
        "Writing"@,
        "Searching"@,
        "Fetching"@,
        "Parsing"@,
        "Transforming"@,
        "Optimizing"@,
    ]
}

/// The spinner verb at index `i` (one of the loading verbs).
pub fn spinner_verb(i: usize) -> (s: &'static str)
    requires
        i < SPINNER_VERB_COUNT,
    ensures
        s@ == spec_spinner_verbs()[i as int],
{
    match i {
        0 => "Thinking",
        1 => "Processing",
        2 => "Computing",
        3 => "Calculating",
        4 => "Analyzing",
        5 => "Generating",
        6 => "Crafting",
        7 => "Working",
        8 => "Loading",
        9 => "Preparing",
        10 => "Executing",
        11 => "Building",
        12 => "Compiling",
        13 => "Reading",
        14 => "Writing",
        15 => "Searching",
        16 => "Fetching",
        17 => "Parsing",
        18 => "Transforming",
        _ => "Optimizing",
    }
}

/// Spinner state for animation
pub struct Spinner {
    /// Current frame index
    frame: usize,
    /// Start time
    start_time: Instant,
    /// Last update time
    last_update: Instant,
    /// Animation interval
    interval: Duration,
    /// Verb shown in the message
    verb: String,
}

/// Abstract spinner: current frame, verb and frame interval.
pub struct SpinnerView {
    /// Current frame index.
    pub frame: nat,
    /// Verb shown in the message.
    pub verb: Seq<char>,
    /// Time between frames, in nanoseconds.
    pub interval: nat,
}

impl View for Spinner {
    type V = SpinnerView;

    closed spec fn view(&self) -> SpinnerView {
        SpinnerView { frame: self.frame as nat, verb: self.verb@, interval: duration_nanos(self.interval) }
    }
}

/// Next frame index, cycling.
pub open spec fn spec_next_frame(f: nat) -> nat {
    ((f + 1) % (SPINNER_FRAME_COUNT as nat)) as nat
}

impl Spinner {
    /// The frame index stays within the frame table.
    #[verifier::type_invariant]
    spec fn inv(self) -> bool {
        self.frame < SPINNER_FRAME_COUNT
    }

    /// Create a new spinner with a verb picked from the loading verbs.
    pub fn new() -> (s: Self)
        ensures
            s@.frame == 0,
            s@.interval == SPINNER_INTERVAL_MS * 1_000_000,
            exists|i: int| 0 <= i < SPINNER_VERB_COUNT && s@.verb == #[trigger] spec_spinner_verbs()[i],
    {
        let idx = (clock_entropy() as usize) % SPINNER_VERB_COUNT;
        let mut verb = String::new();
        push_str(&mut verb, spinner_verb(idx));
        assert(verb@ =~= spec_spinner_verbs()[idx as int]);
        Self::with_verb(verb)
    }

    /// Create spinner with specific verb
    pub fn with_verb(verb: String) -> (s: Self)
        ensures
            s@ == (SpinnerView { frame: 0, verb: verb@, interval: (SPINNER_INTERVAL_MS * 1_000_000) as nat }),
    {
        let now = instant_now();
        Self { frame: 0, start_time: now, last_update: now, interval: duration_from_millis(SPINNER_INTERVAL_MS), verb }
    }

    /// Advance to the next frame when `elapsed` nanoseconds (the time since
    /// the last advance, the clock reading `now`) reach the frame interval,
    /// recording `now` as the last advance; otherwise change nothing. Returns
    /// whether the frame changed.
    pub fn advance_after(&mut self, elapsed: u128, now: Instant) -> (changed: bool)
        ensures
            changed == (elapsed >= old(self)@.interval),
            changed ==> final(self)@ == (SpinnerView { frame: spec_next_frame(old(self)@.frame), ..old(self)@ }),
            !changed ==> *final(self) == *old(self),
    {
        proof {
            use_type_invariant(&*self);
        }
        if elapsed >= duration_as_nanos(&self.interval) {
            self.frame = (self.frame + 1) % SPINNER_FRAME_COUNT;
            self.last_update = now;
            true
        } else {
            false
        }
    }

    /// Advance the animation when the frame interval has passed since the
    /// last advance; returns whether the frame changed. The clock is read for
    /// the time since the last advance, which `advance_after` compares.
    pub fn tick(&mut self) -> (changed: bool)
        ensures
            final(self)@.verb == old(self)@.verb,
            final(self)@.interval == old(self)@.interval,
            changed ==> final(self)@.frame == spec_next_frame(old(self)@.frame),
            !changed ==> final(self)@.frame == old(self)@.frame,
            changed == (final(self)@.frame != old(self)@.frame),
    {
        proof {
            use_type_invariant(&*self);
        }
        let now = instant_now();
        let elapsed = nanos_since(&now, &self.last_update);
        self.advance_after(elapsed, now)
    }

    /// Get elapsed time since the spinner started.
    pub fn elapsed(&self) -> Duration {
        instant_elapsed(&self.start_time)
    }

    /// Get current frame character
    pub fn frame_char(&self) -> (c: char)
        ensures
            c == spec_spinner_frame(self@.frame as int),
    {
        proof {
            use_type_invariant(self);
        }
        spinner_frame(self.frame)
    }

    /// Get verb with ellipsis
    pub fn message(&self) -> (m: String)
        ensures
            m@ == self@.verb.push('…'),
    {
        let mut m = self.verb.clone();
        crate::text::push_char(&mut m, '…');
        m
    }

    /// Set custom verb
    pub fn set_verb(&mut self, verb: String)
        ensures
            final(self)@ == (SpinnerView { verb: verb@, ..old(self)@ }),
    {
        proof {
            use_type_invariant(&*self);
        }
        self.verb = verb;
    }

    /// The current frame index.
    pub fn frame(&self) -> (f: usize)
        ensures
            f == self@.frame,
            f < SPINNER_FRAME_COUNT,
    {
        proof {
            use_type_invariant(self);
        }
        self.frame
    }
}

/// Tool execution status
#[derive(Debug, Clone, PartialEq, Copy, Eq, Structural)]
pub enum ToolStatus {
    /// Tool is starting
    Starting,
    /// Tool is executing
    Executing,
    /// Tool is waiting for user confirmation
    WaitingConfirmation,
    /// Tool completed successfully
    Success,
    /// Tool failed with error
    Error,
    /// Tool was cancelled
    Cancelled,
}

/// Progress of one tool execution.
pub struct ToolProgress {
    /// Tool name
    tool_name: String,
    /// Tool description/parameters summary
    description: String,
    /// Execution status
    pub status: ToolStatus,
    /// Start time
    start_time: Instant,
    /// Spinner for animation
    spinner: Spinner,
}

/// Abstract tool progress.
pub struct ToolProgressView {
    /// Tool name.
    pub name: Seq<char>,
    /// Description.
    pub description: Seq<char>,
    /// Status.
    pub status: ToolStatus,
    /// Spinner state.
    pub spinner: SpinnerView,
}

impl View for ToolProgress {
    type V = ToolProgressView;

    closed spec fn view(&self) -> ToolProgressView {
        ToolProgressView {
            name: self.tool_name@,
            description: self.description@,
            status: self.status,
            spinner: self.spinner@,
        }
    }
}

/// `"Running <name>"`.
pub open spec fn running_label(name: Seq<char>) -> Seq<char> {
    "Running "@ + name
}

/// The spinner verb shown for a tool in `status`, if the status changes it.
pub open spec fn spec_status_verb(name: Seq<char>, status: ToolStatus) -> Option<Seq<char>> {
    match status {
        ToolStatus::Executing => Some(running_label(name)),
        ToolStatus::WaitingConfirmation => Some("Waiting for confirmation"@),
        ToolStatus::Success => Some(name + " completed"@),
        ToolStatus::Error => Some(name + " failed"@),
        ToolStatus::Cancelled => Some(name + " cancelled"@),
        ToolStatus::Starting => None,
    }
}

/// Whether a status is finished (success, error or cancelled).
pub open spec fn is_finished(s: ToolStatus) -> bool {
    s == ToolStatus::Success || s == ToolStatus::Error || s == ToolStatus::Cancelled
}

/// Whether a status counts as running (starting or executing).
pub open spec fn is_running(s: ToolStatus) -> bool {
    s == ToolStatus::Executing || s == ToolStatus::Starting
}

fn concat(a: &str, b: &str) -> (s: String)
    ensures
        s@ == a@ + b@,
{
    let mut s = String::new();
    push_str(&mut s, a);
    push_str(&mut s, b);
    assert(s@ =~= a@ + b@);
    s
}

/// Elapsed seconds as shown next to a spinner: "42s" under a minute,
/// "3m7s" from then on.
pub open spec fn elapsed_label(secs: nat) -> Seq<char> {
    if secs < 60 {
        decimal(secs) + "s"@
    } else {
        decimal(secs / 60) + "m"@ + decimal(secs % 60) + "s"@
    }
}

/// Elapsed seconds as shown next to a spinner.
pub fn elapsed_text(secs: u64) -> (t: String)
    ensures
        t@ == elapsed_label(secs as nat),
{
    let mut t = String::new();
    if secs < 60 {
        text::push_decimal(&mut t, secs);
        push_str(&mut t, "s");
    } else {
        text::push_decimal(&mut t, secs / 60);
        push_str(&mut t, "m");
        text::push_decimal(&mut t, secs % 60);
        push_str(&mut t, "s");
    }
    t
}

/// The icon of a tool row: the spinner frame while executing.
pub open spec fn spec_status_icon(status: ToolStatus, frame: char) -> char {
    match status {
        ToolStatus::Starting => '○',
        ToolStatus::Executing => frame,
        ToolStatus::WaitingConfirmation => '⏸',
        ToolStatus::Success => '✓',
        ToolStatus::Error => '✗',
        ToolStatus::Cancelled => '⊘',
    }
}

/// Room for the description on a tool row `width` columns wide next to
/// `name`: the width less the name's bytes and 20, or nothing.
pub open spec fn description_room(name: Seq<char>, width: nat) -> int {
    if width >= byte_len(name) + 20 {
        width - (byte_len(name) + 20)
    } else {
        0
    }
}

/// What a tool row shows of `desc`: all of it when it fits the room, else
/// its first room-1 bytes and an ellipsis; `None` where that cut would
/// split a character.
pub open spec fn spec_shown_description(name: Seq<char>, desc: Seq<char>, width: nat) -> Option<Seq<char>> {
    let room = description_room(name, width);
    if byte_len(desc) > room {
        let cut = if room >= 1 {
            room - 1
        } else {
            0
        };
        if text::is_boundary(desc, cut) {
            Some(desc.take(text::char_idx(desc, cut)).push('…'))
        } else {
            None
        }
    } else {
        Some(desc)
    }
}

impl ToolProgress {
    /// Create new tool progress: starting, with a "Running <tool>" spinner.
    pub fn new(tool_name: String, description: String) -> (t: Self)
        ensures
            t@.name == tool_name@,
            t@.description == description@,
            t@.status == ToolStatus::Starting,
            t@.spinner == (SpinnerView { frame: 0, verb: running_label(tool_name@), interval: (SPINNER_INTERVAL_MS * 1_000_000) as nat }),
    {
        let verb = concat("Running ", tool_name.as_str());
        Self {
            tool_name,
            description,
            status: ToolStatus::Starting,
            start_time: instant_now(),
            spinner: Spinner::with_verb(verb),
        }
    }

    /// Update status, and the spinner verb that goes with it.
    pub fn set_status(&mut self, status: ToolStatus)
        ensures
            final(self)@.name == old(self)@.name,
            final(self)@.description == old(self)@.description,
            final(self)@.status == status,
            final(self)@.spinner.frame == old(self)@.spinner.frame,
            final(self)@.spinner.verb == match spec_status_verb(old(self)@.name, status) {
                Some(v) => v,
                None => old(self)@.spinner.verb,
            },
    {
        self.status = status;
        match status {
            ToolStatus::Executing => {
                self.spinner.set_verb(concat("Running ", self.tool_name.as_str()));
            },
            ToolStatus::WaitingConfirmation => {
                self.spinner.set_verb("Waiting for confirmation".to_owned());
            },
            ToolStatus::Success => {
                self.spinner.set_verb(concat(self.tool_name.as_str(), " completed"));
            },
            ToolStatus::Error => {
                self.spinner.set_verb(concat(self.tool_name.as_str(), " failed"));
            },
            ToolStatus::Cancelled => {
                self.spinner.set_verb(concat(self.tool_name.as_str(), " cancelled"));
            },
            _ => {},
        }
    }

    /// Update description
    pub fn set_description(&mut self, description: String)
        ensures
            final(self)@ == (ToolProgressView { description: description@, ..old(self)@ }),
    {
        self.description = description;
    }

    /// Tick animation
    pub fn tick(&mut self) -> (changed: bool)
        ensures
            final(self)@.name == old(self)@.name,
            final(self)@.description == old(self)@.description,
            final(self)@.status == old(self)@.status,
            final(self)@.spinner.verb == old(self)@.spinner.verb,
            changed ==> final(self)@.spinner.frame == spec_next_frame(old(self)@.spinner.frame),
            !changed ==> final(self)@.spinner.frame == old(self)@.spinner.frame,
            changed == (final(self)@.spinner.frame != old(self)@.spinner.frame),
    {
        self.spinner.tick()
    }

    /// Get elapsed time
    pub fn elapsed(&self) -> Duration {
        instant_elapsed(&self.start_time)
    }

    /// The tool name.
    pub fn tool_name(&self) -> (n: &String)
        ensures
            n@ == self@.name,
    {
        &self.tool_name
    }

    /// The icon of this tool's row.
    pub fn status_icon(&self) -> (c: char)
        ensures
            c == spec_status_icon(self@.status, spec_spinner_frame(self@.spinner.frame as int)),
    {
        match self.status {
            ToolStatus::Starting => '○',
            ToolStatus::Executing => self.spinner.frame_char(),
            ToolStatus::WaitingConfirmation => '⏸',
            ToolStatus::Success => '✓',
            ToolStatus::Error => '✗',
            ToolStatus::Cancelled => '⊘',
        }
    }

    /// What this tool's row shows of its description in `width` columns.
    pub fn shown_description(&self, width: usize) -> (r: Option<String>)
        ensures
            match spec_shown_description(self@.name, self@.description, width as nat) {
                Some(d) => r matches Some(s) && s@ == d,
                None => r is None,
            },
    {
        let name_len = text::str_len(self.tool_name.as_str());
        let room = width.saturating_sub(name_len + 20);
        let desc_len = text::str_len(self.description.as_str());
        if desc_len > room {
            let cut = room.saturating_sub(1);
            let cs = text::chars_of(self.description.as_str());
            match text::char_index_at_byte(cs.as_slice(), cut) {
                Some(k) => {
                    proof {
                        text::lemma_char_idx(cs@, k as int);
                    }
                    let mut shown = text::string_from_range(cs.as_slice(), 0, k);
                    text::push_char(&mut shown, '…');
                    assert(cs@.subrange(0, k as int) =~= cs@.take(k as int));
                    Some(shown)
                },
                None => None,
            }
        } else {
            Some(self.description.clone())
        }
    }

    /// The spinner message of this tool.
    pub fn spinner_message(&self) -> (m: String)
        ensures
            m@ == self@.spinner.verb.push('…'),
    {
        self.spinner.message()
    }
}

/// Progress manager - tracks multiple tool progresses
pub struct ProgressManager {
    /// Active tool progresses
    pub tools: Vec<ToolProgress>,
    /// Main spinner (for general operations)
    main_spinner: Option<Spinner>,
    /// Last render time
    last_render: Instant,
}

/// The abstract states of a list of tool progresses.
pub open spec fn tool_views(ts: Seq<ToolProgress>) -> Seq<ToolProgressView> {
    ts.map_values(|t: ToolProgress| t@)
}

/// The tools that are not finished, in order.
pub open spec fn unfinished(ts: Seq<ToolProgressView>) -> Seq<ToolProgressView>
    decreases ts.len(),
{
    if ts.len() == 0 {
        seq![]
    } else if is_finished(ts.last().status) {
        unfinished(ts.drop_last())
    } else {
        unfinished(ts.drop_last()).push(ts.last())
    }
}

/// Number of running (starting or executing) tools.
pub open spec fn running_count(ts: Seq<ToolProgressView>) -> nat
    decreases ts.len(),
{
    if ts.len() == 0 {
        0
    } else {
        running_count(ts.drop_last()) + if is_running(ts.last().status) { 1nat } else { 0nat }
    }
}

/// Whether some tool is starting, executing or waiting for confirmation.
pub open spec fn any_active_tool(ts: Seq<ToolProgressView>) -> bool {
    exists|i: int| 0 <= i < ts.len() && !is_finished(#[trigger] ts[i].status)
}

/// `b` is spinner `a` after a tick: the same verb, and the same frame or
/// the next one.
pub open spec fn spec_ticked(a: SpinnerView, b: SpinnerView) -> bool {
    &&& b.verb == a.verb
    &&& (b.frame == a.frame || b.frame == spec_next_frame(a.frame))
}

/// `b` is tool `a` after a tick: the same name, description and status,
/// its spinner ticked.
pub open spec fn spec_tool_ticked(a: ToolProgressView, b: ToolProgressView) -> bool {
    &&& b.name == a.name
    &&& b.description == a.description
    &&& b.status == a.status
    &&& spec_ticked(a.spinner, b.spinner)
}

impl ProgressManager {
    /// The abstract states of the tracked tools.
    pub closed spec fn spec_tools(&self) -> Seq<ToolProgressView> {
        tool_views(self.tools@)
    }

    /// Whether the main spinner runs.
    pub closed spec fn has_main(&self) -> bool {
        self.main_spinner is Some
    }

    /// The main spinner's state, while it runs.
    pub closed spec fn main_view(&self) -> Option<SpinnerView> {
        match self.main_spinner {
            Some(s) => Some(s@),
            None => None,
        }
    }

    /// The main spinner, while it runs.
    pub fn main_spinner(&self) -> (s: Option<&Spinner>)
        ensures
            s is Some == self.has_main(),
    {
        self.main_spinner.as_ref()
    }

    /// Create new progress manager
    pub fn new() -> (m: Self)
        ensures
            m.spec_tools().len() == 0,
            !m.has_main(),
    {
        Self { tools: Vec::new(), main_spinner: None, last_render: instant_now() }
    }

    /// Start main spinner, with the given verb or a picked one.
    pub fn start_main(&mut self, verb: Option<String>)
        ensures
            final(self).has_main(),
            final(self).spec_tools() == old(self).spec_tools(),
    {
        self.main_spinner = Some(match verb {
            Some(v) => Spinner::with_verb(v),
            None => Spinner::new(),
        });
    }

    /// Stop main spinner
    pub fn stop_main(&mut self)
        ensures
            !final(self).has_main(),
            final(self).spec_tools() == old(self).spec_tools(),
    {
        self.main_spinner = None;
    }

    /// Add tool progress; returns its index.
    pub fn add_tool(&mut self, tool_name: String, description: String) -> (idx: usize)
        ensures
            idx == old(self).spec_tools().len(),
            final(self).spec_tools().len() == old(self).spec_tools().len() + 1,
            final(self).spec_tools().take(idx as int) == old(self).spec_tools(),
            final(self).spec_tools()[idx as int].name == tool_name@,
            final(self).spec_tools()[idx as int].description == description@,
            final(self).spec_tools()[idx as int].status == ToolStatus::Starting,
            final(self).has_main() == old(self).has_main(),
    {
        let progress = ToolProgress::new(tool_name, description);
        let ghost prev = self.tools@;
        self.tools.push(progress);
        assert(self.spec_tools().take(prev.len() as int) =~= tool_views(prev));
        self.tools.len() - 1
    }

    /// Update tool status; unknown indices are ignored.
    pub fn update_tool_status(&mut self, index: usize, status: ToolStatus)
        ensures
            final(self).spec_tools().len() == old(self).spec_tools().len(),
            forall|j: int| 0 <= j < old(self).spec_tools().len() && j != index ==> #[trigger] final(self).spec_tools()[j] == old(self).spec_tools()[j],
            index < old(self).spec_tools().len() ==> final(self).spec_tools()[index as int].status == status,
            index < old(self).spec_tools().len() ==> final(self).spec_tools()[index as int].name == old(self).spec_tools()[index as int].name,
            index < old(self).spec_tools().len() ==> final(self).spec_tools()[index as int].description == old(self).spec_tools()[index as int].description,
            final(self).has_main() == old(self).has_main(),
    {
        if index < self.tools.len() {
            let ghost prev = self.tools@;
            self.tools[index].set_status(status);
            assert forall|j: int| 0 <= j < prev.len() && j != index implies #[trigger] self.spec_tools()[j] == tool_views(prev)[j] by {
                assert(self.tools@[j] == prev[j]);
            }
        }
    }

    /// Remove a tool; unknown indices are ignored.
    pub fn remove_tool(&mut self, index: usize)
        ensures
            index < old(self).spec_tools().len() ==> final(self).spec_tools() == old(self).spec_tools().remove(index as int),
            index >= old(self).spec_tools().len() ==> final(self).spec_tools() == old(self).spec_tools(),
            final(self).has_main() == old(self).has_main(),
    {
        if index < self.tools.len() {
            let ghost prev = self.tools@;
            let _ = self.tools.remove(index);
            assert(self.spec_tools() =~= tool_views(prev).remove(index as int));
        }
    }

    /// Clear all completed tools (success, error or cancelled), keeping the
    /// others in order.
    pub fn clear_completed(&mut self)
        ensures
            final(self).spec_tools() == unfinished(old(self).spec_tools()),
            final(self).has_main() == old(self).has_main(),
    {
        let mut old_tools: Vec<ToolProgress> = Vec::new();
        std::mem::swap(&mut old_tools, &mut self.tools);
        let ghost all = tool_views(old_tools@);
        assert(all == old(self).spec_tools());
        let mut kept: Vec<ToolProgress> = Vec::new();
        let mut rest = old_tools;
        let mut i: usize = 0;
        let n = rest.len();
        proof {
            assert(tool_views(kept@) =~= unfinished(all.take(0)));
        }
        while i < n
            invariant
                n == all.len(),
                i <= n,
                rest@.len() == n - i,
                forall|j: int| 0 <= j < n - i ==> #[trigger] rest@[j]@ == all[i + j],
                tool_views(kept@) == unfinished(all.take(i as int)),
            decreases n - i,
        {
            let t = rest.remove(0);
            assert(t@ == all[i as int]);
            let ghost prev = kept@;
            assert(all.take(i as int + 1).drop_last() =~= all.take(i as int));
            if !(t.status == ToolStatus::Success || t.status == ToolStatus::Error || t.status == ToolStatus::Cancelled) {
                kept.push(t);
                assert(tool_views(kept@) =~= tool_views(prev).push(all[i as int]));
            }
            i += 1;
        }
        assert(all.take(n as int) =~= all);
        self.tools = kept;
    }

    /// Tick all animations (the main spinner, then each tool's spinner,
    /// each advancing when its interval has passed); returns whether any
    /// frame changed.
    pub fn tick(&mut self) -> (changed: bool)
        ensures
            final(self).spec_tools().len() == old(self).spec_tools().len(),
            forall|j: int| 0 <= j < old(self).spec_tools().len() ==> spec_tool_ticked(
                old(self).spec_tools()[j],
                #[trigger] final(self).spec_tools()[j],
            ),
            forall|j: int| 0 <= j < old(self).spec_tools().len() ==> (#[trigger] final(self).spec_tools()[j]).status == old(self).spec_tools()[j].status,
            final(self).has_main() == old(self).has_main(),
            match (old(self).main_view(), final(self).main_view()) {
                (Some(a), Some(b)) => spec_ticked(a, b),
                (None, None) => true,
                _ => false,
            },
            changed == ((old(self).main_view() != final(self).main_view()) || exists|j: int|
                0 <= j < old(self).spec_tools().len() && (#[trigger] final(self).spec_tools()[j]).spinner.frame
                    != old(self).spec_tools()[j].spinner.frame),
    {
        let mut changed = false;
        match &mut self.main_spinner {
            Some(spinner) => {
                if spinner.tick() {
                    changed = true;
                }
            },
            None => {},
        }
        let ghost main_changed = changed;
        assert(main_changed == (old(self).main_view() != self.main_view()));
        let mut i: usize = 0;
        while i < self.tools.len()
            invariant
                i <= self.tools@.len(),
                self.tools@.len() == old(self).tools@.len(),
                forall|j: int| 0 <= j < i ==> spec_tool_ticked(old(self).spec_tools()[j], #[trigger] self.spec_tools()[j]),
                forall|j: int| i <= j < self.tools@.len() ==> #[trigger] self.spec_tools()[j] == old(self).spec_tools()[j],
                self.has_main() == old(self).has_main(),
                main_changed == (old(self).main_view() != self.main_view()),
                match (old(self).main_view(), self.main_view()) {
                    (Some(a), Some(b)) => spec_ticked(a, b),
                    (None, None) => true,
                    _ => false,
                },
                changed == (main_changed || exists|j: int|
                    0 <= j < i && (#[trigger] self.spec_tools()[j]).spinner.frame != old(self).spec_tools()[j].spinner.frame),
            decreases self.tools@.len() - i,
        {
            let ghost prev = self.spec_tools();
            let ghost main_before = self.main_view();
            let t = self.tools[i].tick();
            if t {
                changed = true;
            }
            assert(self.main_view() == main_before);
            assert forall|j: int| 0 <= j < self.tools@.len() && j != i implies #[trigger] self.spec_tools()[j] == prev[j] by {
            }
            assert(t == (self.spec_tools()[i as int].spinner.frame != prev[i as int].spinner.frame));
            proof {
                let now_tools = self.spec_tools();
                let moved_before = exists|j: int|
                    0 <= j < i && (#[trigger] prev[j]).spinner.frame != old(self).spec_tools()[j].spinner.frame;
                let moved_after = exists|j: int|
                    0 <= j < i + 1 && (#[trigger] now_tools[j]).spinner.frame != old(self).spec_tools()[j].spinner.frame;
                assert(prev[i as int] == old(self).spec_tools()[i as int]);
                if moved_before {
                    let j = choose|j: int|
                        0 <= j < i && (#[trigger] prev[j]).spinner.frame != old(self).spec_tools()[j].spinner.frame;
                    assert(now_tools[j] == prev[j]);
                    assert(moved_after);
                }
                if t {
                    assert(now_tools[i as int].spinner.frame != old(self).spec_tools()[i as int].spinner.frame);
                    assert(moved_after);
                }
                if moved_after {
                    let j = choose|j: int|
                        0 <= j < i + 1 && (#[trigger] now_tools[j]).spinner.frame != old(self).spec_tools()[j].spinner.frame;
                    if j < i {
                        assert(now_tools[j] == prev[j]);
                        assert(moved_before);
                    }
                }
                assert(moved_after == (moved_before || t));
            }
            i += 1;
        }
        changed
    }

    /// Whether the main spinner runs or some tool is starting, executing or
    /// waiting for confirmation.
    pub fn is_active(&self) -> (b: bool)
        ensures
            b == (self.has_main() || any_active_tool(self.spec_tools())),
    {
        if self.main_spinner.is_some() {
            return true;
        }
        let mut i: usize = 0;
        while i < self.tools.len()
            invariant
                i <= self.tools@.len(),
                forall|j: int| 0 <= j < i ==> is_finished(#[trigger] self.spec_tools()[j].status),
            decreases self.tools@.len() - i,
        {
            let s = self.tools[i].status;
            if s == ToolStatus::Starting || s == ToolStatus::Executing || s == ToolStatus::WaitingConfirmation {
                assert(!is_finished(self.spec_tools()[i as int].status));
                return true;
            }
            i += 1;
        }
        false
    }

    /// Number of tools that are starting or executing.
    pub fn active_tool_count(&self) -> (n: usize)
        ensures
            n == running_count(self.spec_tools()),
    {
        let mut n: usize = 0;
        let mut i: usize = 0;
        while i < self.tools.len()
            invariant
                i <= self.tools@.len(),
                n == running_count(self.spec_tools().take(i as int)),
                n <= i,
            decreases self.tools@.len() - i,
        {
            assert(self.spec_tools().take(i as int + 1).drop_last() =~= self.spec_tools().take(i as int));
            let s = self.tools[i].status;
            if s == ToolStatus::Executing || s == ToolStatus::Starting {
                n += 1;
            }
            i += 1;
        }
        assert(self.spec_tools().take(self.tools@.len() as int) =~= self.spec_tools());
        n
    }
}

impl Default for ProgressManager {
    fn default() -> (m: Self)
        ensures
            m.spec_tools().len() == 0,
            !m.has_main(),
    {
        Self::new()
    }
}

/// Clearing completed tools leaves no finished tool and keeps every unfinished one.
pub proof fn lemma_clear_completed_keeps_unfinished(ts: Seq<ToolProgressView>)
    ensures
        forall|i: int| 0 <= i < unfinished(ts).len() ==> !is_finished(#[trigger] unfinished(ts)[i].status),
        running_count(unfinished(ts)) == running_count(ts),
    decreases ts.len(),
{
    if ts.len() > 0 {
        lemma_clear_completed_keeps_unfinished(ts.drop_last());
        let u = unfinished(ts.drop_last());
        if !is_finished(ts.last().status) {
            assert(u.push(ts.last()).drop_last() =~= u);
        }
    }
}

} // verus!
