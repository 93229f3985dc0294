//! Application state: the conversation, the input editor, completion,
//! permission prompts, streaming responses and tool progress.

use super::{clamp_col, cursor_offset, editor_text, empty_editor, on_boundary, spec_backspace, spec_delete, spec_insert_char, spec_insert_newline, spec_move_left, spec_move_right, EditorView, TextEditor};
use crate::commands::{CommandContext, CommandRegistry, CommandResult};
use crate::permissions::{PermissionMode, PermissionResult, PermissionUpdate, RuleBehavior, RuleSource, RuleValue};
use crate::provider::{assistant_role, is_text_message, user_role, ContentBlock, Message, StreamEvent};
use crate::text;
use crate::text::{chars_of, join_strings, push_char, push_str, split_char};
use crate::tui::completion::command as cmd;
use crate::tui::completion::path;
use crate::tui::completion::path::{PathCompleter, PathEntry, PathQuery};
use crate::tui::completion::{spec_hidden, spec_next, spec_prev, CommandCompleter, CompletionProvider, CompletionState, CompletionType, CompletionView, Suggestion};
use crate::tui::permission_dialog::{spec_choices, PermissionChoice, PermissionDialog};
use crate::tui::progress::{ProgressManager, ToolProgressView, ToolStatus};
use crate::unicode;
use crate::unicode::{char_width, str_width};
use std::sync::Arc;
use std::time::Instant;
use vstd::prelude::*;

verus! {

/// `serde_json::Value`, carried through permission requests unread.
#[verifier::external_type_specification]
#[verifier::external_body]
pub struct ExJsonValue(serde_json::Value);

/// A permission request awaiting the user's answer.
pub struct PendingPermission {
    /// Tool that asks.
    pub tool_name: String,
    /// Id of the tool call.
    pub tool_id: String,
    /// The tool call's input.
    pub input: serde_json::Value,
    /// What is asked.
    pub message: String,
}

/// Result of permission choice selection
pub struct PermissionChoiceResult {
    /// The user's choice
    pub choice: PermissionChoice,
    /// Tool name that requested permission
    pub tool_name: String,
    /// Tool ID for tracking
    pub tool_id: String,
    /// Input that needs permission
    pub input: serde_json::Value,
    /// Permission request message
    pub message: String,
    /// Permission updates to save (for AllowAndSave)
    pub updates: Option<PermissionUpdate>,
}

/// Application state
pub struct App {
    /// Text editor for input
    pub editor: TextEditor,
    /// Chat messages
    pub messages: Vec<Message>,
    /// Status message
    pub status: String,
    /// Whether the app should quit
    pub should_quit: bool,
    /// Whether we're waiting for a response
    pub is_loading: bool,
    /// Whether we're streaming a response
    pub is_streaming: bool,
    /// Whether a stream of response events is attached
    pub stream_open: bool,
    /// Current streaming text being accumulated
    pub streaming_text: String,
    /// Scroll position for message area
    pub scroll: u16,
    /// Command registry for slash commands
    pub command_registry: CommandRegistry,
    /// Command context
    pub command_ctx: Option<CommandContext>,
    /// Ctrl+C press count for exit confirmation
    pub ctrl_c_count: u32,
    /// Last Ctrl+C timestamp for timeout
    pub last_ctrl_c_time: Option<Instant>,
    /// Progress manager for tool execution indicators
    pub progress_manager: ProgressManager,
    /// Tool call ids and their progress indices; a later entry for an id
    /// replaces an earlier one.
    pub tool_progress_map: Vec<(String, usize)>,
    /// Pending permission request awaiting user confirmation
    pub pending_permission: Option<PendingPermission>,
    /// Permission dialog for user interaction
    pub permission_dialog: Option<PermissionDialog>,
    /// Permission mode
    pub permission_mode: PermissionMode,
    /// Pending permission updates to save (from AllowAndSave)
    pub pending_permission_updates: Option<PermissionUpdate>,
    /// Completion state for tab completion
    pub completion_state: CompletionState,
    /// Command completer
    pub completer: CommandCompleter,
    /// Path completer
    pub path_completer: PathCompleter,
}

/// The status shown while the user types.
pub open spec fn default_status() -> Seq<char> {
    "Type your message. Enter to send, Ctrl+Enter for newline. Ctrl+C twice to quit."@
}

/// The status shown while a permission request waits.
pub open spec fn permission_status() -> Seq<char> {
    "[?] Permission request - use ↑↓ to select, Enter to confirm"@
}

/// The status shown after a first Ctrl+C.
pub open spec fn ctrl_c_hint() -> Seq<char> {
    "Press Ctrl+C again within 2 seconds to quit."@
}

/// The status line text.
fn default_status_string() -> (s: String)
    ensures
        s@ == default_status(),
{
    text::owned("Type your message. Enter to send, Ctrl+Enter for newline. Ctrl+C twice to quit.")
}

// ----- error box -----

/// Widest a line of an error box may be.
pub const ERROR_BOX_MAX_WIDTH: usize = 50;

/// A character's display width, control characters counting zero.
pub open spec fn cw(c: char) -> nat {
    match unicode::char_display_width(c) {
        Some(w) => w,
        None => 0,
    }
}

/// From character `i` on, the index reached while the widths, added to
/// `acc`, stay within `limit`.
pub open spec fn fitting_count(cs: Seq<char>, i: int, acc: nat, limit: nat) -> int
    decreases cs.len() - i,
{
    if i < 0 || i >= cs.len() {
        i
    } else if acc + cw(cs[i]) > limit {
        i
    } else {
        fitting_count(cs, i + 1, acc + cw(cs[i]), limit)
    }
}

/// A line as shown in an error box: cut with `...` when wider than the box.
pub open spec fn box_line_text(l: Seq<char>) -> Seq<char> {
    if unicode::display_width(l) > ERROR_BOX_MAX_WIDTH {
        l.take(fitting_count(l, 0, 0, (ERROR_BOX_MAX_WIDTH - 3) as nat)) + seq!['.', '.', '.']
    } else {
        l
    }
}

/// The widest display width among `ls`.
pub open spec fn max_width(ls: Seq<Seq<char>>) -> nat
    decreases ls.len(),
{
    if ls.len() == 0 {
        0
    } else {
        let m = max_width(ls.drop_last());
        let w = unicode::display_width(ls.last());
        if w > m {
            w
        } else {
            m
        }
    }
}

/// The width of an error box's text area.
pub open spec fn box_content_width(msg: Seq<char>) -> nat {
    let m = max_width(text::split_on(msg, '\n'));
    if m < ERROR_BOX_MAX_WIDTH {
        m
    } else {
        ERROR_BOX_MAX_WIDTH as nat
    }
}

/// Whether an error box can be drawn for `msg`: its text area is at least
/// as wide as the title needs, and every shown line fits in it.
pub open spec fn error_box_fits(msg: Seq<char>) -> bool {
    let ls = text::split_on(msg, '\n');
    let w = box_content_width(msg);
    &&& w >= 6
    &&& forall|i: int| 0 <= i < ls.len() ==> unicode::display_width(#[trigger] box_line_text(ls[i])) <= w
}

/// A line too wide for the box means no box can be drawn.
proof fn lemma_line_too_wide(msg: Seq<char>, i: int)
    requires
        0 <= i < text::split_on(msg, '\n').len(),
        unicode::display_width(box_line_text(text::split_on(msg, '\n')[i])) > box_content_width(msg),
    ensures
        !error_box_fits(msg),
{
    let ls = text::split_on(msg, '\n');
    if error_box_fits(msg) {
        assert(unicode::display_width(box_line_text(ls[i])) <= box_content_width(msg));
    }
}

/// `n` copies of `c`.
pub open spec fn repeat(c: char, n: nat) -> Seq<char> {
    Seq::new(n, |i: int| c)
}

/// The middle row of an error box showing `l` in a box `bw` wide.
pub open spec fn box_row(l: Seq<char>, bw: nat) -> Seq<char> {
    let t = box_line_text(l);
    seq!['│', ' '] + t + repeat(' ', (bw - unicode::display_width(t) - 2) as nat) + seq!['│']
}

/// The rows of the error box for `msg`.
pub open spec fn error_box(msg: Seq<char>) -> Seq<Seq<char>> {
    let ls = text::split_on(msg, '\n');
    let bw = box_content_width(msg) + 2;
    seq![seq!['┌', '─', ' ', '错', '误', ' ', '─'] + repeat('─', (bw - 8) as nat) + seq!['┐']] + Seq::new(
        ls.len(),
        |i: int| box_row(ls[i], bw),
    ) + seq![seq!['└'] + repeat('─', bw) + seq!['┘']]
}

/// `s` followed by `n` copies of `c`.
fn push_repeat(s: &mut String, c: char, n: usize)
    ensures
        final(s)@ == old(s)@ + repeat(c, n as nat),
{
    let mut i: usize = 0;
    while i < n
        invariant
            i <= n,
            s@ == old(s)@ + repeat(c, i as nat),
        decreases n - i,
    {
        push_char(s, c);
        i += 1;
        assert(s@ =~= old(s)@ + repeat(c, i as nat));
    }
}

/// The widest of the lines' display widths.
fn widest(ls: &Vec<String>) -> (m: usize)
    ensures
        m == max_width(text::views(ls@)),
{
    let mut m: usize = 0;
    let mut i: usize = 0;
    while i < ls.len()
        invariant
            i <= ls@.len(),
            m == max_width(text::views(ls@).take(i as int)),
        decreases ls.len() - i,
    {
        assert(text::views(ls@).take(i as int + 1).drop_last() =~= text::views(ls@).take(i as int));
        let w = str_width(ls[i].as_str());
        if w > m {
            m = w;
        }
        i += 1;
    }
    assert(text::views(ls@).take(ls@.len() as int) =~= text::views(ls@));
    m
}

/// The line cut to fit the box, with `...` added.
fn cut_line(line: &str) -> (r: String)
    ensures
        r@ == line@.take(fitting_count(line@, 0, 0, (ERROR_BOX_MAX_WIDTH - 3) as nat)) + seq!['.', '.', '.'],
{
    let cs = chars_of(line);
    let limit: usize = ERROR_BOX_MAX_WIDTH - 3;
    let mut out = String::new();
    let mut width: usize = 0;
    let mut i: usize = 0;
    while i < cs.len()
        invariant
            i <= cs@.len(),
            width <= limit,
            out@ == cs@.take(i as int),
            fitting_count(cs@, 0, 0, limit as nat) == fitting_count(cs@, i as int, width as nat, limit as nat),
        ensures
            i <= cs@.len(),
            out@ == cs@.take(i as int),
            fitting_count(cs@, 0, 0, limit as nat) == fitting_count(cs@, i as int, width as nat, limit as nat),
            i == cs@.len() || width + cw(cs@[i as int]) > limit,
        decreases cs.len() - i,
    {
        let w = match char_width(cs[i]) {
            Some(w) => w,
            None => 0,
        };
        if w > limit - width {
            break;
        }
        push_char(&mut out, cs[i]);
        width = width + w;
        i += 1;
        assert(out@ =~= cs@.take(i as int));
    }
    proof {
        if i < cs@.len() {
            assert(fitting_count(cs@, i as int, width as nat, limit as nat) == i);
        }
    }
    push_str(&mut out, "...");
    proof {
        reveal_strlit("...");
    }
    assert(out@ =~= cs@.take(i as int) + seq!['.', '.', '.']);
    out
}

/// Format error message in a boxed style for TUI display; `None` when no
/// box can be drawn (`error_box_fits`).
pub fn format_error_box(error_msg: &str) -> (r: Option<Vec<String>>)
    ensures
        match r {
            Some(rows) => error_box_fits(error_msg@) && text::views(rows@) == error_box(error_msg@),
            None => !error_box_fits(error_msg@),
        },
{
    let lines = split_char(error_msg, '\n');
    let ghost ls = text::split_on(error_msg@, '\n');
    let m = widest(&lines);
    let content_width = if m < ERROR_BOX_MAX_WIDTH {
        m
    } else {
        ERROR_BOX_MAX_WIDTH
    };
    if content_width < 6 {
        return None;
    }
    let box_width = content_width + 2;
    let mut top = text::owned("┌─ 错误 ─");
    proof {
        reveal_strlit("┌─ 错误 ─");
    }
    push_repeat(&mut top, '─', box_width - 8);
    push_char(&mut top, '┐');
    let mut rows: Vec<String> = Vec::new();
    rows.push(top);
    let mut i: usize = 0;
    while i < lines.len()
        invariant
            i <= lines@.len(),
            text::views(lines@) == ls,
            ls == text::split_on(error_msg@, '\n'),
            content_width == box_content_width(error_msg@),
            box_width == content_width + 2,
            content_width <= ERROR_BOX_MAX_WIDTH,
            rows@.len() == i + 1,
            forall|j: int| 0 <= j < i ==> unicode::display_width(#[trigger] box_line_text(ls[j])) <= content_width,
            forall|j: int| 1 <= j <= i ==> #[trigger] rows@[j]@ == box_row(ls[j - 1], box_width as nat),
            rows@[0]@ == seq!['┌', '─', ' ', '错', '误', ' ', '─'] + repeat('─', (box_width - 8) as nat) + seq!['┐'],
        decreases lines.len() - i,
    {
        let line = lines[i].as_str();
        let shown = if str_width(line) > ERROR_BOX_MAX_WIDTH {
            cut_line(line)
        } else {
            text::owned(line)
        };
        let w = str_width(shown.as_str());
        assert(shown@ == box_line_text(ls[i as int]));
        if w > content_width {
            proof {
                assert(ls.len() == lines@.len());
                assert(0 <= i < ls.len());
                assert(unicode::display_width(box_line_text(ls[i as int])) > box_content_width(error_msg@));
                lemma_line_too_wide(error_msg@, i as int);
            }
            return None;
        }
        let mut row = text::owned("│ ");
        proof {
            reveal_strlit("│ ");
        }
        push_str(&mut row, shown.as_str());
        push_repeat(&mut row, ' ', box_width - w - 2);
        push_char(&mut row, '│');
        assert(row@ =~= box_row(ls[i as int], box_width as nat));
        rows.push(row);
        i += 1;
    }
    let mut bottom = String::new();
    push_char(&mut bottom, '└');
    push_repeat(&mut bottom, '─', box_width);
    push_char(&mut bottom, '┘');
    rows.push(bottom);
    proof {
        let e = error_box(error_msg@);
        assert(e.len() == rows@.len());
        assert forall|j: int| 0 <= j < rows@.len() implies #[trigger] text::views(rows@)[j] == e[j] by {
            if 1 <= j <= ls.len() {
                assert(e[j] == box_row(ls[j - 1], box_width as nat));
            }
        }
    }
    assert(text::views(rows@) =~= error_box(error_msg@));
    Some(rows)
}


// ----- keys -----

/// A key, as the input handling distinguishes keys.
#[derive(Debug, Clone, Copy, PartialEq, Eq, Structural)]
pub enum KeyCode {
    Char(char),
    Enter,
    Tab,
    BackTab,
    Backspace,
    Delete,
    Left,
    Right,
    Up,
    Down,
    Home,
    End,
    PageUp,
    PageDown,
    Esc,
    /// Any other key.
    Other,
}

/// The Control modifier bit.
pub const MODIFIER_CONTROL: u8 = 0b10;

/// The Alt modifier bit.
pub const MODIFIER_ALT: u8 = 0b100;

/// A key press: the key and the modifier bits held (Shift 1, Control 2,
/// Alt 4, Super 8, Hyper 16, Meta 32).
#[derive(Debug, Clone, Copy, PartialEq, Eq, Structural)]
pub struct KeyInput {
    pub code: KeyCode,
    pub modifiers: u8,
}

/// What the caller must do after a key was handled.
#[derive(Debug)]
pub enum KeyOutcome {
    /// Nothing more.
    Done,
    /// Run this slash command and hand the result to `finish_command`.
    RunCommand(String),
    /// Path completion applies at the cursor: list the directory named by
    /// `path_query` and hand the entries to `apply_path_completion`.
    CompletePath,
}

/// The key is Ctrl+C (and nothing else held).
pub open spec fn is_ctrl_c(k: KeyInput) -> bool {
    k.modifiers == MODIFIER_CONTROL && k.code == KeyCode::Char('c')
}

// ----- tool tracking -----

/// The progress index recorded for a tool call id: the latest entry's.
pub open spec fn map_lookup(m: Seq<(String, usize)>, id: Seq<char>) -> Option<usize>
    decreases m.len(),
{
    if m.len() == 0 {
        None
    } else if m.last().0@ == id {
        Some(m.last().1)
    } else {
        map_lookup(m.drop_last(), id)
    }
}

/// `b`'s tools are `a`'s with tool `idx` (if there) set to `status`.
pub open spec fn tool_status_set(a: Seq<ToolProgressView>, b: Seq<ToolProgressView>, idx: int, status: ToolStatus) -> bool {
    &&& b.len() == a.len()
    &&& forall|j: int| 0 <= j < a.len() && j != idx ==> #[trigger] b[j] == a[j]
    &&& 0 <= idx < a.len() ==> b[idx].status == status && b[idx].name == a[idx].name && b[idx].description == a[idx].description
}

/// `b`'s tools are `a`'s with one more, executing, for `name`.
pub open spec fn tool_started(a: Seq<ToolProgressView>, b: Seq<ToolProgressView>, name: Seq<char>, description: Seq<char>) -> bool {
    &&& b.len() == a.len() + 1
    &&& b.take(a.len() as int) == a
    &&& b[a.len() as int].name == name
    &&& b[a.len() as int].description == description
    &&& b[a.len() as int].status == ToolStatus::Executing
}

// ----- streaming -----

/// `new` is `old` with the last message, when it is the assistant's,
/// replaced by one holding just the text `t`.
pub open spec fn last_replaced(old: Seq<Message>, new: Seq<Message>, t: Seq<char>) -> bool {
    if old.len() > 0 && old.last().role@ == assistant_role() {
        &&& new.len() == old.len()
        &&& new.drop_last() == old.drop_last()
        &&& is_text_message(new.last(), assistant_role(), t)
    } else {
        new == old
    }
}

/// `"Executing <name>..."`.
pub open spec fn executing_label(name: Seq<char>) -> Seq<char> {
    "Executing "@ + name + "..."@
}

/// The note added to the streamed text when a tool call starts.
pub open spec fn tool_start_note(name: Seq<char>, id: Seq<char>) -> Seq<char> {
    "\n[Tool: "@ + name + " ("@ + id + ")]\n"@
}

/// The note added to the streamed text when a tool call's arguments are
/// complete.
pub open spec fn tool_ready_note(name: Seq<char>, arguments: Seq<char>) -> Seq<char> {
    "\n[Tool "@ + name + " ready: "@ + text::decimal(text::byte_len(arguments)) + " bytes]\n"@
}

/// Whether an event ends the stream.
pub open spec fn ends_stream(e: StreamEvent) -> bool {
    e is Done || e is Error
}

/// Whether every error among the events can be shown in a box.
pub open spec fn errors_fit(evs: Seq<StreamEvent>) -> bool {
    forall|i: int| 0 <= i < evs.len() ==> (#[trigger] evs[i] matches StreamEvent::Error(e) ==> error_box_fits(e@))
}

/// `b` is `a` after the stream ended with the last message's text `t`.
pub open spec fn stream_closed(a: App, b: App, t: Seq<char>) -> bool {
    &&& b == (App {
        messages: b.messages,
        is_streaming: false,
        is_loading: false,
        stream_open: false,
        streaming_text: b.streaming_text,
        progress_manager: b.progress_manager,
        ..a
    })
    &&& b.streaming_text@.len() == 0
    &&& last_replaced(a.messages@, b.messages@, t)
    &&& !b.progress_manager.has_main()
    &&& b.progress_manager.spec_tools() == crate::tui::progress::unfinished(a.progress_manager.spec_tools())
}

/// `b` is `a` with `more` appended to the streamed text.
pub open spec fn stream_text_added(a: App, b: App, more: Seq<char>) -> bool {
    &&& b == (App { streaming_text: b.streaming_text, ..a })
    &&& b.streaming_text@ == a.streaming_text@ + more
}

/// `b` is `a` after handling stream event `e`.
pub open spec fn event_effect(a: App, e: StreamEvent, b: App) -> bool {
    match e {
        StreamEvent::TextDelta(t) => {
            &&& b == (App { streaming_text: b.streaming_text, messages: b.messages, ..a })
            &&& b.streaming_text@ == a.streaming_text@ + t@
            &&& last_replaced(a.messages@, b.messages@, b.streaming_text@)
        },
        StreamEvent::Done => stream_closed(a, b, a.streaming_text@),
        StreamEvent::Error(msg) => stream_closed(a, b, text::join(error_box(msg@), seq!['\n'])),
        StreamEvent::ToolCallStart { id, name } => {
            &&& b == (App {
                streaming_text: b.streaming_text,
                progress_manager: b.progress_manager,
                tool_progress_map: b.tool_progress_map,
                ..a
            })
            &&& b.streaming_text@ == a.streaming_text@ + tool_start_note(name@, id@)
            &&& tool_started(a.progress_manager.spec_tools(), b.progress_manager.spec_tools(), name@, executing_label(name@))
            &&& b.progress_manager.has_main() == a.progress_manager.has_main()
            &&& b.tool_progress_map@ == a.tool_progress_map@.push((id, a.progress_manager.spec_tools().len() as usize))
        },
        StreamEvent::ToolCallDelta { id, arguments } => stream_text_added(a, b, arguments@),
        StreamEvent::ToolCallComplete { id, name, arguments } => stream_text_added(a, b, tool_ready_note(name@, arguments@)),
    }
}

/// `b` is reached from `a` by handling the events in order, stopping after
/// one that ends the stream.
pub open spec fn stream_run(a: App, evs: Seq<StreamEvent>, b: App) -> bool
    decreases evs.len(),
{
    if evs.len() == 0 {
        b == a
    } else {
        exists|m: App|
            #![trigger event_effect(a, evs[0], m)]
            event_effect(a, evs[0], m) && (if ends_stream(evs[0]) {
                b == m
            } else {
                stream_run(m, evs.skip(1), b)
            })
    }
}

// ----- permissions -----

/// The reply to a confirmed permission choice.
pub open spec fn choice_reply(c: PermissionChoice, message: Seq<char>) -> Seq<char> {
    match c {
        PermissionChoice::AllowOnce => "✓ Permission approved for: "@ + message,
        PermissionChoice::AllowAndSave => "✓ Permission approved & rule will be saved for: "@ + message,
        PermissionChoice::Deny => "✗ Permission denied for: "@ + message,
        PermissionChoice::Cancel => "Permission request cancelled"@,
    }
}

/// The label of a permission choice in the status line.
pub open spec fn choice_label(c: PermissionChoice) -> Seq<char> {
    match c {
        PermissionChoice::AllowOnce => "Allow (once)"@,
        PermissionChoice::AllowAndSave => "Allow & save rule"@,
        PermissionChoice::Deny => "Deny"@,
        PermissionChoice::Cancel => "Cancel"@,
    }
}

/// `u` is the rule saved by "allow and save" for `tool`: allow every use.
pub open spec fn is_tool_allow_rule(u: PermissionUpdate, tool: Seq<char>) -> bool {
    match u {
        PermissionUpdate::AddRules { destination, rules, behavior } => {
            &&& destination == RuleSource::UserSettings
            &&& behavior == RuleBehavior::Allow
            &&& rules@.len() == 1
            &&& rules@[0].tool_name@ == tool
            &&& rules@[0].rule_content is None
        },
    }
}

/// `b` is `a` with the permission request and dialog cleared.
pub open spec fn permission_cleared(a: App, b: App) -> bool {
    &&& b == (App {
        pending_permission: None,
        permission_dialog: None,
        pending_permission_updates: None,
        status: b.status,
        ..a
    })
    &&& b.status@ == default_status()
}

/// `a` followed by `b`.
fn concat2(a: &str, b: &str) -> (s: String)
    ensures
        s@ == a@ + b@,
{
    let mut s = text::owned(a);
    push_str(&mut s, b);
    s
}

/// The label of a permission choice.
fn choice_label_text(c: PermissionChoice) -> (s: &'static str)
    ensures
        s@ == choice_label(c),
{
    match c {
        PermissionChoice::AllowOnce => "Allow (once)",
        PermissionChoice::AllowAndSave => "Allow & save rule",
        PermissionChoice::Deny => "Deny",
        PermissionChoice::Cancel => "Cancel",
    }
}

/// The reply to a confirmed permission choice.
fn choice_reply_text(c: PermissionChoice, message: &str) -> (s: String)
    ensures
        s@ == choice_reply(c, message@),
{
    match c {
        PermissionChoice::AllowOnce => concat2("✓ Permission approved for: ", message),
        PermissionChoice::AllowAndSave => concat2("✓ Permission approved & rule will be saved for: ", message),
        PermissionChoice::Deny => concat2("✗ Permission denied for: ", message),
        PermissionChoice::Cancel => text::owned("Permission request cancelled"),
    }
}

impl App {
    /// Create a new App instance; relative paths complete from `cwd`.
    pub fn new(cwd: String) -> (app: Self)
        ensures
            app.editor@ == super::empty_editor(),
            app.messages@.len() == 0,
            app.status@ == default_status(),
            !app.should_quit && !app.is_loading && !app.is_streaming && !app.stream_open,
            app.streaming_text@.len() == 0,
            app.scroll == 0,
            app.command_ctx is None,
            app.ctrl_c_count == 0,
            app.last_ctrl_c_time is None,
            app.progress_manager.spec_tools().len() == 0,
            !app.progress_manager.has_main(),
            app.tool_progress_map@.len() == 0,
            app.pending_permission is None,
            app.permission_dialog is None,
            app.permission_mode == PermissionMode::Default,
            app.pending_permission_updates is None,
            crate::tui::completion::spec_hidden(app.completion_state@),
            app.path_completer@.cwd == cwd@,
            !app.path_completer@.include_hidden && app.path_completer@.include_files,
            app.command_registry@ == crate::commands::builtin_commands(),
            app.completer.registry() == crate::commands::builtin_commands(),
    {
        Self::with_context(None, PermissionMode::Default, cwd)
    }

    /// Create App with a command context (the provider's session) and the
    /// configured permission mode.
    pub fn with_provider(ctx: CommandContext, permission_mode: PermissionMode, cwd: String) -> (app: Self)
        ensures
            app.editor@ == super::empty_editor(),
            app.messages@.len() == 0,
            app.status@ == default_status(),
            !app.should_quit && !app.is_loading && !app.is_streaming && !app.stream_open,
            app.streaming_text@.len() == 0,
            app.scroll == 0,
            app.command_ctx == Some(ctx),
            app.ctrl_c_count == 0,
            app.last_ctrl_c_time is None,
            app.progress_manager.spec_tools().len() == 0,
            !app.progress_manager.has_main(),
            app.tool_progress_map@.len() == 0,
            app.pending_permission is None,
            app.permission_dialog is None,
            app.permission_mode == permission_mode,
            app.pending_permission_updates is None,
            crate::tui::completion::spec_hidden(app.completion_state@),
            app.path_completer@.cwd == cwd@,
            !app.path_completer@.include_hidden && app.path_completer@.include_files,
            app.command_registry@ == crate::commands::builtin_commands(),
            app.completer.registry() == crate::commands::builtin_commands(),
    {
        Self::with_context(Some(ctx), permission_mode, cwd)
    }

    fn with_context(command_ctx: Option<CommandContext>, permission_mode: PermissionMode, cwd: String) -> (app: Self)
        ensures
            app.editor@ == super::empty_editor(),
            app.messages@.len() == 0,
            app.status@ == default_status(),
            !app.should_quit && !app.is_loading && !app.is_streaming && !app.stream_open,
            app.streaming_text@.len() == 0,
            app.scroll == 0,
            app.command_ctx == command_ctx,
            app.ctrl_c_count == 0,
            app.last_ctrl_c_time is None,
            app.progress_manager.spec_tools().len() == 0,
            !app.progress_manager.has_main(),
            app.tool_progress_map@.len() == 0,
            app.pending_permission is None,
            app.permission_dialog is None,
            app.permission_mode == permission_mode,
            app.pending_permission_updates is None,
            crate::tui::completion::spec_hidden(app.completion_state@),
            app.path_completer@.cwd == cwd@,
            !app.path_completer@.include_hidden && app.path_completer@.include_files,
            app.command_registry@ == crate::commands::builtin_commands(),
            app.completer.registry() == crate::commands::builtin_commands(),
    {
        let registry = Arc::new(CommandRegistry::new());
        Self {
            editor: TextEditor::new(),
            messages: Vec::new(),
            status: default_status_string(),
            should_quit: false,
            is_loading: false,
            is_streaming: false,
            stream_open: false,
            streaming_text: String::new(),
            scroll: 0,
            command_registry: CommandRegistry::new(),
            command_ctx,
            ctrl_c_count: 0,
            last_ctrl_c_time: None,
            progress_manager: ProgressManager::new(),
            tool_progress_map: Vec::new(),
            pending_permission: None,
            permission_dialog: None,
            permission_mode,
            pending_permission_updates: None,
            completion_state: CompletionState::new(),
            completer: CommandCompleter::new(registry),
            path_completer: PathCompleter::with_cwd(cwd),
        }
    }

    /// Check if there's a pending permission request
    pub fn has_pending_permission(&self) -> (b: bool)
        ensures
            b == self.pending_permission is Some,
    {
        self.pending_permission.is_some()
    }

    /// Set pending permission request and create its dialog.
    pub fn set_pending_permission(&mut self, permission: PendingPermission)
        ensures
            *final(self) == (App {
                status: final(self).status,
                pending_permission: final(self).pending_permission,
                permission_dialog: final(self).permission_dialog,
                pending_permission_updates: None,
                ..*old(self)
            }),
            final(self).status@ == permission_status(),
            final(self).pending_permission == Some(permission),
            final(self).permission_dialog matches Some(d) && d@ == (0nat, true),
    {
        let result = PermissionResult::ask(permission.message.as_str());
        let dialog = PermissionDialog::new(permission.message.clone(), result);
        self.status = text::owned("[?] Permission request - use ↑↓ to select, Enter to confirm");
        self.pending_permission = Some(permission);
        self.permission_dialog = Some(dialog);
        self.pending_permission_updates = None;
    }

    /// Clear pending permission and dialog
    pub fn clear_pending_permission(&mut self)
        ensures
            permission_cleared(*old(self), *final(self)),
    {
        self.pending_permission = None;
        self.permission_dialog = None;
        self.pending_permission_updates = None;
        self.status = default_status_string();
    }

    /// Handle permission confirmation with full PermissionChoice support:
    /// the dialog's selection is confirmed and the request is answered.
    pub fn handle_permission_choice(&mut self) -> (r: Option<PermissionChoiceResult>)
        ensures
            match (old(self).permission_dialog, old(self).pending_permission) {
                (None, _) => r is None && *final(self) == *old(self),
                (Some(d), None) => {
                    &&& r is None
                    &&& *final(self) == (App { permission_dialog: final(self).permission_dialog, ..*old(self) })
                    &&& final(self).permission_dialog matches Some(d2) && d2@ == (d@.0, false)
                },
                (Some(d), Some(p)) => {
                    &&& permission_cleared(*old(self), *final(self))
                    &&& r matches Some(res) && {
                        &&& d@.0 < 4
                        &&& res.choice == spec_choices()[d@.0 as int]
                        &&& res.tool_name == p.tool_name
                        &&& res.tool_id == p.tool_id
                        &&& res.input == p.input
                        &&& res.message == p.message
                        &&& res.choice == PermissionChoice::AllowAndSave ==> (res.updates matches Some(u)
                            && is_tool_allow_rule(u, p.tool_name@))
                        &&& res.choice != PermissionChoice::AllowAndSave ==> res.updates is None
                    }
                },
            },
    {
        let choice = match &mut self.permission_dialog {
            Some(dialog) => dialog.confirm(),
            None => return None,
        };
        let permission = match self.pending_permission.take() {
            Some(p) => p,
            None => return None,
        };
        let updates = if choice == PermissionChoice::AllowAndSave {
            let mut rules: Vec<RuleValue> = Vec::new();
            rules.push(RuleValue { tool_name: permission.tool_name.clone(), rule_content: None });
            Some(PermissionUpdate::AddRules { destination: RuleSource::UserSettings, rules, behavior: RuleBehavior::Allow })
        } else {
            None
        };
        let result = PermissionChoiceResult {
            choice,
            tool_name: permission.tool_name,
            tool_id: permission.tool_id,
            input: permission.input,
            message: permission.message,
            updates,
        };
        self.clear_pending_permission();
        Some(result)
    }

    /// Handle permission confirmation (legacy y/n method): the request is
    /// answered and the reply returned.
    pub fn handle_permission_response(&mut self, approved: bool) -> (r: Option<String>)
        ensures
            match old(self).pending_permission {
                None => r is None && *final(self) == *old(self),
                Some(p) => {
                    &&& *final(self) == (App { pending_permission: None, status: final(self).status, ..*old(self) })
                    &&& approved ==> final(self).status@ == "Approved: "@ + p.tool_name@
                    &&& !approved ==> final(self).status@ == "Denied: "@ + p.tool_name@
                    &&& r matches Some(reply) && (approved ==> reply@ == "Permission approved for: "@ + p.message@)
                        && (!approved ==> reply@ == "Permission denied for: "@ + p.message@)
                },
            },
    {
        match self.pending_permission.take() {
            Some(permission) => {
                if approved {
                    self.status = concat2("Approved: ", permission.tool_name.as_str());
                    Some(concat2("Permission approved for: ", permission.message.as_str()))
                } else {
                    self.status = concat2("Denied: ", permission.tool_name.as_str());
                    Some(concat2("Permission denied for: ", permission.message.as_str()))
                }
            },
            None => None,
        }
    }

    /// Records a Ctrl+C press at `now`, `elapsed` nanoseconds after the
    /// previous one (`None` when there was none). A press less than two
    /// seconds after the previous one is counted with it; the second press in
    /// a row asks to quit; the first shows a hint.
    pub fn record_ctrl_c(&mut self, now: Instant, elapsed: Option<u128>)
        requires
            ctrl_c_within(*old(self), elapsed) ==> old(self).ctrl_c_count < u32::MAX,
        ensures
            ctrl_c_pressed(*old(self), elapsed, *final(self)),
            final(self).last_ctrl_c_time == Some(now),
    {
        let within = match elapsed {
            Some(e) => self.last_ctrl_c_time.is_some() && e < CTRL_C_WINDOW_NANOS,
            None => false,
        };
        if within {
            self.ctrl_c_count = self.ctrl_c_count + 1;
        } else {
            self.ctrl_c_count = 1;
        }
        self.last_ctrl_c_time = Some(now);
        if self.ctrl_c_count >= 2 {
            self.should_quit = true;
        } else {
            self.status = text::owned("Press Ctrl+C again within 2 seconds to quit.");
        }
    }

    /// Handle Ctrl+C for graceful exit: reads the clock for the time since
    /// the previous press, and a second press within two seconds of the first
    /// asks to quit.
    fn handle_ctrl_c(&mut self) -> (elapsed: Ghost<Option<u128>>)
        requires
            old(self).last_ctrl_c_time is Some ==> old(self).ctrl_c_count < u32::MAX,
        ensures
            elapsed@ is Some <==> old(self).last_ctrl_c_time is Some,
            ctrl_c_pressed(*old(self), elapsed@, *final(self)),
    {
        let now = crate::time::instant_now();
        let elapsed = match &self.last_ctrl_c_time {
            Some(last) => Some(crate::time::nanos_since(&now, last)),
            None => None,
        };
        self.record_ctrl_c(now, elapsed);
        Ghost(elapsed)
    }

    /// Add an assistant message; loading and streaming end.
    pub fn add_assistant_message(&mut self, content: String)
        ensures
            *final(self) == (App {
                messages: final(self).messages,
                is_loading: false,
                is_streaming: false,
                progress_manager: final(self).progress_manager,
                ..*old(self)
            }),
            final(self).messages@.len() == old(self).messages@.len() + 1,
            final(self).messages@.drop_last() == old(self).messages@,
            is_text_message(final(self).messages@.last(), assistant_role(), content@),
            !final(self).progress_manager.has_main(),
            final(self).progress_manager.spec_tools() == crate::tui::progress::unfinished(old(self).progress_manager.spec_tools()),
    {
        let message = Message::assistant(content);
        self.messages.push(message);
        assert(self.messages@.drop_last() =~= old(self).messages@);
        self.is_loading = false;
        self.is_streaming = false;
        self.progress_manager.stop_main();
        self.progress_manager.clear_completed();
    }

    /// Set the status message
    pub fn set_status(&mut self, status: String)
        ensures
            *final(self) == (App { status, ..*old(self) }),
    {
        self.status = status;
    }

    /// Start streaming: a response stream is attached, and an empty
    /// assistant message awaits its text.
    pub fn start_streaming(&mut self)
        ensures
            *final(self) == (App {
                stream_open: true,
                is_streaming: true,
                is_loading: true,
                streaming_text: final(self).streaming_text,
                progress_manager: final(self).progress_manager,
                messages: final(self).messages,
                ..*old(self)
            }),
            final(self).streaming_text@.len() == 0,
            final(self).progress_manager.has_main(),
            final(self).progress_manager.spec_tools() == old(self).progress_manager.spec_tools(),
            final(self).messages@.len() == old(self).messages@.len() + 1,
            final(self).messages@.drop_last() == old(self).messages@,
            is_text_message(final(self).messages@.last(), assistant_role(), Seq::<char>::empty()),
    {
        self.stream_open = true;
        self.is_streaming = true;
        self.is_loading = true;
        self.streaming_text = String::new();
        self.progress_manager.start_main(Some(text::owned("Streaming response")));
        self.messages.push(Message::assistant(String::new()));
        assert(self.messages@.drop_last() =~= old(self).messages@);
    }

    /// Replace the last message, when it is the assistant's, by one holding
    /// just `t`.
    fn replace_last_assistant(&mut self, t: String)
        ensures
            *final(self) == (App { messages: final(self).messages, ..*old(self) }),
            last_replaced(old(self).messages@, final(self).messages@, t@),
    {
        let n = self.messages.len();
        if n > 0 && self.messages[n - 1].is_assistant() {
            let m = Message::assistant(t);
            self.messages.set(n - 1, m);
            assert(self.messages@.drop_last() =~= old(self).messages@.drop_last());
        }
    }

    /// The stream ends, with `t` as the last message's text.
    fn close_stream(&mut self, t: String)
        ensures
            stream_closed(*old(self), *final(self), t@),
    {
        self.replace_last_assistant(t);
        self.is_streaming = false;
        self.is_loading = false;
        self.stream_open = false;
        self.streaming_text = String::new();
        self.progress_manager.stop_main();
        self.progress_manager.clear_completed();
    }

    /// Handle one stream event; returns whether the stream goes on.
    fn apply_stream_event(&mut self, event: StreamEvent) -> (more: bool)
        requires
            event matches StreamEvent::Error(e) ==> error_box_fits(e@),
        ensures
            event_effect(*old(self), event, *final(self)),
            more == !ends_stream(event),
    {
        match event {
            StreamEvent::TextDelta(t) => {
                push_str(&mut self.streaming_text, t.as_str());
                let copy = self.streaming_text.clone();
                self.replace_last_assistant(copy);
                true
            },
            StreamEvent::Done => {
                let t = self.streaming_text.clone();
                self.close_stream(t);
                false
            },
            StreamEvent::Error(e) => {
                let rows = match format_error_box(e.as_str()) {
                    Some(rows) => rows,
                    None => return false,
                };
                let content = join_strings(rows.as_slice(), "\n");
                proof {
                    reveal_strlit("\n");
                    assert("\n"@ =~= seq!['\n']);
                }
                self.close_stream(content);
                false
            },
            StreamEvent::ToolCallStart { id, name } => {
                let label = text::concat3("Executing ", name.as_str(), "...");
                let note = text::concat3("\n[Tool: ", name.as_str(), " (");
                let mut note = note;
                push_str(&mut note, id.as_str());
                push_str(&mut note, ")]\n");
                assert(note@ =~= tool_start_note(name@, id@));
                self.start_tool(id, name, label);
                push_str(&mut self.streaming_text, note.as_str());
                true
            },
            StreamEvent::ToolCallDelta { id: _, arguments } => {
                push_str(&mut self.streaming_text, arguments.as_str());
                true
            },
            StreamEvent::ToolCallComplete { id: _, name, arguments } => {
                let mut note = text::concat3("\n[Tool ", name.as_str(), " ready: ");
                let n = text::str_len(arguments.as_str());
                text::push_decimal(&mut note, n as u64);
                push_str(&mut note, " bytes]\n");
                assert(note@ =~= tool_ready_note(name@, arguments@));
                push_str(&mut self.streaming_text, note.as_str());
                true
            },
        }
    }

    /// Handle the stream events received so far, in order, stopping at the
    /// end of the stream. Returns whether streaming is still ongoing: some
    /// events came and none ended the stream.
    pub fn handle_stream_event(&mut self, events: Vec<StreamEvent>) -> (still_streaming: bool)
        requires
            errors_fit(events@),
        ensures
            stream_run(*old(self), events@, *final(self)),
            still_streaming == (events@.len() > 0 && forall|i: int| 0 <= i < events@.len() ==> !ends_stream(#[trigger] events@[i])),
    {
        let ghost evs = events@;
        let ghost start = *self;
        let total = events.len();
        let mut rest = events;
        let mut i: usize = 0;
        assert(evs.skip(0) =~= evs);
        while rest.len() > 0
            invariant
                rest@ == evs.skip(i as int),
                evs == events@,
                evs.len() == total,
                start == *old(self),
                i <= evs.len(),
                errors_fit(evs),
                forall|j: int| 0 <= j < i ==> !ends_stream(#[trigger] evs[j]),
                forall|b: App| stream_run(*self, evs.skip(i as int), b) ==> stream_run(start, evs, b),
            decreases rest@.len(),
        {
            let ghost cur = *self;
            let ghost tail = evs.skip(i as int);
            let event = rest.remove(0);
            assert(event == evs[i as int]);
            assert(tail[0] == event);
            assert(tail.skip(1) =~= evs.skip(i as int + 1));
            assert(rest@ =~= evs.skip(i as int + 1));
            let more = self.apply_stream_event(event);
            if !more {
                assert(ends_stream(evs[i as int]));
                assert(stream_run(cur, tail, *self));
                assert(stream_run(start, evs, *self));
                return false;
            }
            assert forall|b: App| stream_run(*self, evs.skip(i as int + 1), b) implies stream_run(start, evs, b) by {
                assert(event_effect(cur, tail[0], *self));
                assert(stream_run(cur, tail, b));
            }
            i += 1;
        }
        assert(stream_run(*self, evs.skip(i as int), *self));
        i > 0
    }

    /// Handle the stream events as `handle_stream_event` does, when every
    /// error among them can be shown in a box; otherwise leave the state
    /// unchanged and return `None`.
    pub fn handle_stream_events_checked(&mut self, events: Vec<StreamEvent>) -> (r: Option<bool>)
        ensures
            !errors_fit(events@) ==> r is None && *final(self) == *old(self),
            errors_fit(events@) ==> (r matches Some(still) && stream_run(*old(self), events@, *final(self)) && still == (
            events@.len() > 0 && forall|i: int| 0 <= i < events@.len() ==> !ends_stream(#[trigger] events@[i]))),
    {
        let mut i: usize = 0;
        while i < events.len()
            invariant
                i <= events@.len(),
                forall|j: int| 0 <= j < i ==> (#[trigger] events@[j] matches StreamEvent::Error(e) ==> error_box_fits(e@)),
            decreases events.len() - i,
        {
            match &events[i] {
                StreamEvent::Error(e) => {
                    if format_error_box(e.as_str()).is_none() {
                        return None;
                    }
                },
                _ => {},
            }
            i += 1;
        }
        Some(self.handle_stream_event(events))
    }

    /// Start tracking a tool execution
    pub fn start_tool(&mut self, tool_id: String, tool_name: String, description: String)
        ensures
            *final(self) == (App {
                progress_manager: final(self).progress_manager,
                tool_progress_map: final(self).tool_progress_map,
                ..*old(self)
            }),
            tool_started(old(self).progress_manager.spec_tools(), final(self).progress_manager.spec_tools(), tool_name@, description@),
            final(self).progress_manager.has_main() == old(self).progress_manager.has_main(),
            final(self).tool_progress_map@ == old(self).tool_progress_map@.push((tool_id, old(self).progress_manager.spec_tools().len() as usize)),
    {
        let ghost before = self.progress_manager.spec_tools();
        let idx = self.progress_manager.add_tool(tool_name, description);
        self.tool_progress_map.push((tool_id, idx));
        self.progress_manager.update_tool_status(idx, ToolStatus::Executing);
        assert(self.progress_manager.spec_tools().take(before.len() as int) =~= before);
    }

    /// The progress index recorded for a tool call id.
    fn lookup_tool(&self, tool_id: &str) -> (r: Option<usize>)
        ensures
            r == map_lookup(self.tool_progress_map@, tool_id@),
    {
        let mut j: usize = self.tool_progress_map.len();
        assert(self.tool_progress_map@.take(j as int) =~= self.tool_progress_map@);
        while j > 0
            invariant
                j <= self.tool_progress_map@.len(),
                map_lookup(self.tool_progress_map@, tool_id@) == map_lookup(self.tool_progress_map@.take(j as int), tool_id@),
            decreases j,
        {
            let ghost m = self.tool_progress_map@.take(j as int);
            assert(m.drop_last() =~= self.tool_progress_map@.take(j - 1));
            assert(m.last() == self.tool_progress_map@[j - 1]);
            if text::str_eq(self.tool_progress_map[j - 1].0.as_str(), tool_id) {
                return Some(self.tool_progress_map[j - 1].1);
            }
            j -= 1;
        }
        None
    }

    /// Update tool execution status
    pub fn update_tool_status(&mut self, tool_id: &str, status: ToolStatus)
        ensures
            *final(self) == (App { progress_manager: final(self).progress_manager, ..*old(self) }),
            final(self).progress_manager.has_main() == old(self).progress_manager.has_main(),
            match map_lookup(old(self).tool_progress_map@, tool_id@) {
                Some(idx) => tool_status_set(old(self).progress_manager.spec_tools(), final(self).progress_manager.spec_tools(), idx as int, status),
                None => final(self).progress_manager.spec_tools() == old(self).progress_manager.spec_tools(),
            },
    {
        match self.lookup_tool(tool_id) {
            Some(idx) => {
                self.progress_manager.update_tool_status(idx, status);
            },
            None => {},
        }
    }

    /// Complete tool execution with result: the tool's status becomes
    /// success or error.
    pub fn complete_tool(&mut self, tool_id: &str, success: bool, _result_summary: String)
        ensures
            *final(self) == (App { progress_manager: final(self).progress_manager, ..*old(self) }),
            final(self).progress_manager.has_main() == old(self).progress_manager.has_main(),
            match map_lookup(old(self).tool_progress_map@, tool_id@) {
                Some(idx) => tool_status_set(
                    old(self).progress_manager.spec_tools(),
                    final(self).progress_manager.spec_tools(),
                    idx as int,
                    if success {
                        ToolStatus::Success
                    } else {
                        ToolStatus::Error
                    },
                ),
                None => final(self).progress_manager.spec_tools() == old(self).progress_manager.spec_tools(),
            },
    {
        let status = if success {
            ToolStatus::Success
        } else {
            ToolStatus::Error
        };
        self.update_tool_status(tool_id, status);
    }

    /// Clear all completed tool progresses, and forget every tool id.
    pub fn clear_completed_tools(&mut self)
        ensures
            *final(self) == (App {
                progress_manager: final(self).progress_manager,
                tool_progress_map: final(self).tool_progress_map,
                ..*old(self)
            }),
            final(self).progress_manager.has_main() == old(self).progress_manager.has_main(),
            final(self).progress_manager.spec_tools() == crate::tui::progress::unfinished(old(self).progress_manager.spec_tools()),
            final(self).tool_progress_map@.len() == 0,
    {
        self.progress_manager.clear_completed();
        self.tool_progress_map.clear();
    }

    /// Get tool progress count: the tools starting or executing.
    pub fn tool_progress_count(&self) -> (n: usize)
        ensures
            n == crate::tui::progress::running_count(self.progress_manager.spec_tools()),
    {
        self.progress_manager.active_tool_count()
    }
}

// ----- key handling -----

/// The number of commands offered for the cursor (none when slash-command
/// completion does not apply there).
pub open spec fn command_match_count(reg: Seq<(Seq<char>, Seq<char>)>, t: Seq<char>, pos: int) -> nat {
    if !cmd::spec_can_complete(t, pos) {
        0
    } else {
        match cmd::spec_partial(t, pos) {
            None => 0,
            Some(p) => cmd::matching(reg, p).len(),
        }
    }
}

/// `s` are the command suggestions for the cursor.
pub open spec fn command_suggestions(reg: Seq<(Seq<char>, Seq<char>)>, t: Seq<char>, pos: int, s: Seq<Suggestion>) -> bool {
    if !cmd::spec_can_complete(t, pos) {
        s.len() == 0
    } else {
        match cmd::spec_partial(t, pos) {
            None => s.len() == 0,
            Some(p) => cmd::suggests(s, cmd::matching(reg, p)),
        }
    }
}

/// The selection kept among `count` suggestions: `keep`, or the last one.
pub open spec fn kept_selection(keep: nat, count: nat) -> nat {
    if keep < count {
        keep
    } else {
        (count - 1) as nat
    }
}

/// `new` shows the command suggestions for the cursor with selection
/// `keep` kept, or is hidden when there are none.
pub open spec fn command_completion_shown(new: CompletionView, reg: Seq<(Seq<char>, Seq<char>)>, t: Seq<char>, pos: int, keep: nat) -> bool {
    let count = command_match_count(reg, t, pos);
    if count == 0 {
        spec_hidden(new)
    } else {
        &&& command_suggestions(reg, t, pos, new.suggestions)
        &&& new.visible
        &&& new.trigger == t
        &&& new.selected == kept_selection(keep, count)
    }
}

/// The selection kept when suggestions are refreshed: the current one if
/// the text is the one they were shown for, else the first.
pub open spec fn selection_to_keep(old: CompletionView, t: Seq<char>) -> nat {
    if old.trigger != t {
        0
    } else {
        old.selected
    }
}

/// `b` is `a` with only the completion state changed.
pub open spec fn completion_only(a: App, b: App) -> bool {
    b == (App { completion_state: b.completion_state, ..a })
}

/// `b` is `a` with only the editor changed.
pub open spec fn editor_only(a: App, b: App) -> bool {
    b == (App { editor: b.editor, ..a })
}

/// `b` is `a` with only the editor and completion state changed.
pub open spec fn editor_completion_only(a: App, b: App) -> bool {
    b == (App { editor: b.editor, completion_state: b.completion_state, ..a })
}

/// `b` is `a` with only the scroll position changed.
pub open spec fn scroll_only(a: App, b: App) -> bool {
    b == (App { scroll: b.scroll, ..a })
}

/// The completion popup is visible.
pub open spec fn popup_visible(c: CompletionView) -> bool {
    c.visible && c.suggestions.len() > 0
}

/// The completion state after moving to the next suggestion.
pub open spec fn completion_next(c: CompletionView) -> CompletionView {
    CompletionView { selected: spec_next(c.selected, c.suggestions.len()), ..c }
}

/// The completion state after moving to the previous suggestion.
pub open spec fn completion_prev(c: CompletionView) -> CompletionView {
    CompletionView { selected: spec_prev(c.selected, c.suggestions.len()), ..c }
}

/// After an edit, the suggestions are refreshed for the new text: `a` is
/// the state after the edit, `b` the state after the refresh. Slash
/// commands are completed here; for a path, the caller is asked to list
/// the directory.
pub open spec fn completion_refreshed(a: App, b: App, outcome: KeyOutcome) -> bool {
    let v = a.editor@;
    let t = editor_text(v);
    let pos = cursor_offset(v) as int;
    if cmd::spec_can_complete(t, pos) {
        &&& outcome is Done
        &&& completion_only(a, b)
        &&& command_completion_shown(b.completion_state@, a.completer.registry(), t, pos, selection_to_keep(a.completion_state@, t))
    } else if path::spec_can_complete(t, pos) {
        &&& outcome is CompletePath
        &&& b == a
    } else {
        &&& outcome is Done
        &&& completion_only(a, b)
        &&& spec_hidden(b.completion_state@)
    }
}

/// The text a chosen suggestion completes the input to.
pub open spec fn completed_text(s: Suggestion, t: Seq<char>, pos: int) -> Seq<char> {
    match s.completion_type {
        CompletionType::Command => seq!['/'] + s.id@,
        CompletionType::Path => match path::spec_find_path_start(t, pos) {
            Some(start) => t.take(text::char_idx(t, start)) + s.replace_suffix@,
            None => s.replace_suffix@,
        },
        _ => s.replace_suffix@,
    }
}

/// The editor holding just `t` on one line, cursor at its end.
pub open spec fn editor_holding(t: Seq<char>) -> EditorView {
    EditorView { lines: seq![t], row: 0, col: text::byte_len(t) }
}

/// `b` is `a` after the selected suggestion was accepted: the input
/// becomes the completed text and the popup closes.
pub open spec fn completion_accepted(a: App, b: App) -> bool {
    let c = a.completion_state@;
    let v = a.editor@;
    &&& editor_completion_only(a, b)
    &&& spec_hidden(b.completion_state@)
    &&& c.suggestions.len() > 0 ==> b.editor@ == editor_holding(
        completed_text(c.suggestions[c.selected as int], editor_text(v), cursor_offset(v) as int),
    )
    &&& c.suggestions.len() == 0 ==> b.editor@ == v
}

/// Whether every line of the editor is empty.
pub open spec fn editor_blank(v: EditorView) -> bool {
    forall|i: int| 0 <= i < v.lines.len() ==> #[trigger] v.lines[i].len() == 0
}

/// `b` is `a` after the input was sent: a slash command is handed to the
/// caller to run (or refused without a command context); other text is
/// sent as the user's message and a response awaited. The input is cleared.
pub open spec fn message_sent(a: App, b: App, outcome: KeyOutcome) -> bool {
    let t = editor_text(a.editor@);
    if t.len() == 0 {
        outcome is Done && b == a
    } else if t[0] == '/' {
        if a.command_ctx is Some {
            &&& outcome matches KeyOutcome::RunCommand(c) && c@ == t
            &&& editor_only(a, b)
            &&& b.editor@ == empty_editor()
        } else {
            &&& outcome is Done
            &&& b == (App { editor: b.editor, messages: b.messages, ..a })
            &&& b.editor@ == empty_editor()
            &&& b.messages@.len() == a.messages@.len() + 1
            &&& b.messages@.drop_last() == a.messages@
            &&& is_text_message(b.messages@.last(), assistant_role(), no_commands_reply())
        }
    } else {
        &&& outcome is Done
        &&& b == (App { editor: b.editor, messages: b.messages, is_loading: true, progress_manager: b.progress_manager, ..a })
        &&& b.editor@ == empty_editor()
        &&& b.messages@.len() == a.messages@.len() + 1
        &&& b.messages@.drop_last() == a.messages@
        &&& is_text_message(b.messages@.last(), user_role(), t)
        &&& b.progress_manager.has_main()
        &&& b.progress_manager.spec_tools() == a.progress_manager.spec_tools()
    }
}

/// The reply when commands cannot run.
pub open spec fn no_commands_reply() -> Seq<char> {
    "Commands not available. Please restart with a provider."@
}

/// `b` is `a` after key `k` in the input area (no permission request
/// pending, no response awaited).
pub open spec fn input_key_step(a: App, k: KeyInput, b: App, outcome: KeyOutcome) -> bool {
    let c = a.completion_state@;
    let vis = popup_visible(c);
    let v = a.editor@;
    let t = editor_text(v);
    let pos = cursor_offset(v) as int;
    match k.code {
        KeyCode::Tab => outcome is Done && if vis {
            completion_only(a, b) && b.completion_state@ == completion_next(c)
        } else if cmd::spec_can_complete(t, pos) {
            completion_only(a, b) && command_completion_shown(b.completion_state@, a.completer.registry(), t, pos, 0)
        } else {
            b == a
        },
        KeyCode::BackTab => outcome is Done && if vis {
            completion_only(a, b) && b.completion_state@ == completion_prev(c)
        } else {
            b == a
        },
        KeyCode::Enter => if vis {
            outcome is Done && completion_accepted(a, b)
        } else if k.modifiers == MODIFIER_CONTROL || k.modifiers == MODIFIER_ALT {
            outcome is Done && editor_only(a, b) && b.editor@ == spec_insert_newline(v)
        } else if !editor_blank(v) {
            message_sent(a, b, outcome)
        } else {
            outcome is Done && b == a
        },
        KeyCode::Char(ch) => {
            &&& b.editor@ == spec_insert_char(v, ch)
            &&& completion_refreshed(App { editor: b.editor, ..a }, b, outcome)
        },
        KeyCode::Backspace => {
            &&& b.editor@ == spec_backspace(v)
            &&& completion_refreshed(App { editor: b.editor, ..a }, b, outcome)
        },
        KeyCode::Delete => {
            &&& b.editor@ == spec_delete(v)
            &&& completion_refreshed(App { editor: b.editor, ..a }, b, outcome)
        },
        KeyCode::Left => outcome is Done && editor_completion_only(a, b) && b.editor@ == spec_move_left(v) && spec_hidden(
            b.completion_state@,
        ),
        KeyCode::Right => outcome is Done && editor_completion_only(a, b) && b.editor@ == spec_move_right(v)
            && spec_hidden(b.completion_state@),
        KeyCode::Up => outcome is Done && if vis {
            completion_only(a, b) && b.completion_state@ == completion_prev(c)
        } else if v.row > 0 {
            editor_only(a, b) && b.editor@ == (EditorView {
                row: (v.row - 1) as nat,
                col: clamp_col(v.col, text::byte_len(v.lines[v.row - 1])),
                ..v
            })
        } else {
            scroll_only(a, b) && b.scroll == (if a.scroll > 0 {
                (a.scroll - 1) as u16
            } else {
                a.scroll
            })
        },
        KeyCode::Down => outcome is Done && if vis {
            completion_only(a, b) && b.completion_state@ == completion_next(c)
        } else if v.row + 1 < v.lines.len() {
            editor_only(a, b) && b.editor@ == (EditorView {
                row: v.row + 1,
                col: clamp_col(v.col, text::byte_len(v.lines[v.row + 1int])),
                ..v
            })
        } else {
            scroll_only(a, b) && b.scroll == a.scroll + 1
        },
        KeyCode::Home => outcome is Done && editor_completion_only(a, b) && b.editor@ == (EditorView { col: 0, ..v })
            && spec_hidden(b.completion_state@),
        KeyCode::End => outcome is Done && editor_completion_only(a, b) && b.editor@ == (EditorView {
            col: text::byte_len(v.lines[v.row as int]),
            ..v
        }) && spec_hidden(b.completion_state@),
        KeyCode::PageUp => outcome is Done && scroll_only(a, b) && b.scroll == (if a.scroll > 5 {
            (a.scroll - 5) as u16
        } else {
            0u16
        }),
        KeyCode::PageDown => outcome is Done && scroll_only(a, b) && b.scroll == a.scroll + 5,
        KeyCode::Esc => outcome is Done && if vis {
            completion_only(a, b) && spec_hidden(b.completion_state@)
        } else {
            editor_only(a, b) && b.editor@ == empty_editor()
        },
        KeyCode::Other => outcome is Done && b == a,
    }
}

/// `b` is `a` after key `k` while a response is awaited: only scrolling.
pub open spec fn loading_key_step(a: App, k: KeyInput, b: App) -> bool {
    &&& scroll_only(a, b)
    &&& b.scroll == match k.code {
        KeyCode::Up => if a.scroll > 0 {
            (a.scroll - 1) as u16
        } else {
            a.scroll
        },
        KeyCode::Down => (a.scroll + 1) as u16,
        KeyCode::PageUp => if a.scroll > 5 {
            (a.scroll - 5) as u16
        } else {
            0u16
        },
        KeyCode::PageDown => (a.scroll + 5) as u16,
        _ => a.scroll,
    }
}

/// `b` is `a` after the permission request was answered with reply `r`,
/// `status` shown.
pub open spec fn answered(a: App, b: App, r: Seq<char>) -> bool {
    &&& b == (App { pending_permission: None, status: b.status, messages: b.messages, ..a })
    &&& b.messages@.len() == a.messages@.len() + 1
    &&& b.messages@.drop_last() == a.messages@
    &&& is_text_message(b.messages@.last(), assistant_role(), r)
}

/// `b` is `a` after key `k` while a permission request is pending.
pub open spec fn permission_key_step(a: App, k: KeyInput, b: App) -> bool {
    match (a.permission_dialog, a.pending_permission) {
        (Some(d), Some(p)) => match k.code {
            KeyCode::Up => {
                &&& b == (App { permission_dialog: b.permission_dialog, status: b.status, ..a })
                &&& b.permission_dialog matches Some(d2) && d2@ == (
                    if d@.0 > 0 {
                        (d@.0 - 1) as nat
                    } else {
                        0nat
                    },
                    d@.1,
                ) && b.status@ == "[?] Selected: "@ + choice_label(spec_choices()[d2@.0 as int])
            },
            KeyCode::Down => {
                &&& b == (App { permission_dialog: b.permission_dialog, status: b.status, ..a })
                &&& b.permission_dialog matches Some(d2) && d2@ == (
                    if d@.0 < 3 {
                        d@.0 + 1
                    } else {
                        3nat
                    },
                    d@.1,
                ) && b.status@ == "[?] Selected: "@ + choice_label(spec_choices()[d2@.0 as int])
            },
            KeyCode::Enter => {
                let c = spec_choices()[d@.0 as int];
                &&& d@.0 < 4
                &&& b == (App {
                    pending_permission: None,
                    permission_dialog: None,
                    pending_permission_updates: b.pending_permission_updates,
                    status: b.status,
                    messages: b.messages,
                    ..a
                })
                &&& b.status@ == default_status()
                &&& b.messages@.len() == a.messages@.len() + 1
                &&& b.messages@.drop_last() == a.messages@
                &&& is_text_message(b.messages@.last(), assistant_role(), choice_reply(c, p.message@))
                &&& c == PermissionChoice::AllowAndSave ==> (b.pending_permission_updates matches Some(u)
                    && is_tool_allow_rule(u, p.tool_name@))
                &&& c != PermissionChoice::AllowAndSave ==> b.pending_permission_updates is None
            },
            KeyCode::Esc => {
                &&& b == (App {
                    pending_permission: None,
                    permission_dialog: None,
                    pending_permission_updates: None,
                    status: b.status,
                    messages: b.messages,
                    ..a
                })
                &&& b.status@ == default_status()
                &&& b.messages@.len() == a.messages@.len() + 1
                &&& b.messages@.drop_last() == a.messages@
                &&& is_text_message(b.messages@.last(), assistant_role(), "Permission request cancelled"@)
            },
            _ => b == a,
        },
        (None, Some(p)) => match k.code {
            KeyCode::Char('y') | KeyCode::Char('Y') => answered(a, b, "Permission approved for: "@ + p.message@)
                && b.status@ == "Approved: "@ + p.tool_name@,
            KeyCode::Char('n') | KeyCode::Char('N') | KeyCode::Esc => answered(
                a,
                b,
                "Permission denied for: "@ + p.message@,
            ) && b.status@ == "Denied: "@ + p.tool_name@,
            _ => b == a,
        },
        _ => true,
    }
}

/// Two seconds in nanoseconds: a Ctrl+C this soon after the previous one
/// counts as the second of a pair.
pub const CTRL_C_WINDOW_NANOS: u128 = 2_000_000_000;

/// Whether a Ctrl+C `elapsed` nanoseconds after the previous one (`None`
/// when none is recorded) falls within the two-second window of `a`'s last
/// press.
pub open spec fn ctrl_c_within(a: App, elapsed: Option<u128>) -> bool {
    a.last_ctrl_c_time is Some && (elapsed matches Some(e) && e < CTRL_C_WINDOW_NANOS)
}

/// `b` is `a` after a Ctrl+C press `elapsed` nanoseconds after the previous
/// one: a press within two seconds is counted with the previous ones, any
/// other starts the count again at one; the second in a row asks to quit,
/// the first shows a hint.
pub open spec fn ctrl_c_pressed(a: App, elapsed: Option<u128>, b: App) -> bool {
    &&& b == (App {
        ctrl_c_count: b.ctrl_c_count,
        last_ctrl_c_time: b.last_ctrl_c_time,
        should_quit: b.should_quit,
        status: b.status,
        ..a
    })
    &&& b.last_ctrl_c_time is Some
    &&& b.ctrl_c_count == (if ctrl_c_within(a, elapsed) {
        a.ctrl_c_count + 1
    } else {
        1
    })
    &&& b.should_quit == (a.should_quit || b.ctrl_c_count >= 2)
    &&& b.ctrl_c_count >= 2 ==> b.status == a.status
    &&& b.ctrl_c_count < 2 ==> b.status@ == ctrl_c_hint()
}

/// `b` is `a` after key `k`, other than Ctrl+C: the Ctrl+C count resets;
/// then a pending permission request takes the key; otherwise the status
/// line resets and the key scrolls (while a response is awaited) or edits.
pub open spec fn key_step(a: App, k: KeyInput, b: App, outcome: KeyOutcome) -> bool {
    let a1 = App { ctrl_c_count: 0, last_ctrl_c_time: None, ..a };
    if a1.pending_permission is Some {
        outcome is Done && permission_key_step(a1, k, b)
    } else {
        &&& b.status@ == default_status()
        &&& if a1.is_loading {
            outcome is Done && loading_key_step(App { status: b.status, ..a1 }, k, b)
        } else {
            input_key_step(App { status: b.status, ..a1 }, k, b, outcome)
        }
    }
}

/// When key `k` can be handled without failing: the counters do not
/// overflow, and edits at the cursor find it on a character boundary.
pub open spec fn key_fits(a: App, k: KeyInput) -> bool {
    if is_ctrl_c(k) {
        a.last_ctrl_c_time is Some ==> a.ctrl_c_count < u32::MAX
    } else if a.pending_permission is Some {
        true
    } else if a.is_loading {
        match k.code {
            KeyCode::Down => a.scroll < u16::MAX,
            KeyCode::PageDown => a.scroll + 5 <= u16::MAX,
            _ => true,
        }
    } else {
        let vis = popup_visible(a.completion_state@);
        let v = a.editor@;
        match k.code {
            KeyCode::Char(_) | KeyCode::Backspace | KeyCode::Delete | KeyCode::Left | KeyCode::Right => on_boundary(v),
            KeyCode::Enter => !vis && (k.modifiers == MODIFIER_CONTROL || k.modifiers == MODIFIER_ALT) ==> on_boundary(v),
            KeyCode::Tab => (!vis && cmd::starts_with_slash(editor_text(v)) && cursor_offset(v) >= 1) ==> on_boundary(v),
            KeyCode::Down => (!vis && v.row + 1 >= v.lines.len()) ==> a.scroll < u16::MAX,
            KeyCode::PageDown => a.scroll + 5 <= u16::MAX,
            _ => true,
        }
    }
}

impl App {
    /// Whether `key` can be handled now: where it cannot, handling it would
    /// overflow a counter or edit off a character boundary.
    pub fn can_handle_key(&self, key: KeyInput) -> (b: bool)
        ensures
            b == key_fits(*self, key),
    {
        proof {
            use_type_invariant(&self.editor);
        }
        let ctrl_c = key.modifiers == MODIFIER_CONTROL && match key.code {
            KeyCode::Char(c) => c == 'c',
            _ => false,
        };
        if ctrl_c {
            return self.last_ctrl_c_time.is_none() || self.ctrl_c_count < u32::MAX;
        }
        if self.pending_permission.is_some() {
            return true;
        }
        if self.is_loading {
            return match key.code {
                KeyCode::Down => self.scroll < u16::MAX,
                KeyCode::PageDown => self.scroll <= u16::MAX - 5,
                _ => true,
            };
        }
        let vis = self.completion_state.is_visible();
        match key.code {
            KeyCode::Char(_) | KeyCode::Backspace | KeyCode::Delete | KeyCode::Left | KeyCode::Right => {
                self.editor.cursor_on_boundary()
            },
            KeyCode::Enter => {
                let edits = !vis && (key.modifiers == MODIFIER_CONTROL || key.modifiers == MODIFIER_ALT);
                !edits || self.editor.cursor_on_boundary()
            },
            KeyCode::Tab => {
                let (t, pos) = self.text_and_cursor();
                let cs = text::chars_of(t.as_str());
                let completes = !vis && cs.len() > 0 && cs[0] == '/' && pos >= 1;
                !completes || self.editor.cursor_on_boundary()
            },
            KeyCode::Down => {
                let (row, _) = self.editor.cursor_position();
                let n = self.editor.lines().len();
                assert(row < n);
                let at_last_row = row + 1 >= n;
                !(!vis && at_last_row) || self.scroll < u16::MAX
            },
            KeyCode::PageDown => self.scroll <= u16::MAX - 5,
            _ => true,
        }
    }
}

impl App {
    /// Handle a key event (always in input mode). Slash commands and path
    /// listings are left to the caller, as the outcome says.
    pub fn handle_key(&mut self, key: KeyInput) -> (outcome: KeyOutcome)
        requires
            key_fits(*old(self), key),
        ensures
            is_ctrl_c(key) ==> outcome is Done && exists|elapsed: Option<u128>|
                (elapsed is Some <==> old(self).last_ctrl_c_time is Some) && #[trigger] ctrl_c_pressed(
                    *old(self),
                    elapsed,
                    *final(self),
                ),
            !is_ctrl_c(key) ==> key_step(*old(self), key, *final(self), outcome),
    {
        if key.modifiers == MODIFIER_CONTROL && key.code == KeyCode::Char('c') {
            let elapsed = self.handle_ctrl_c();
            assert(ctrl_c_pressed(*old(self), elapsed@, *self));
            return KeyOutcome::Done;
        }
        self.ctrl_c_count = 0;
        self.last_ctrl_c_time = None;
        if self.has_pending_permission() {
            self.handle_permission_key(key);
            return KeyOutcome::Done;
        }
        self.status = default_status_string();
        if self.is_loading {
            self.handle_loading_key(key);
            return KeyOutcome::Done;
        }
        self.handle_input_key(key)
    }

    /// A key while a permission request is pending.
    fn handle_permission_key(&mut self, key: KeyInput)
        requires
            old(self).pending_permission is Some,
        ensures
            permission_key_step(*old(self), key, *final(self)),
    {
        if self.permission_dialog.is_some() {
            match key.code {
                KeyCode::Up | KeyCode::Down => {
                    let label = match &mut self.permission_dialog {
                        Some(dialog) => {
                            if key.code == KeyCode::Up {
                                dialog.select_up();
                            } else {
                                dialog.select_down();
                            }
                            choice_label_text(dialog.selected_choice())
                        },
                        None => "",
                    };
                    self.status = concat2("[?] Selected: ", label);
                },
                KeyCode::Enter => {
                    match self.handle_permission_choice() {
                        Some(result) => {
                            let response = choice_reply_text(result.choice, result.message.as_str());
                            if result.choice == PermissionChoice::AllowAndSave {
                                self.pending_permission_updates = result.updates;
                            }
                            self.messages.push(Message::assistant(response));
                            assert(self.messages@.drop_last() =~= old(self).messages@);
                        },
                        None => {},
                    }
                },
                KeyCode::Esc => {
                    self.clear_pending_permission();
                    self.messages.push(Message::assistant(text::owned("Permission request cancelled")));
                    assert(self.messages@.drop_last() =~= old(self).messages@);
                },
                _ => {},
            }
        } else {
            match key.code {
                KeyCode::Char('y') | KeyCode::Char('Y') => {
                    match self.handle_permission_response(true) {
                        Some(response) => {
                            self.messages.push(Message::assistant(response));
                            assert(self.messages@.drop_last() =~= old(self).messages@);
                        },
                        None => {},
                    }
                },
                KeyCode::Char('n') | KeyCode::Char('N') | KeyCode::Esc => {
                    match self.handle_permission_response(false) {
                        Some(response) => {
                            self.messages.push(Message::assistant(response));
                            assert(self.messages@.drop_last() =~= old(self).messages@);
                        },
                        None => {},
                    }
                },
                _ => {},
            }
        }
    }

    /// A key while a response is awaited: scrolling only.
    fn handle_loading_key(&mut self, key: KeyInput)
        requires
            key.code == KeyCode::Down ==> old(self).scroll < u16::MAX,
            key.code == KeyCode::PageDown ==> old(self).scroll + 5 <= u16::MAX,
        ensures
            loading_key_step(*old(self), key, *final(self)),
    {
        match key.code {
            KeyCode::Up => {
                if self.scroll > 0 {
                    self.scroll -= 1;
                }
            },
            KeyCode::Down => {
                self.scroll += 1;
            },
            KeyCode::PageUp => {
                if self.scroll > 5 {
                    self.scroll -= 5;
                } else {
                    self.scroll = 0;
                }
            },
            KeyCode::PageDown => {
                self.scroll += 5;
            },
            _ => {},
        }
    }

    /// Get cursor position as byte offset in full text
    fn get_cursor_byte_pos(&self) -> (pos: usize)
        ensures
            pos == cursor_offset(self.editor@),
    {
        proof {
            use_type_invariant(&self.editor);
            super::lemma_cursor_offset_bound(self.editor@);
        }
        let t = self.editor.text();
        let _total = text::str_len(t.as_str());
        let (row, col) = self.editor.cursor_position();
        let lines = self.editor.lines();
        let mut offset: usize = 0;
        let mut i: usize = 0;
        while i < row
            invariant
                i <= row == self.editor@.row,
                row < lines@.len(),
                text::views(lines@) == self.editor@.lines,
                offset == super::rows_bytes(self.editor@.lines, i as int),
                cursor_offset(self.editor@) <= isize::MAX,
            decreases row - i,
        {
            proof {
                lemma_rows_bytes_mono(self.editor@.lines, i as int + 1, row as int);
            }
            offset = offset + text::str_len(lines[i].as_str()) + 1;
            i += 1;
        }
        offset + col
    }

    /// The editor's text and cursor offset, with the cursor's offset a
    /// character boundary of the text whenever the cursor is one of its line.
    fn text_and_cursor(&self) -> (r: (String, usize))
        ensures
            r.0@ == editor_text(self.editor@),
            r.1 == cursor_offset(self.editor@),
            on_boundary(self.editor@) ==> text::boundary_or_past(r.0@, r.1 as int),
    {
        proof {
            use_type_invariant(&self.editor);
            if on_boundary(self.editor@) {
                super::lemma_cursor_boundary(self.editor@);
            }
        }
        (self.editor.text(), self.get_cursor_byte_pos())
    }

    /// Show the command suggestions for the cursor, keeping the selection
    /// when the text is unchanged.
    fn show_command_suggestions(&mut self, t: &str, pos: usize, keep_selection: bool)
        requires
            text::boundary_or_past(t@, pos as int),
            cmd::spec_can_complete(t@, pos as int),
        ensures
            completion_only(*old(self), *final(self)),
            command_completion_shown(
                final(self).completion_state@,
                old(self).completer.registry(),
                t@,
                pos as int,
                if keep_selection {
                    selection_to_keep(old(self).completion_state@, t@)
                } else {
                    0
                },
            ),
    {
        let suggestions = self.completer.get_suggestions(t, pos);
        let ghost sugg = suggestions@;
        let current = if keep_selection && !self.completion_state.input_changed(t) {
            self.completion_state.selected_index()
        } else {
            0
        };
        if suggestions.len() == 0 {
            self.completion_state.hide_popup();
            return;
        }
        self.completion_state.show(suggestions, t);
        let count = self.completion_state.count();
        let steps = if current < count - 1 {
            current
        } else {
            count - 1
        };
        let mut i: usize = 0;
        proof {
            crate::tui::completion::lemma_next_cycles(0, count as nat, 0);
        }
        while i < steps
            invariant
                i <= steps < count,
                count == self.completion_state@.suggestions.len(),
                self.completion_state@.selected == crate::tui::completion::iterate_next(0, count as nat, i as nat),
                self.completion_state@.visible,
                self.completion_state@.trigger == t@,
                self.completion_state@.suggestions == sugg,
                *self == (App { completion_state: self.completion_state, ..*old(self) }),
            decreases steps - i,
        {
            self.completion_state.select_next();
            i += 1;
        }
        proof {
            crate::tui::completion::lemma_next_cycles(0, count as nat, steps as nat);
            vstd::arithmetic::div_mod::lemma_small_mod(steps as nat, count as nat);
        }
    }

    /// Update completion suggestions based on current input
    fn update_completion(&mut self) -> (outcome: KeyOutcome)
        requires
            on_boundary(old(self).editor@),
        ensures
            completion_refreshed(*old(self), *final(self), outcome),
    {
        let (t, pos) = self.text_and_cursor();
        if self.completer.can_complete(t.as_str(), pos) {
            self.show_command_suggestions(t.as_str(), pos, true);
            KeyOutcome::Done
        } else if self.path_completer.can_complete(t.as_str(), pos) {
            KeyOutcome::CompletePath
        } else {
            self.completion_state.hide_popup();
            KeyOutcome::Done
        }
    }

    /// What to list for the path being typed at the cursor; `home` stands
    /// for `~`. None when no path is typed there.
    pub fn path_query(&self, home: &str) -> (r: Option<PathQuery>)
        ensures
            on_boundary(self.editor@) ==> ({
                let t = editor_text(self.editor@);
                let pos = cursor_offset(self.editor@) as int;
                &&& !path::spec_can_complete(t, pos) ==> r is None
                &&& path::spec_can_complete(t, pos) ==> (r matches Some(q) && {
                    let pt = path::path_text(t, pos, path::spec_find_path_start(t, pos)->0);
                    &&& (q.directory@, q.prefix@) == path::spec_parse_partial(pt, self.path_completer@.cwd, home@)
                    &&& q.dir_portion@ == path::spec_dir_portion(pt)
                })
            }),
    {
        let (t, pos) = self.text_and_cursor();
        let cs = chars_of(t.as_str());
        if crate::tui::completion::command::within_text(cs.as_slice(), pos)
            && !crate::tui::completion::command::char_boundary_check(cs.as_slice(), pos) {
            return None;
        }
        self.path_completer.path_query(t.as_str(), pos, home)
    }

    /// Show the path suggestions for a query, given the listing of its
    /// directory in the order it was read; the selection is kept when the
    /// text is unchanged.
    pub fn apply_path_completion(&mut self, query: &PathQuery, listing: Vec<PathEntry>)
        ensures
            completion_only(*old(self), *final(self)),
            ({
                let sel = path::spec_select(old(self).path_completer@, listing@, query.prefix@);
                let t = editor_text(old(self).editor@);
                let c = final(self).completion_state@;
                if sel.len() == 0 {
                    spec_hidden(c)
                } else {
                    &&& c.suggestions.len() == sel.len()
                    &&& forall|i: int| 0 <= i < sel.len() ==> path::is_entry_suggestion(#[trigger] c.suggestions[i], sel[i], query.dir_portion@)
                    &&& c.visible
                    &&& c.trigger == t
                    &&& c.selected == kept_selection(selection_to_keep(old(self).completion_state@, t), sel.len())
                }
            }),
    {
        let t = self.editor.text();
        let suggestions = self.path_completer.suggestions_from_listing(query, listing);
        let current = if self.completion_state.input_changed(t.as_str()) {
            0
        } else {
            self.completion_state.selected_index()
        };
        if suggestions.len() == 0 {
            self.completion_state.hide_popup();
            return;
        }
        let ghost sugg = suggestions@;
        self.completion_state.show(suggestions, t.as_str());
        let count = self.completion_state.count();
        let steps = if current < count - 1 {
            current
        } else {
            count - 1
        };
        let mut i: usize = 0;
        while i < steps
            invariant
                i <= steps < count,
                count == self.completion_state@.suggestions.len(),
                self.completion_state@.selected == crate::tui::completion::iterate_next(0, count as nat, i as nat),
                self.completion_state@.visible,
                self.completion_state@.trigger == t@,
                self.completion_state@.suggestions == sugg,
                *self == (App { completion_state: self.completion_state, ..*old(self) }),
            decreases steps - i,
        {
            self.completion_state.select_next();
            i += 1;
        }
        proof {
            crate::tui::completion::lemma_next_cycles(0, count as nat, steps as nat);
            vstd::arithmetic::div_mod::lemma_small_mod(steps as nat, count as nat);
        }
    }

    /// Accept selected completion suggestion
    fn accept_completion(&mut self)
        ensures
            completion_accepted(*old(self), *final(self)),
    {
        let (t, pos) = self.text_and_cursor();
        let completed = match self.completion_state.selected_suggestion() {
            Some(suggestion) => {
                let completed = match suggestion.completion_type {
                    CompletionType::Command => {
                        let mut c = String::new();
                        push_char(&mut c, '/');
                        push_str(&mut c, suggestion.id.as_str());
                        assert(c@ =~= seq!['/'] + suggestion.id@);
                        c
                    },
                    CompletionType::Path => {
                        match self.path_completer.find_path_start(t.as_str(), pos) {
                            Some(start) => {
                                let cs = chars_of(t.as_str());
                                proof {
                                    path::lemma_path_start_boundary(t@, pos as int);
                                }
                                let k = match text::char_index_at_byte(cs.as_slice(), start) {
                                    Some(k) => k,
                                    None => 0,
                                };
                                proof {
                                    text::lemma_char_idx(cs@, k as int);
                                }
                                let mut c = text::string_from_range(cs.as_slice(), 0, k);
                                push_str(&mut c, suggestion.replace_suffix.as_str());
                                assert(cs@.subrange(0, k as int) =~= cs@.take(k as int));
                                c
                            },
                            None => suggestion.replace_suffix.clone(),
                        }
                    },
                    _ => suggestion.replace_suffix.clone(),
                };
                Some(completed)
            },
            None => None,
        };
        match completed {
            Some(c) => {
                self.editor.clear();
                let cs = chars_of(c.as_str());
                let mut i: usize = 0;
                assert(cs@.take(0) =~= Seq::<char>::empty());
                assert(text::byte_len(Seq::<char>::empty()) == 0);
                while i < cs.len()
                    invariant
                        i <= cs@.len(),
                        cs@ == c@,
                        self.editor@ == editor_holding(cs@.take(i as int)),
                        *self == (App { editor: self.editor, ..*old(self) }),
                    decreases cs.len() - i,
                {
                    proof {
                        let l = cs@.take(i as int);
                        text::lemma_char_idx(l, l.len() as int);
                        assert(l.take(l.len() as int) =~= l);
                        text::lemma_byte_len_take_all(l);
                    }
                    self.editor.insert_char(cs[i]);
                    proof {
                        let l = cs@.take(i as int);
                        assert(l.skip(l.len() as int) =~= Seq::<char>::empty());
                        assert(cs@.take(i as int + 1) =~= l + seq![cs@[i as int]]);
                        text::lemma_byte_len_concat(l, seq![cs@[i as int]]);
                        text::lemma_byte_len_single(cs@[i as int]);
                        assert(self.editor@.lines =~= seq![cs@.take(i as int + 1)]);
                    }
                    i += 1;
                }
                assert(cs@.take(cs@.len() as int) =~= cs@);
            },
            None => {},
        }
        self.completion_state.hide_popup();
    }

    /// Send the current message
    fn send_message(&mut self) -> (outcome: KeyOutcome)
        ensures
            message_sent(*old(self), *final(self), outcome),
    {
        let text = self.editor.text();
        if text.as_str().is_empty() {
            return KeyOutcome::Done;
        }
        let outcome = if CommandRegistry::is_command(text.as_str()) {
            if self.command_ctx.is_some() {
                KeyOutcome::RunCommand(text)
            } else {
                self.messages.push(Message::assistant(text::owned("Commands not available. Please restart with a provider.")));
                assert(self.messages@.drop_last() =~= old(self).messages@);
                KeyOutcome::Done
            }
        } else {
            self.messages.push(Message::user(text));
            assert(self.messages@.drop_last() =~= old(self).messages@);
            self.is_loading = true;
            self.progress_manager.start_main(Some(text::owned("Sending message")));
            KeyOutcome::Done
        };
        self.editor.clear();
        outcome
    }

    /// A key in the input area.
    fn handle_input_key(&mut self, key: KeyInput) -> (outcome: KeyOutcome)
        requires
            key_fits(*old(self), key),
            old(self).pending_permission is None,
            !old(self).is_loading,
            !is_ctrl_c(key),
        ensures
            input_key_step(*old(self), key, *final(self), outcome),
    {
        proof {
            use_type_invariant(&self.editor);
        }
        match key.code {
            KeyCode::Tab => {
                if self.completion_state.is_visible() {
                    self.completion_state.select_next();
                } else {
                    let (t, pos) = self.text_and_cursor();
                    if self.completer.can_complete(t.as_str(), pos) {
                        self.show_command_suggestions(t.as_str(), pos, false);
                    }
                }
                KeyOutcome::Done
            },
            KeyCode::BackTab => {
                if self.completion_state.is_visible() {
                    self.completion_state.select_prev();
                }
                KeyOutcome::Done
            },
            KeyCode::Enter => {
                if self.completion_state.is_visible() {
                    self.accept_completion();
                    KeyOutcome::Done
                } else if key.modifiers == MODIFIER_CONTROL || key.modifiers == MODIFIER_ALT {
                    self.editor.insert_newline();
                    KeyOutcome::Done
                } else if !self.editor.is_empty() {
                    self.send_message()
                } else {
                    KeyOutcome::Done
                }
            },
            KeyCode::Char(c) => {
                self.editor.insert_char(c);
                self.update_completion()
            },
            KeyCode::Backspace => {
                self.editor.backspace();
                self.update_completion()
            },
            KeyCode::Delete => {
                self.editor.delete();
                self.update_completion()
            },
            KeyCode::Left => {
                self.editor.move_left();
                self.completion_state.hide_popup();
                KeyOutcome::Done
            },
            KeyCode::Right => {
                self.editor.move_right();
                self.completion_state.hide_popup();
                KeyOutcome::Done
            },
            KeyCode::Up => {
                if self.completion_state.is_visible() {
                    self.completion_state.select_prev();
                } else if self.editor.cursor_position().0 > 0 {
                    self.editor.move_up();
                } else if self.scroll > 0 {
                    self.scroll -= 1;
                }
                KeyOutcome::Done
            },
            KeyCode::Down => {
                if self.completion_state.is_visible() {
                    self.completion_state.select_next();
                } else if self.editor.cursor_position().0 < self.editor.lines().len()
                    && self.editor.lines().len() - self.editor.cursor_position().0 > 1 {
                    self.editor.move_down();
                } else {
                    self.scroll += 1;
                }
                KeyOutcome::Done
            },
            KeyCode::Home => {
                self.editor.move_home();
                self.completion_state.hide_popup();
                KeyOutcome::Done
            },
            KeyCode::End => {
                self.editor.move_end();
                self.completion_state.hide_popup();
                KeyOutcome::Done
            },
            KeyCode::PageUp => {
                if self.scroll > 5 {
                    self.scroll -= 5;
                } else {
                    self.scroll = 0;
                }
                KeyOutcome::Done
            },
            KeyCode::PageDown => {
                self.scroll += 5;
                KeyOutcome::Done
            },
            KeyCode::Esc => {
                if self.completion_state.is_visible() {
                    self.completion_state.hide_popup();
                } else {
                    self.editor.clear();
                }
                KeyOutcome::Done
            },
            KeyCode::Other => KeyOutcome::Done,
        }
    }

    /// Finish a slash command run for `RunCommand`: its output (or word that
    /// the command is unknown) is added, the history cleared if asked, the
    /// provider shown if it changed, and the conversation handed back to the
    /// command context.
    pub fn finish_command(&mut self, command: &str, result: Option<CommandResult>)
        requires
            old(self).command_ctx is Some,
        ensures
            final(self).command_ctx matches Some(ctx) && messages_copied(ctx.messages@, final(self).messages@)
                && ctx.current_provider_name == old(self).command_ctx->0.current_provider_name,
            *final(self) == (App {
                messages: final(self).messages,
                status: final(self).status,
                command_ctx: final(self).command_ctx,
                ..*old(self)
            }),
            match result {
                Some(r) => {
                    &&& r.clear_history ==> final(self).messages@.len() == 0
                    &&& !r.clear_history ==> final(self).messages@.len() == old(self).messages@.len() + 1
                        && final(self).messages@.drop_last() == old(self).messages@ && is_text_message(
                        final(self).messages@.last(),
                        assistant_role(),
                        r.output@,
                    )
                    &&& r.provider_changed ==> final(self).status@ == "Provider: "@
                        + old(self).command_ctx->0.current_provider_name@
                    &&& !r.provider_changed ==> final(self).status == old(self).status
                },
                None => {
                    &&& final(self).messages@.len() == old(self).messages@.len() + 1
                    &&& final(self).messages@.drop_last() == old(self).messages@
                    &&& is_text_message(final(self).messages@.last(), assistant_role(), "Unknown command: "@ + command@)
                    &&& final(self).status == old(self).status
                },
            },
    {
        match result {
            Some(r) => {
                self.messages.push(Message::assistant(r.output));
                assert(self.messages@.drop_last() =~= old(self).messages@);
                if r.clear_history {
                    self.messages.clear();
                }
                if r.provider_changed {
                    let name = match &self.command_ctx {
                        Some(ctx) => ctx.current_provider_name.clone(),
                        None => String::new(),
                    };
                    self.status = concat2("Provider: ", name.as_str());
                }
            },
            None => {
                self.messages.push(Message::assistant(concat2("Unknown command: ", command)));
                assert(self.messages@.drop_last() =~= old(self).messages@);
            },
        }
        let copy = copy_messages(&self.messages);
        match &mut self.command_ctx {
            Some(ctx) => {
                ctx.messages = copy;
            },
            None => {},
        }
    }
}

/// Two conversations hold the same messages.
pub open spec fn messages_copied(a: Seq<Message>, b: Seq<Message>) -> bool {
    &&& a.len() == b.len()
    &&& forall|i: int| 0 <= i < a.len() ==> (#[trigger] a[i]).role == b[i].role && a[i].content@ == b[i].content@
}

/// A copy of a message.
fn copy_message(m: &Message) -> (r: Message)
    ensures
        r.role == m.role,
        r.content@ == m.content@,
{
    let mut content: Vec<ContentBlock> = Vec::new();
    let mut i: usize = 0;
    while i < m.content.len()
        invariant
            i <= m.content@.len(),
            content@ == m.content@.take(i as int),
        decreases m.content.len() - i,
    {
        let b = match &m.content[i] {
            ContentBlock::Text { text } => ContentBlock::Text { text: text.clone() },
        };
        content.push(b);
        i += 1;
        assert(content@ =~= m.content@.take(i as int));
    }
    assert(m.content@.take(m.content@.len() as int) =~= m.content@);
    Message { role: m.role.clone(), content }
}

/// A copy of a conversation.
fn copy_messages(ms: &Vec<Message>) -> (r: Vec<Message>)
    ensures
        messages_copied(r@, ms@),
{
    let mut out: Vec<Message> = Vec::new();
    let mut i: usize = 0;
    while i < ms.len()
        invariant
            i <= ms@.len(),
            out@.len() == i,
            forall|j: int| 0 <= j < i ==> (#[trigger] out@[j]).role == ms@[j].role && out@[j].content@ == ms@[j].content@,
        decreases ms.len() - i,
    {
        out.push(copy_message(&ms[i]));
        i += 1;
    }
    out
}

/// Rows further down start at larger offsets.
proof fn lemma_rows_bytes_mono(ls: Seq<Seq<char>>, i: int, j: int)
    requires
        0 <= i <= j,
    ensures
        super::rows_bytes(ls, i) <= super::rows_bytes(ls, j),
    decreases j - i,
{
    if i < j {
        lemma_rows_bytes_mono(ls, i, j - 1);
    }
}

} // verus!
