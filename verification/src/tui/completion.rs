//! Completion module - Tab completion for TUI
//!
//! Provides autocomplete functionality for:
//! - Slash commands (/help, /provider, /model, etc.)
//! - File paths (~/, /, ./, ../)

pub mod command;
pub mod path;

pub use command::CommandCompleter;
pub use path::{PathCompleter, PathEntry, PathEntryType};

use crate::text;
use crate::text::{push_char, push_str, str_eq};
use vstd::prelude::*;

verus! {

/// Completion type identifier
#[derive(Debug, Clone, Copy, PartialEq, Eq, Structural)]
pub enum CompletionType {
    /// Slash command completion
    Command,
    /// File path completion
    Path,
    /// Provider name completion
    Provider,
    /// Model name completion
    Model,
}

/// A single completion suggestion
#[derive(Debug, Clone)]
pub struct Suggestion {
    /// Unique identifier for the suggestion
    pub id: String,
    /// Text to display in the completion popup
    pub display_text: String,
    /// Optional description/help text
    pub description: Option<String>,
    /// Type of completion
    pub completion_type: CompletionType,
    /// The text that should replace the input after cursor position
    pub replace_suffix: String,
}

/// The view of an optional string.
pub open spec fn opt_view(o: Option<String>) -> Option<Seq<char>> {
    match o {
        Some(s) => Some(s@),
        None => None,
    }
}

/// `s` is the suggestion for command `name` with the given description.
pub open spec fn is_command_suggestion(s: Suggestion, name: Seq<char>, description: Option<Seq<char>>) -> bool {
    &&& s.id@ == name
    &&& s.display_text@ == seq!['/'] + name
    &&& opt_view(s.description) == description
    &&& s.completion_type == CompletionType::Command
    &&& s.replace_suffix@ == name
}

impl Suggestion {
    /// Create a new suggestion
    pub fn new(
        id: String,
        display_text: String,
        description: Option<String>,
        completion_type: CompletionType,
        replace_suffix: String,
    ) -> (s: Self)
        ensures
            s.id == id,
            s.display_text == display_text,
            s.description == description,
            s.completion_type == completion_type,
            s.replace_suffix == replace_suffix,
    {
        Self { id, display_text, description, completion_type, replace_suffix }
    }

    /// Create a command suggestion: shown as `/name`, completing to `name`.
    pub fn command(name: &str, description: Option<String>) -> (s: Self)
        ensures
            is_command_suggestion(s, name@, opt_view(description)),
    {
        let mut display = String::new();
        push_char(&mut display, '/');
        push_str(&mut display, name);
        assert(display@ =~= seq!['/'] + name@);
        Self::new(name.to_owned(), display, description, CompletionType::Command, name.to_owned())
    }
}

/// Trait for completion providers
pub trait CompletionProvider {
    /// Get completion suggestions for the given input
    ///
    /// * `input` - The current input text
    /// * `cursor_pos` - The cursor position (byte offset)
    fn get_suggestions(&self, input: &str, cursor_pos: usize) -> Vec<Suggestion>;

    /// Check if this provider can provide completions for the given input
    fn can_complete(&self, input: &str, cursor_pos: usize) -> bool;
}

/// Completion state manager
#[derive(Debug)]
pub struct CompletionState {
    /// Current suggestions
    suggestions: Vec<Suggestion>,
    /// Selected suggestion index
    selected: usize,
    /// Whether completion popup is visible
    visible: bool,
    /// The input that triggered completion (for detecting changes)
    trigger_input: String,
}

/// Abstract completion state.
pub struct CompletionView {
    /// Current suggestions.
    pub suggestions: Seq<Suggestion>,
    /// Selected index.
    pub selected: nat,
    /// Visibility flag.
    pub visible: bool,
    /// The input that triggered completion.
    pub trigger: Seq<char>,
}

/// The selection after moving forward, cycling at the end.
pub open spec fn spec_next(selected: nat, count: nat) -> nat {
    if count == 0 {
        selected
    } else {
        ((selected + 1) % count) as nat
    }
}

/// The selection after moving backward, cycling at the start.
pub open spec fn spec_prev(selected: nat, count: nat) -> nat {
    if count == 0 {
        selected
    } else if selected == 0 {
        (count - 1) as nat
    } else {
        (selected - 1) as nat
    }
}

/// The hidden state: no suggestions, nothing selected or remembered.
pub open spec fn spec_hidden(v: CompletionView) -> bool {
    &&& v.suggestions.len() == 0
    &&& v.selected == 0
    &&& !v.visible
    &&& v.trigger.len() == 0
}

impl View for CompletionState {
    type V = CompletionView;

    closed spec fn view(&self) -> CompletionView {
        CompletionView {
            suggestions: self.suggestions@,
            selected: self.selected as nat,
            visible: self.visible,
            trigger: self.trigger_input@,
        }
    }
}

impl CompletionState {
    /// The selection stays within the suggestions (or at 0 when there are none).
    #[verifier::type_invariant]
    spec fn inv(self) -> bool {
        if self.suggestions@.len() == 0 {
            self.selected == 0
        } else {
            self.selected < self.suggestions@.len()
        }
    }

    /// Create a new completion state
    pub fn new() -> (s: Self)
        ensures
            spec_hidden(s@),
    {
        Self { suggestions: Vec::new(), selected: 0, visible: false, trigger_input: String::new() }
    }

    /// Show completion popup with suggestions; with no suggestions, hide it.
    pub fn show(&mut self, suggestions: Vec<Suggestion>, input: &str)
        ensures
            suggestions@.len() == 0 ==> spec_hidden(final(self)@),
            suggestions@.len() > 0 ==> final(self)@ == (CompletionView {
                suggestions: suggestions@,
                selected: 0,
                visible: true,
                trigger: input@,
            }),
    {
        if suggestions.len() == 0 {
            self.hide_popup();
            return;
        }
        self.selected = 0;
        self.suggestions = suggestions;
        self.visible = true;
        self.trigger_input = input.to_owned();
    }

    /// Hide completion popup
    pub fn hide_popup(&mut self)
        ensures
            spec_hidden(final(self)@),
    {
        self.selected = 0;
        self.suggestions = Vec::new();
        self.visible = false;
        self.trigger_input = String::new();
    }

    /// Check if visible
    pub fn is_visible(&self) -> (b: bool)
        ensures
            b == (self@.visible && self@.suggestions.len() > 0),
    {
        self.visible && self.suggestions.len() > 0
    }

    /// Get current suggestions
    pub fn suggestions(&self) -> (s: &[Suggestion])
        ensures
            s@ == self@.suggestions,
    {
        self.suggestions.as_slice()
    }

    /// Get selected suggestion index
    pub fn selected_index(&self) -> (i: usize)
        ensures
            i == self@.selected,
            self@.suggestions.len() > 0 ==> i < self@.suggestions.len(),
    {
        proof {
            use_type_invariant(self);
        }
        self.selected
    }

    /// Get selected suggestion
    pub fn selected_suggestion(&self) -> (s: Option<&Suggestion>)
        ensures
            self@.suggestions.len() > 0 ==> s == Some(&self@.suggestions[self@.selected as int]),
            self@.suggestions.len() == 0 ==> s is None,
    {
        proof {
            use_type_invariant(self);
        }
        if self.selected < self.suggestions.len() {
            Some(&self.suggestions[self.selected])
        } else {
            None
        }
    }

    /// Move selection to next suggestion (cycle)
    pub fn select_next(&mut self)
        ensures
            final(self)@ == (CompletionView {
                selected: spec_next(old(self)@.selected, old(self)@.suggestions.len()),
                ..old(self)@
            }),
    {
        proof {
            use_type_invariant(&*self);
        }
        if self.suggestions.len() == 0 {
            return;
        }
        self.selected = (self.selected + 1) % self.suggestions.len();
    }

    /// Move selection to previous suggestion (cycle)
    pub fn select_prev(&mut self)
        ensures
            final(self)@ == (CompletionView {
                selected: spec_prev(old(self)@.selected, old(self)@.suggestions.len()),
                ..old(self)@
            }),
    {
        proof {
            use_type_invariant(&*self);
        }
        if self.suggestions.len() == 0 {
            return;
        }
        self.selected = if self.selected == 0 {
            self.suggestions.len() - 1
        } else {
            self.selected - 1
        };
    }

    /// Check if input has changed since completion was triggered
    pub fn input_changed(&self, current_input: &str) -> (b: bool)
        ensures
            b == (self@.trigger != current_input@),
    {
        !str_eq(self.trigger_input.as_str(), current_input)
    }

    /// Get number of suggestions
    pub fn count(&self) -> (n: usize)
        ensures
            n == self@.suggestions.len(),
    {
        self.suggestions.len()
    }
}

impl Clone for CompletionState {
    fn clone(&self) -> (c: Self)
        ensures
            c@.suggestions.len() == self@.suggestions.len(),
            c@.selected == self@.selected,
            c@.visible == self@.visible,
            c@.trigger == self@.trigger,
    {
        proof {
            use_type_invariant(self);
        }
        Self {
            suggestions: self.suggestions.clone(),
            selected: self.selected,
            visible: self.visible,
            trigger_input: self.trigger_input.clone(),
        }
    }
}

impl Default for CompletionState {
    fn default() -> (s: Self)
        ensures
            spec_hidden(s@),
    {
        Self::new()
    }
}

/// Moving forward and then back returns to the same suggestion.
pub proof fn lemma_next_then_prev(selected: nat, count: nat)
    requires
        selected < count,
    ensures
        spec_prev(spec_next(selected, count), count) == selected,
        spec_next(spec_prev(selected, count), count) == selected,
{
    if selected + 1 < count {
        vstd::arithmetic::div_mod::lemma_small_mod(selected + 1, count);
    } else {
        vstd::arithmetic::div_mod::lemma_mod_self_0(count as int);
    }
    if selected > 0 {
        vstd::arithmetic::div_mod::lemma_small_mod(selected, count);
    } else {
        vstd::arithmetic::div_mod::lemma_mod_self_0(count as int);
    }
}

/// Navigation always keeps the selection on an existing suggestion.
pub proof fn lemma_navigation_in_range(selected: nat, count: nat)
    requires
        selected < count,
    ensures
        spec_next(selected, count) < count,
        spec_prev(selected, count) < count,
{
    vstd::arithmetic::div_mod::lemma_mod_bound(selected + 1 as int, count as int);
}

/// Moving forward `steps` times lands `steps` places further, cycling; in
/// particular `count` moves return to the starting suggestion.
pub proof fn lemma_next_cycles(selected: nat, count: nat, steps: nat)
    requires
        selected < count,
    ensures
        iterate_next(selected, count, steps) == (selected + steps) % count,
    decreases steps,
{
    if steps > 0 {
        lemma_next_cycles(selected, count, (steps - 1) as nat);
        let a = (selected + steps - 1) as int;
        let c = count as int;
        vstd::arithmetic::div_mod::lemma_add_mod_noop_right(1, a, c);
        vstd::arithmetic::div_mod::lemma_mod_bound(a, c);
    } else {
        vstd::arithmetic::div_mod::lemma_small_mod(selected, count);
    }
}

/// The selection after `steps` forward moves.
pub open spec fn iterate_next(selected: nat, count: nat, steps: nat) -> nat
    decreases steps,
{
    if steps == 0 {
        selected
    } else {
        spec_next(iterate_next(selected, count, (steps - 1) as nat), count)
    }
}

} // verus!
