//! Conversation messages and the events a streaming response delivers.

use vstd::prelude::*;

verus! {

/// A block of message content.
#[derive(Debug, Clone)]
pub enum ContentBlock {
    /// Plain text.
    Text { text: String },
}

impl ContentBlock {
    /// A text block.
    pub fn text(text: String) -> (b: Self)
        ensures
            b == (ContentBlock::Text { text }),
    {
        ContentBlock::Text { text }
    }
}

/// A conversation message: who said it and what.
#[derive(Debug, Clone)]
pub struct Message {
    /// `user` or `assistant`.
    pub role: String,
    /// The message content.
    pub content: Vec<ContentBlock>,
}

/// The role of the assistant's messages.
pub open spec fn assistant_role() -> Seq<char> {
    "assistant"@
}

/// The role of the user's messages.
pub open spec fn user_role() -> Seq<char> {
    "user"@
}

/// `m` is a message from `role` holding the single text block `t`.
pub open spec fn is_text_message(m: Message, role: Seq<char>, t: Seq<char>) -> bool {
    &&& m.role@ == role
    &&& m.content@.len() == 1
    &&& m.content@[0] matches ContentBlock::Text { text } && text@ == t
}

impl Message {
    /// A user message with the given text.
    pub fn user(text: String) -> (m: Self)
        ensures
            is_text_message(m, user_role(), text@),
    {
        Self { role: "user".to_owned(), content: vec![ContentBlock::text(text)] }
    }

    /// An assistant message with the given text.
    pub fn assistant(text: String) -> (m: Self)
        ensures
            is_text_message(m, assistant_role(), text@),
    {
        Self { role: "assistant".to_owned(), content: vec![ContentBlock::text(text)] }
    }

    /// Whether the message is the assistant's.
    pub fn is_assistant(&self) -> (b: bool)
        ensures
            b == (self.role@ == assistant_role()),
    {
        crate::text::str_eq(self.role.as_str(), "assistant")
    }
}

/// An event of a streaming response.
#[derive(Debug, Clone)]
pub enum StreamEvent {
    /// More response text.
    TextDelta(String),
    /// The response is complete.
    Done,
    /// The response failed, with a readable explanation.
    Error(String),
    /// A tool call begins.
    ToolCallStart { id: String, name: String },
    /// More of a tool call's arguments.
    ToolCallDelta { id: String, arguments: String },
    /// A tool call's arguments are complete.
    ToolCallComplete { id: String, name: String, arguments: String },
}

impl StreamEvent {
    /// Whether this is response text.
    pub fn is_text(&self) -> (b: bool)
        ensures
            b == (*self is TextDelta),
    {
        matches!(self, StreamEvent::TextDelta(_))
    }

    /// Whether this is a failure.
    pub fn is_error(&self) -> (b: bool)
        ensures
            b == (*self is Error),
    {
        matches!(self, StreamEvent::Error(_))
    }

    /// Whether this ends the response.
    pub fn is_done(&self) -> (b: bool)
        ensures
            b == (*self is Done),
    {
        matches!(self, StreamEvent::Done)
    }

    /// The text of a text event.
    pub fn text(&self) -> (t: Option<&str>)
        ensures
            match *self {
                StreamEvent::TextDelta(s) => t matches Some(r) && r@ == s@,
                _ => t is None,
            },
    {
        match self {
            StreamEvent::TextDelta(s) => Some(s.as_str()),
            _ => None,
        }
    }

    /// The explanation of a failure event.
    pub fn error_message(&self) -> (m: Option<&str>)
        ensures
            match *self {
                StreamEvent::Error(s) => m matches Some(r) && r@ == s@,
                _ => m is None,
            },
    {
        match self {
            StreamEvent::Error(s) => Some(s.as_str()),
            _ => None,
        }
    }
}

} // verus!
