//! The table of built-in slash commands that completion draws from.

use crate::provider::Message;
use crate::text;
use vstd::prelude::*;

verus! {

/// Name and one-line description of a slash command.
#[derive(Debug, Clone)]
pub struct CommandInfo {
    /// Command name, without the leading `/`.
    pub name: String,
    /// One-line description shown in completion.
    pub description: String,
}

/// Registry of slash commands.
#[derive(Debug, Clone)]
pub struct CommandRegistry {
    commands: Vec<CommandInfo>,
}

/// The (name, description) pairs of a command list.
pub open spec fn command_views(cs: Seq<CommandInfo>) -> Seq<(Seq<char>, Seq<char>)> {
    cs.map_values(|c: CommandInfo| (c.name@, c.description@))
}

impl View for CommandRegistry {
    /// The registered (name, description) pairs, in listing order.
    type V = Seq<(Seq<char>, Seq<char>)>;

    closed spec fn view(&self) -> Seq<(Seq<char>, Seq<char>)> {
        command_views(self.commands@)
    }
}

impl CommandInfo {
    /// A copy of this entry.
    pub fn duplicate(&self) -> (c: Self)
        ensures
            c.name@ == self.name@,
            c.description@ == self.description@,
    {
        CommandInfo { name: self.name.clone(), description: self.description.clone() }
    }
}

fn info(name: &str, description: &str) -> (c: CommandInfo)
    ensures
        c.name@ == name@,
        c.description@ == description@,
{
    CommandInfo { name: name.to_owned(), description: description.to_owned() }
}

/// The built-in commands: (name, description), in listing order.
pub open spec fn builtin_commands() -> Seq<(Seq<char>, Seq<char>)> {
    seq![
        ("help"@, "Show available commands"@),
        ("clear"@, "Clear message history"@),
        ("provider"@, "Switch LLM provider"@),
        ("model"@, "Switch model"@),
        ("status"@, "Show current status"@),
        ("session"@, "Manage sessions"@),
    ]
}

impl CommandRegistry {
    /// The registry of built-in commands.
    pub fn new() -> (r: Self)
        ensures
            r@ == builtin_commands(),
    {
        let mut commands: Vec<CommandInfo> = Vec::new();
        commands.push(info("help", "Show available commands"));
        commands.push(info("clear", "Clear message history"));
        commands.push(info("provider", "Switch LLM provider"));
        commands.push(info("model", "Switch model"));
        commands.push(info("status", "Show current status"));
        commands.push(info("session", "Manage sessions"));
        let r = Self { commands };
        assert(r@ =~= builtin_commands());
        r
    }

    /// A registry holding exactly the given commands.
    pub fn from_commands(commands: Vec<CommandInfo>) -> (r: Self)
        ensures
            r@ == command_views(commands@),
    {
        Self { commands }
    }

    /// The registered commands, in listing order.
    pub fn list_commands(&self) -> (cs: &[CommandInfo])
        ensures
            command_views(cs@) == self@,
    {
        self.commands.as_slice()
    }

    /// Whether the input is a slash command: it starts with `/`.
    pub fn is_command(input: &str) -> (b: bool)
        ensures
            b == (input@.len() > 0 && input@[0] == '/'),
    {
        let cs = text::chars_of(input);
        cs.len() > 0 && cs[0] == '/'
    }

    /// Split a slash command into its name and arguments: the
    /// whitespace-separated words after the `/`. `None` when the input is
    /// not a command or names none.
    pub fn parse_input(input: &str) -> (r: Option<(String, Vec<String>)>)
        ensures
            match parsed_command(input@) {
                Some((name, args)) => r matches Some((n, a)) && n@ == name && text::views(a@) == args,
                None => r is None,
            },
    {
        let cs = text::chars_of(input);
        if cs.len() == 0 || cs[0] != '/' {
            return None;
        }
        let rest = text::string_from_range(cs.as_slice(), 1, cs.len());
        let rest_cs = text::chars_of(rest.as_str());
        let mut words = text::split_words(rest_cs.as_slice());
        if words.len() == 0 {
            return None;
        }
        let ghost all = text::views(words@);
        let name = words.remove(0);
        assert(text::views(words@) =~= all.drop_first());
        Some((name, words))
    }
}

/// A slash command's name and arguments: the words after the leading `/`,
/// if the input starts with one and has any.
pub open spec fn parsed_command(input: Seq<char>) -> Option<(Seq<char>, Seq<Seq<char>>)> {
    if input.len() > 0 && input[0] == '/' && text::words(input.skip(1)).len() > 0 {
        let ws = text::words(input.skip(1));
        Some((ws[0], ws.drop_first()))
    } else {
        None
    }
}

/// What a command needs of the session: the active provider's name and the
/// conversation so far.
#[derive(Debug, Clone)]
pub struct CommandContext {
    /// Name of the active provider.
    pub current_provider_name: String,
    /// The conversation, as last handed to the commands.
    pub messages: Vec<Message>,
}

/// The outcome of running a slash command.
#[derive(Debug, Clone)]
pub struct CommandResult {
    /// Text shown to the user.
    pub output: String,
    /// Whether the conversation is to be cleared.
    pub clear_history: bool,
    /// Whether the active provider changed.
    pub provider_changed: bool,
}

} // verus!
