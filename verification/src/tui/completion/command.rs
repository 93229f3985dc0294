//! Command completion provider
//!
//! Provides autocomplete for slash commands like /help, /provider, /model

use super::{CompletionProvider, Suggestion};
use crate::commands::{CommandInfo, CommandRegistry};
use crate::text;
use crate::text::{chars_of, prefix_len_chars, split_words, str_starts_with};
use std::sync::Arc;
use vstd::prelude::*;

verus! {

/// Command completer - provides suggestions for slash commands
pub struct CommandCompleter {
    /// The commands offered.
    pub registry: Arc<CommandRegistry>,
}

/// `s` begins with a slash.
pub open spec fn starts_with_slash(s: Seq<char>) -> bool {
    s.len() > 0 && s[0] == '/'
}

/// Whether slash-command completion applies: the input starts with `/`, the
/// cursor is past it, and no space lies between the slash and the cursor.
pub open spec fn spec_can_complete(input: Seq<char>, cursor_pos: int) -> bool {
    &&& starts_with_slash(input)
    &&& cursor_pos >= 1
    &&& !text::prefix_upto(input, cursor_pos).skip(1).contains(' ')
}

/// The partial command name: the first word after the slash, up to the cursor.
pub open spec fn spec_partial(input: Seq<char>, cursor_pos: int) -> Option<Seq<char>> {
    if !starts_with_slash(input) {
        None
    } else {
        let ws = text::words(text::prefix_upto(input, cursor_pos).skip(1));
        if ws.len() == 0 {
            None
        } else {
            Some(ws[0])
        }
    }
}

/// The commands of `cs` whose names begin with `partial`, in order.
pub open spec fn matching(cs: Seq<(Seq<char>, Seq<char>)>, partial: Seq<char>) -> Seq<(Seq<char>, Seq<char>)>
    decreases cs.len(),
{
    if cs.len() == 0 {
        seq![]
    } else {
        let rest = matching(cs.drop_last(), partial);
        if text::starts_with(cs.last().0, partial) {
            rest.push(cs.last())
        } else {
            rest
        }
    }
}

/// `out` holds one command suggestion per command in `cs`.
pub open spec fn suggests(out: Seq<Suggestion>, cs: Seq<(Seq<char>, Seq<char>)>) -> bool {
    &&& out.len() == cs.len()
    &&& forall|i: int| 0 <= i < cs.len() ==> super::is_command_suggestion(#[trigger] out[i], cs[i].0, Some(cs[i].1))
}

/// A fresh vector holding `v[lo..hi]`.
pub fn slice_range(v: &[char], lo: usize, hi: usize) -> (r: Vec<char>)
    requires
        lo <= hi <= v@.len(),
    ensures
        r@ == v@.subrange(lo as int, hi as int),
{
    let mut r: Vec<char> = Vec::new();
    let mut i = lo;
    while i < hi
        invariant
            lo <= i <= hi <= v@.len(),
            r@ == v@.subrange(lo as int, i as int),
        decreases hi - i,
    {
        r.push(v[i]);
        i += 1;
        assert(r@ =~= v@.subrange(lo as int, i as int));
    }
    r
}

/// Whether byte offset `pos` lies within the text (`pos <= str::len`).
pub fn within_text(cs: &[char], pos: usize) -> (b: bool)
    ensures
        b == (pos <= text::byte_len(cs@)),
{
    let mut acc: u128 = 0;
    let mut i: usize = 0;
    assert(cs@.take(0) =~= Seq::<char>::empty());
    while i < cs.len()
        invariant
            i <= cs@.len(),
            acc == text::byte_len(cs@.take(i as int)),
        decreases cs.len() - i,
    {
        proof {
            text::lemma_byte_len_take_step(cs@, i as int);
        }
        if acc >= pos as u128 {
            proof {
                text::lemma_byte_len_take_mono(cs@, i as int, cs@.len() as int);
                text::lemma_byte_len_take_all(cs@);
            }
            return true;
        }
        acc = acc + crate::text::utf8_len(cs[i]) as u128;
        i += 1;
    }
    proof {
        text::lemma_byte_len_take_all(cs@);
    }
    acc >= pos as u128
}

impl CommandCompleter {
    /// Create a new command completer with the given registry
    pub fn new(registry: Arc<CommandRegistry>) -> (c: Self)
        ensures
            c.registry() == (*registry)@,
    {
        Self { registry }
    }

    /// Create with owned registry
    pub fn with_registry(registry: CommandRegistry) -> (c: Self)
        ensures
            c.registry() == registry@,
    {
        Self { registry: Arc::new(registry) }
    }

    /// The registered commands.
    pub closed spec fn registry(&self) -> Seq<(Seq<char>, Seq<char>)> {
        (*self.registry)@
    }

    /// Parse the partial command from input: the first word after `/`, up to the cursor.
    pub fn parse_partial(&self, input: &str, cursor_pos: usize) -> (r: Option<String>)
        requires
            text::boundary_or_past(input@, cursor_pos as int),
            starts_with_slash(input@) ==> cursor_pos >= 1,
        ensures
            match r {
                Some(s) => spec_partial(input@, cursor_pos as int) == Some(s@),
                None => spec_partial(input@, cursor_pos as int) is None,
            },
    {
        let cs = chars_of(input);
        if cs.len() == 0 || cs[0] != '/' {
            return None;
        }
        let k = prefix_len_chars(cs.as_slice(), cursor_pos);
        proof {
            if k == 0 {
                assert(cs@.take(0) =~= Seq::<char>::empty());
                text::lemma_byte_len_take_all(cs@);
                text::lemma_byte_len_take_mono(cs@, 0, cs@.len() as int);
                text::lemma_byte_len_take_mono(cs@, 0, 1);
            }
        }
        let after: Vec<char> = slice_range(cs.as_slice(), 1, k);
        assert(after@ =~= text::prefix_upto(input@, cursor_pos as int).skip(1));
        let mut ws = split_words(after.as_slice());
        if ws.len() == 0 {
            None
        } else {
            let w = ws.swap_remove(0);
            Some(w)
        }
    }

    /// Get matching commands from registry: those whose name begins with `partial`.
    pub fn get_matching_commands(&self, partial: &str) -> (r: Vec<CommandInfo>)
        ensures
            crate::commands::command_views(r@) == matching(self.registry(), partial@),
    {
        let all = self.registry.list_commands();
        let mut out: Vec<CommandInfo> = Vec::new();
        let mut i: usize = 0;
        assert(crate::commands::command_views(out@) =~= matching(self.registry().take(0), partial@));
        while i < all.len()
            invariant
                i <= all@.len(),
                crate::commands::command_views(all@) == self.registry(),
                crate::commands::command_views(out@) == matching(self.registry().take(i as int), partial@),
            decreases all.len() - i,
        {
            let ghost t = self.registry().take(i as int + 1);
            assert(t.drop_last() =~= self.registry().take(i as int));
            let ghost prev = out@;
            if str_starts_with(all[i].name.as_str(), partial) {
                out.push(all[i].duplicate());
                assert(crate::commands::command_views(out@) =~= crate::commands::command_views(prev).push(t.last()));
            }
            i += 1;
        }
        assert(self.registry().take(all@.len() as int) =~= self.registry());
        out
    }
}

impl CompletionProvider for CommandCompleter {
    /// Suggestions for the registered commands whose name begins with the
    /// partial command under the cursor; none when slash-command completion
    /// does not apply.
    fn get_suggestions(&self, input: &str, cursor_pos: usize) -> (r: Vec<Suggestion>)
        ensures
            text::boundary_or_past(input@, cursor_pos as int) ==> ({
                if !spec_can_complete(input@, cursor_pos as int) {
                    r@.len() == 0
                } else {
                    match spec_partial(input@, cursor_pos as int) {
                        None => r@.len() == 0,
                        Some(p) => suggests(r@, matching(self.registry(), p)),
                    }
                }
            }),
    {
        let cs = chars_of(input);
        if within_text(cs.as_slice(), cursor_pos) {
            match char_boundary_check(cs.as_slice(), cursor_pos) {
                true => {},
                false => return Vec::new(),
            }
        }
        if !self.can_complete(input, cursor_pos) {
            return Vec::new();
        }
        let partial = match self.parse_partial(input, cursor_pos) {
            Some(p) => p,
            None => return Vec::new(),
        };
        let matches = self.get_matching_commands(partial.as_str());
        let mut out: Vec<Suggestion> = Vec::new();
        let mut i: usize = 0;
        while i < matches.len()
            invariant
                i <= matches@.len(),
                crate::commands::command_views(matches@) == matching(self.registry(), partial@),
                suggests(out@, crate::commands::command_views(matches@).take(i as int)),
            decreases matches.len() - i,
        {
            let ghost prev = out@;
            let s = Suggestion::command(matches[i].name.as_str(), Some(matches[i].description.clone()));
            out.push(s);
            proof {
                let t = crate::commands::command_views(matches@).take(i as int + 1);
                assert forall|j: int| 0 <= j < t.len() implies super::is_command_suggestion(#[trigger] out@[j], t[j].0, Some(t[j].1)) by {
                    if j < i {
                        assert(out@[j] == prev[j]);
                        assert(t[j] == crate::commands::command_views(matches@).take(i as int)[j]);
                    }
                }
            }
            i += 1;
        }
        assert(crate::commands::command_views(matches@).take(matches@.len() as int) =~= crate::commands::command_views(matches@));
        out
    }

    /// Completion applies when the input starts with `/`, the cursor is past
    /// it, and no space lies between the slash and the cursor.
    fn can_complete(&self, input: &str, cursor_pos: usize) -> (b: bool)
        ensures
            text::boundary_or_past(input@, cursor_pos as int) ==> b == spec_can_complete(input@, cursor_pos as int),
            b ==> starts_with_slash(input@) && cursor_pos >= 1,
    {
        let cs = chars_of(input);
        if cs.len() == 0 || cs[0] != '/' {
            return false;
        }
        if cursor_pos < 1 {
            return false;
        }
        if within_text(cs.as_slice(), cursor_pos) && !char_boundary_check(cs.as_slice(), cursor_pos) {
            return false;
        }
        let k = prefix_len_chars(cs.as_slice(), cursor_pos);
        assert(k >= 1) by {
            if k == 0 {
                assert(cs@.take(0) =~= Seq::<char>::empty());
                text::lemma_byte_len_take_all(cs@);
                text::lemma_byte_len_take_mono(cs@, 0, cs@.len() as int);
            }
        }
        let mut i: usize = 1;
        while i < k
            invariant
                1 <= i <= k <= cs@.len(),
                cs@ == input@,
                text::prefix_upto(input@, cursor_pos as int) == cs@.take(k as int),
                forall|j: int| 1 <= j < i ==> cs@[j] != ' ',
            decreases k - i,
        {
            if cs[i] == ' ' {
                assert(text::prefix_upto(input@, cursor_pos as int).skip(1)[i - 1] == ' ');
                return false;
            }
            i += 1;
        }
        assert forall|j: int| 0 <= j < text::prefix_upto(input@, cursor_pos as int).skip(1).len()
            implies text::prefix_upto(input@, cursor_pos as int).skip(1)[j] != ' ' by {
            assert(text::prefix_upto(input@, cursor_pos as int).skip(1)[j] == cs@[j + 1]);
        }
        true
    }
}

/// Whether `pos` is a character boundary (`str::is_char_boundary`).
pub fn char_boundary_check(cs: &[char], pos: usize) -> (b: bool)
    ensures
        b == text::is_boundary(cs@, pos as int),
{
    match crate::text::char_index_at_byte(cs, pos) {
        Some(i) => {
            assert(text::byte_len(cs@.take(i as int)) == pos);
            true
        },
        None => false,
    }
}

} // verus!
