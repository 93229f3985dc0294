//! Emacs-style kill ring: consecutive kills accumulate into the most recent
//! entry until the user does something else; yank-pop cycles through older
//! kills.

use crate::text;
use vstd::prelude::*;

verus! {

/// Kill direction for accumulation
pub enum KillDirection {
    /// Killed text goes before the accumulated entry (backward kills).
    Prepend,
    /// Killed text goes after the accumulated entry (forward kills).
    Append,
}

/// Yank state tracking
struct YankState {
    last_start: usize,
    last_length: usize,
    was_yank: bool,
    index: usize,
}

impl YankState {
    fn fresh() -> (y: Self)
        ensures
            y.last_start == 0,
            y.last_length == 0,
            !y.was_yank,
            y.index == 0,
    {
        Self { last_start: 0, last_length: 0, was_yank: false, index: 0 }
    }
}

/// Kill Ring - Emacs style clipboard history
///
/// Consecutive kills accumulate in the kill ring until the user types some
/// other key. Alt+Y cycles through previous kills after a yank.
pub struct KillRing {
    items: Vec<String>,
    max_size: usize,
    last_was_kill: bool,
    yank_state: YankState,
}

/// Abstract state of a kill ring.
pub struct KillRingView {
    /// The entries, most recent first.
    pub items: Seq<Seq<char>>,
    /// The most entries kept.
    pub max_size: nat,
    /// The last operation was a kill, so the next one accumulates.
    pub last_was_kill: bool,
    /// Where the last yank inserted its text.
    pub yank_start: nat,
    /// How long the last yanked text was.
    pub yank_length: nat,
    /// The last operation was a yank, so yank-pop is possible.
    pub was_yank: bool,
    /// The entry the last yank or yank-pop gave.
    pub yank_index: nat,
}

impl View for KillRing {
    type V = KillRingView;

    closed spec fn view(&self) -> KillRingView {
        KillRingView {
            items: text::views(self.items@),
            max_size: self.max_size as nat,
            last_was_kill: self.last_was_kill,
            yank_start: self.yank_state.last_start as nat,
            yank_length: self.yank_state.last_length as nat,
            was_yank: self.yank_state.was_yank,
            yank_index: self.yank_state.index as nat,
        }
    }
}

/// The ring after killing `t` in direction `d`.
pub open spec fn spec_push(r: KillRingView, t: Seq<char>, d: KillDirection) -> KillRingView {
    if t.len() == 0 {
        r
    } else if r.last_was_kill && r.items.len() > 0 {
        KillRingView {
            items: r.items.update(
                0,
                match d {
                    KillDirection::Prepend => t + r.items[0],
                    KillDirection::Append => r.items[0] + t,
                },
            ),
            last_was_kill: true,
            was_yank: false,
            ..r
        }
    } else {
        let ins = seq![t] + r.items;
        KillRingView {
            items: if ins.len() > r.max_size {
                ins.drop_last()
            } else {
                ins
            },
            last_was_kill: true,
            was_yank: false,
            ..r
        }
    }
}

/// The most recent entry, if any.
pub open spec fn spec_last(r: KillRingView) -> Option<Seq<char>> {
    if r.items.len() == 0 {
        None
    } else {
        Some(r.items[0])
    }
}

/// The entry at `index`, counted cyclically from the most recent; none when
/// the ring is empty.
pub open spec fn spec_item(r: KillRingView, index: nat) -> Option<Seq<char>> {
    if r.items.len() == 0 {
        None
    } else {
        Some(r.items[(index % r.items.len()) as int])
    }
}

/// Yank-pop is possible: the last operation was a yank and there is more
/// than one entry.
pub open spec fn spec_can_yank_pop(r: KillRingView) -> bool {
    r.was_yank && r.items.len() > 1
}

/// The entry index that the next yank-pop selects.
pub open spec fn next_yank_index(r: KillRingView) -> nat {
    (r.yank_index + 1) % r.items.len()
}

impl KillRing {
    #[verifier::type_invariant]
    spec fn inv(self) -> bool {
        &&& self.items@.len() <= self.max_size
        &&& (self.yank_state.index == 0 || self.yank_state.index < self.items@.len())
    }

    /// Create a new kill ring with max size
    pub fn new(max_size: usize) -> (r: Self)
        ensures
            r@.items == Seq::<Seq<char>>::empty(),
            r@.max_size == max_size,
            !r@.last_was_kill,
            !r@.was_yank,
            r@.yank_start == 0,
            r@.yank_length == 0,
            r@.yank_index == 0,
    {
        let r = Self { items: Vec::new(), max_size, last_was_kill: false, yank_state: YankState::fresh() };
        assert(r@.items =~= Seq::<Seq<char>>::empty());
        r
    }

    /// Push text to kill ring
    pub fn push(&mut self, text: String, direction: KillDirection)
        ensures
            final(self)@ == spec_push(old(self)@, text@, direction),
    {
        proof {
            use_type_invariant(&*self);
        }
        if text.as_str().is_empty() {
            return ;
        }
        let ghost old_items = self@.items;
        let mut items = text::copy_strings(&self.items);
        if self.last_was_kill && items.len() > 0 {
            let first = items[0].clone();
            let joined = match direction {
                KillDirection::Prepend => {
                    let mut s = text;
                    text::push_str(&mut s, first.as_str());
                    s
                },
                KillDirection::Append => {
                    let mut s = first;
                    text::push_str(&mut s, text.as_str());
                    s
                },
            };
            items.set(0, joined);
            assert(text::views(items@) =~= old_items.update(0, joined@));
        } else {
            items.insert(0, text);
            assert(text::views(items@) =~= seq![text@] + old_items);
            if items.len() > self.max_size {
                let _ = items.pop();
                assert(text::views(items@) =~= (seq![text@] + old_items).drop_last());
            }
        }
        *self = KillRing {
            items,
            max_size: self.max_size,
            last_was_kill: true,
            yank_state: YankState {
                last_start: self.yank_state.last_start,
                last_length: self.yank_state.last_length,
                was_yank: false,
                index: self.yank_state.index,
            },
        };
    }

    /// Get the last killed text
    pub fn get_last(&self) -> (r: Option<&String>)
        ensures
            self@.items.len() == 0 ==> r is None,
            self@.items.len() > 0 ==> (r is Some && r->0@ == self@.items[0]),
            r matches Some(t) ==> spec_last(self@) == Some(t@),
            r is None ==> spec_last(self@) is None,
    {
        if self.items.len() > 0 {
            Some(&self.items[0])
        } else {
            None
        }
    }

    /// Get kill ring item at index, counted cyclically.
    pub fn get_item(&self, index: usize) -> (r: Option<&String>)
        ensures
            self@.items.len() == 0 ==> r is None,
            self@.items.len() > 0 ==> (r is Some && r->0@ == self@.items[index as int % self@.items.len() as int]),
            r matches Some(t) ==> spec_item(self@, index as nat) == Some(t@),
            r is None ==> spec_item(self@, index as nat) is None,
    {
        let len = self.items.len();
        if len == 0 {
            return None;
        }
        Some(&self.items[index % len])
    }

    /// Get kill ring size
    pub fn size(&self) -> (n: usize)
        ensures
            n == self@.items.len(),
            n <= self@.max_size,
    {
        proof {
            use_type_invariant(self);
        }
        self.items.len()
    }

    /// Reset kill accumulation
    pub fn reset_accumulation(&mut self)
        ensures
            final(self)@ == (KillRingView { last_was_kill: false, ..old(self)@ }),
    {
        proof {
            use_type_invariant(&*self);
        }
        self.last_was_kill = false;
    }

    /// Record a yank operation
    pub fn record_yank(&mut self, start: usize, length: usize)
        ensures
            final(self)@ == (KillRingView {
                yank_start: start as nat,
                yank_length: length as nat,
                was_yank: true,
                yank_index: 0,
                ..old(self)@
            }),
    {
        proof {
            use_type_invariant(&*self);
        }
        self.yank_state.last_start = start;
        self.yank_state.last_length = length;
        self.yank_state.was_yank = true;
        self.yank_state.index = 0;
    }

    /// Check if yank-pop is available
    pub fn can_yank_pop(&self) -> (b: bool)
        ensures
            b == spec_can_yank_pop(self@),
    {
        self.yank_state.was_yank && self.items.len() > 1
    }

    /// Yank-pop: cycle to next kill ring item
    pub fn yank_pop(&mut self) -> (r: Option<(String, usize, usize)>)
        ensures
            !spec_can_yank_pop(old(self)@) ==> r is None && final(self)@ == old(self)@,
            spec_can_yank_pop(old(self)@) ==> {
                &&& final(self)@ == (KillRingView { yank_index: next_yank_index(old(self)@), ..old(self)@ })
                &&& r matches Some((t, start, length))
                &&& t@ == old(self)@.items[next_yank_index(old(self)@) as int]
                &&& start == old(self)@.yank_start
                &&& length == old(self)@.yank_length
            },
    {
        proof {
            use_type_invariant(&*self);
        }
        if !self.yank_state.was_yank || self.items.len() <= 1 {
            return None;
        }
        self.yank_state.index = (self.yank_state.index + 1) % self.items.len();
        let text = self.items[self.yank_state.index].clone();
        Some((text, self.yank_state.last_start, self.yank_state.last_length))
    }

    /// Update yank length after replacement
    pub fn update_yank_length(&mut self, length: usize)
        ensures
            final(self)@ == (KillRingView { yank_length: length as nat, ..old(self)@ }),
    {
        proof {
            use_type_invariant(&*self);
        }
        self.yank_state.last_length = length;
    }

    /// Reset yank state
    pub fn reset_yank_state(&mut self)
        ensures
            final(self)@ == (KillRingView { was_yank: false, ..old(self)@ }),
    {
        proof {
            use_type_invariant(&*self);
        }
        self.yank_state.was_yank = false;
    }

    /// Clear the kill ring
    pub fn clear(&mut self)
        ensures
            final(self)@ == (KillRingView {
                items: Seq::<Seq<char>>::empty(),
                last_was_kill: false,
                yank_start: 0,
                yank_length: 0,
                was_yank: false,
                yank_index: 0,
                ..old(self)@
            }),
    {
        proof {
            use_type_invariant(&*self);
        }
        self.yank_state = YankState::fresh();
        self.items = Vec::new();
        self.last_was_kill = false;
        assert(self@.items =~= Seq::<Seq<char>>::empty());
    }
}

} // verus!

verus! {

/// Consecutive kills accumulate: a kill right after another joins the most
/// recent entry (appended at its end, or prepended at its front) instead of
/// adding an entry.
pub proof fn lemma_kills_accumulate(r: KillRingView, a: Seq<char>, b: Seq<char>, d: KillDirection)
    requires
        a.len() > 0,
        b.len() > 0,
        r.max_size > 0,
    ensures
        spec_push(spec_push(r, a, d), b, KillDirection::Append).items == spec_push(r, a, d).items.update(
            0,
            spec_push(r, a, d).items[0] + b,
        ),
        spec_push(spec_push(r, a, d), b, KillDirection::Prepend).items == spec_push(r, a, d).items.update(
            0,
            b + spec_push(r, a, d).items[0],
        ),
{
}

/// After the accumulation is reset, a kill starts a new most recent entry;
/// the ring keeps at most `max_size` entries, dropping the oldest.
pub proof fn lemma_kill_after_reset(r: KillRingView, t: Seq<char>, d: KillDirection)
    requires
        t.len() > 0,
        r.max_size > 0,
        r.items.len() <= r.max_size,
        !r.last_was_kill,
    ensures
        spec_push(r, t, d).items[0] == t,
        spec_push(r, t, d).items.len() == if r.items.len() < r.max_size {
            r.items.len() + 1
        } else {
            r.max_size
        },
        forall|i: int|
            1 <= i < spec_push(r, t, d).items.len() ==> #[trigger] spec_push(r, t, d).items[i] == r.items[i - 1],
{
}

/// Yank-pop always selects an existing entry.
pub proof fn lemma_yank_pop_in_range(r: KillRingView)
    requires
        spec_can_yank_pop(r),
    ensures
        next_yank_index(r) < r.items.len(),
{
}


/// Looking up an entry by index counts around the ring: there is an entry
/// exactly when the ring is not empty, index 0 is the most recent entry, and
/// an index and that index plus the ring's size (or modulo it) give the same
/// entry.
pub proof fn lemma_get_item_cycles(r: KillRingView, index: nat)
    ensures
        (r.items.len() == 0) == (spec_item(r, index) is None),
        spec_item(r, 0) == spec_last(r),
        r.items.len() > 0 ==> spec_item(r, index) == spec_item(r, index % r.items.len()),
        spec_item(r, index + r.items.len()) == spec_item(r, index),
{
    let n = r.items.len();
    if n > 0 {
        vstd::arithmetic::div_mod::lemma_mod_twice(index as int, n as int);
        vstd::arithmetic::div_mod::lemma_mod_add_multiples_vanish(index as int, n as int);
        assert(0nat % n == 0);
    }
}

} // verus!
