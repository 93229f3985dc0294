//! Streaming state with adaptive chunking for live transcript updates.
//!
//! - Streaming text is split into lines and queued.
//! - Two-gear pacing: Smooth (normal) vs CatchUp (backlog draining).
//! - Thinking blocks bypass the newline gate for live display.

use crate::text;
use crate::text::{chars_of, join_strings, non_empty_lines, push_str, string_from_range};
use crate::time::instant_now;
use std::time::Instant;
use vstd::prelude::*;

verus! {

/// Chunking mode for adaptive pacing.
#[derive(Debug, Clone, Copy, PartialEq, Eq, Structural)]
pub enum ChunkingMode {
    /// Normal streaming: drip one line at a time.
    Smooth,
    /// Backlog draining: emit multiple lines to catch up.
    CatchUp,
}

/// Queue length above which the policy switches to catch-up.
pub const CATCH_UP_THRESHOLD: usize = 5;

/// Most lines emitted by one catch-up tick.
pub const CATCH_UP_BURST: usize = 5;

/// Adaptive chunking policy that switches between modes.
#[derive(Debug)]
pub struct AdaptiveChunkingPolicy {
    /// Stored mode (overridden by `low_motion`).
    pub mode: ChunkingMode,
    /// Low motion flag prevents CatchUp bursts.
    low_motion: bool,
    /// Time of the last queue update.
    last_chunk_at: Option<Instant>,
}

impl View for AdaptiveChunkingPolicy {
    /// The stored mode and the low-motion flag.
    type V = (ChunkingMode, bool);

    closed spec fn view(&self) -> (ChunkingMode, bool) {
        (self.mode, self.low_motion)
    }
}

/// The mode a policy in state `p` acts in.
pub open spec fn spec_effective_mode(p: (ChunkingMode, bool)) -> ChunkingMode {
    if p.1 {
        ChunkingMode::Smooth
    } else {
        p.0
    }
}

/// Lines emitted per tick in `mode` with `queued` lines waiting.
pub open spec fn spec_lines_per_tick(mode: ChunkingMode, queued: usize) -> usize {
    match mode {
        ChunkingMode::Smooth => if queued > 0 { 1 } else { 0 },
        ChunkingMode::CatchUp => if queued < CATCH_UP_BURST { queued } else { CATCH_UP_BURST },
    }
}

/// The stored mode after observing a queue of `queued` lines.
pub open spec fn spec_mode_after_queue(p: (ChunkingMode, bool), queued: usize) -> ChunkingMode {
    if queued == 0 {
        ChunkingMode::Smooth
    } else if queued > CATCH_UP_THRESHOLD && !p.1 {
        ChunkingMode::CatchUp
    } else {
        p.0
    }
}

impl AdaptiveChunkingPolicy {
    /// Create a new policy in Smooth mode.
    pub fn new() -> (p: Self)
        ensures
            p@ == (ChunkingMode::Smooth, false),
    {
        Self { mode: ChunkingMode::Smooth, low_motion: false, last_chunk_at: None }
    }

    /// Get current chunking mode.
    #[must_use]
    pub fn mode(&self) -> (m: ChunkingMode)
        ensures
            m == spec_effective_mode(self@),
    {
        if self.low_motion {
            ChunkingMode::Smooth
        } else {
            self.mode
        }
    }

    /// Set low motion flag (prevents CatchUp bursts).
    pub fn set_low_motion(&mut self, low_motion: bool)
        ensures
            final(self)@ == (old(self)@.0, low_motion),
    {
        self.low_motion = low_motion;
    }

    /// Update mode based on queue pressure.
    pub fn update_for_queue(&mut self, queued_lines: usize, now: Instant)
        ensures
            final(self)@ == (spec_mode_after_queue(old(self)@, queued_lines), old(self)@.1),
    {
        if queued_lines > CATCH_UP_THRESHOLD && !self.low_motion {
            self.mode = ChunkingMode::CatchUp;
        }
        if queued_lines == 0 {
            self.mode = ChunkingMode::Smooth;
        }
        self.last_chunk_at = Some(now);
    }

    /// How many lines to emit this tick.
    #[must_use]
    pub fn lines_per_tick(&self, queued_lines: usize) -> (n: usize)
        ensures
            n == spec_lines_per_tick(spec_effective_mode(self@), queued_lines),
    {
        match self.mode() {
            ChunkingMode::Smooth => if queued_lines > 0 { 1 } else { 0 },
            ChunkingMode::CatchUp => if queued_lines < CATCH_UP_BURST { queued_lines } else { CATCH_UP_BURST },
        }
    }
}

impl Default for AdaptiveChunkingPolicy {
    fn default() -> (p: Self)
        ensures
            p@ == (ChunkingMode::Smooth, false),
    {
        Self::new()
    }
}

/// Stream chunker that holds queued lines.
#[derive(Debug)]
pub struct StreamChunker {
    /// Queued lines waiting to be committed.
    queue: Vec<String>,
}

impl View for StreamChunker {
    /// The queued lines.
    type V = Seq<Seq<char>>;

    closed spec fn view(&self) -> Seq<Seq<char>> {
        text::views(self.queue@)
    }
}

/// The lines that a delta adds to the queue: its non-empty lines.
pub open spec fn spec_delta_lines(delta: Seq<char>) -> Seq<Seq<char>> {
    text::non_empty(text::lines_of(delta))
}

/// A newline, as a one-character sequence.
pub open spec fn nl() -> Seq<char> {
    seq!['\n']
}

impl StreamChunker {
    /// Create a new empty chunker.
    pub fn new() -> (c: Self)
        ensures
            c@ == Seq::<Seq<char>>::empty(),
    {
        let c = Self { queue: Vec::new() };
        assert(c@ =~= Seq::<Seq<char>>::empty());
        c
    }

    /// Push a delta string into the queue: each non-empty line is queued.
    pub fn push_delta(&mut self, delta: &str)
        ensures
            final(self)@ == old(self)@ + spec_delta_lines(delta@),
    {
        let lines = non_empty_lines(delta);
        let mut i: usize = 0;
        while i < lines.len()
            invariant
                i <= lines@.len(),
                text::views(lines@) == spec_delta_lines(delta@),
                self@ == old(self)@ + text::views(lines@).take(i as int),
            decreases lines.len() - i,
        {
            let ghost prev = self.queue@;
            self.queue.push(lines[i].clone());
            assert(text::views(self.queue@) =~= text::views(prev).push(lines@[i as int]@));
            assert(text::views(lines@).take(i as int + 1) =~= text::views(lines@).take(i as int).push(
                lines@[i as int]@,
            ));
            i += 1;
        }
        assert(text::views(lines@).take(lines.len() as int) =~= text::views(lines@));
    }

    /// Get number of queued lines.
    #[must_use]
    pub fn queued_lines(&self) -> (n: usize)
        ensures
            n == self@.len(),
    {
        self.queue.len()
    }

    /// Drain the queue, returning up to `count` lines from its front.
    pub fn drain(&mut self, count: usize) -> (taken: Vec<String>)
        ensures
            ({
                let k = if count < old(self)@.len() { count as int } else { old(self)@.len() as int };
                &&& text::views(taken@) == old(self)@.take(k)
                &&& final(self)@ == old(self)@.skip(k)
            }),
    {
        let to_take = if count < self.queue.len() { count } else { self.queue.len() };
        let ghost old_q = self.queue@;
        let mut rest = self.queue.split_off(to_take);
        std::mem::swap(&mut self.queue, &mut rest);
        assert(text::views(rest@) =~= text::views(old_q).take(to_take as int));
        assert(text::views(self.queue@) =~= text::views(old_q).skip(to_take as int));
        rest
    }

    /// Drain all remaining lines, joined by newlines.
    pub fn drain_remaining(&mut self) -> (remaining: String)
        ensures
            remaining@ == text::join(old(self)@, nl()),
            final(self)@ == Seq::<Seq<char>>::empty(),
    {
        proof {
            reveal_strlit("\n");
        }
        let remaining = join_strings(self.queue.as_slice(), "\n");
        assert("\n"@ =~= nl());
        self.queue.clear();
        assert(self@ =~= Seq::<Seq<char>>::empty());
        remaining
    }

    /// Check if queue is empty.
    #[must_use]
    pub fn is_empty(&self) -> (b: bool)
        ensures
            b == (self@.len() == 0),
    {
        self.queue.is_empty()
    }
}

impl Default for StreamChunker {
    fn default() -> (c: Self)
        ensures
            c@ == Seq::<Seq<char>>::empty(),
    {
        Self::new()
    }
}

/// Line buffer for newline gating.
///
/// Holds back trailing partial-line text between deltas.
#[derive(Debug)]
pub struct LineBuffer {
    /// Buffered content.
    buffer: String,
}

impl View for LineBuffer {
    /// The buffered characters.
    type V = Seq<char>;

    closed spec fn view(&self) -> Seq<char> {
        self.buffer@
    }
}

impl LineBuffer {
    /// Create a new empty buffer.
    pub fn new() -> (b: Self)
        ensures
            b@ == Seq::<char>::empty(),
    {
        Self { buffer: String::new() }
    }

    /// Push content to buffer.
    pub fn push(&mut self, content: &str)
        ensures
            final(self)@ == old(self)@ + content@,
    {
        push_str(&mut self.buffer, content);
    }

    /// Take committable content: everything up to and including the last
    /// newline. Without a newline nothing is taken.
    pub fn take_committable(&mut self) -> (c: String)
        ensures
            ({
                let k = text::last_nl(old(self)@);
                &&& c@ == old(self)@.take(k + 1)
                &&& final(self)@ == old(self)@.skip(k + 1)
            }),
    {
        let cs = chars_of(self.buffer.as_str());
        proof {
            text::lemma_last_nl_bounds(cs@);
        }
        let mut i: usize = cs.len();
        assert(cs@.take(cs@.len() as int) =~= cs@);
        while i > 0
            invariant
                i <= cs@.len(),
                cs@ == self.buffer@,
                old(self)@ == cs@,
                text::last_nl(cs@) == text::last_nl(cs@.take(i as int)),
            decreases i,
        {
            if cs[i - 1] == '\n' {
                let committable = string_from_range(cs.as_slice(), 0, i);
                let rest = string_from_range(cs.as_slice(), i, cs.len());
                proof {
                    let t = cs@.take(i as int);
                    assert(t.last() == '\n');
                    assert(text::last_nl(t) == i - 1);
                    assert(cs@.subrange(0, i as int) =~= cs@.take(i as int));
                    assert(cs@.subrange(i as int, cs@.len() as int) =~= cs@.skip(i as int));
                }
                self.buffer = rest;
                assert(committable@ == old(self)@.take(i as int));
                assert(self@ == old(self)@.skip(i as int));
                assert(text::last_nl(old(self)@) == i - 1);
                return committable;
            }
            proof {
                assert(cs@.take(i as int).drop_last() =~= cs@.take(i - 1));
            }
            i -= 1;
        }
        assert(cs@.take(0) =~= Seq::<char>::empty());
        assert(cs@.skip(0) =~= cs@);
        assert(cs@.take(0) =~= Seq::<char>::empty());
        String::new()
    }

    /// Flush remaining buffer content.
    pub fn flush(&mut self) -> (r: String)
        ensures
            r@ == old(self)@,
            final(self)@ == Seq::<char>::empty(),
    {
        let remaining = self.buffer.clone();
        self.buffer = String::new();
        remaining
    }

    /// Check if buffer is empty.
    #[must_use]
    pub fn is_empty(&self) -> (b: bool)
        ensures
            b == (self@.len() == 0),
    {
        self.buffer.as_str().is_empty()
    }
}

impl Default for LineBuffer {
    fn default() -> (b: Self)
        ensures
            b@ == Seq::<char>::empty(),
    {
        Self::new()
    }
}

/// Result of a commit tick.
#[derive(Debug)]
pub struct CommitResult {
    /// Text committed this tick.
    pub committed_text: String,
    /// Mode used for this tick.
    pub mode: ChunkingMode,
}

/// Run one commit tick: update the policy for the current queue, then
/// drain as many lines as the policy allows and join them with newlines.
pub fn run_commit_tick(
    policy: &mut AdaptiveChunkingPolicy,
    chunker: &mut StreamChunker,
    now: Instant,
) -> (r: CommitResult)
    ensures
        ({
            let q = old(chunker)@;
            let p = (spec_mode_after_queue(old(policy)@, q.len() as usize), old(policy)@.1);
            let n = spec_lines_per_tick(spec_effective_mode(p), q.len() as usize);
            &&& final(policy)@ == p
            &&& final(chunker)@ == q.skip(n as int)
            &&& r.committed_text@ == text::join(q.take(n as int), nl())
            &&& r.mode == spec_effective_mode(p)
        }),
{
    let queued = chunker.queued_lines();
    policy.update_for_queue(queued, now);
    let lines_to_emit = policy.lines_per_tick(queued);
    let lines = chunker.drain(lines_to_emit);
    let committed_text = if lines.len() == 0 {
        String::new()
    } else {
        proof {
            reveal_strlit("\n");
        }
        let t = join_strings(lines.as_slice(), "\n");
        assert("\n"@ =~= nl());
        t
    };
    assert(lines_to_emit <= queued);
    if lines.len() == 0 {
        assert(text::views(lines@) =~= Seq::<Seq<char>>::empty());
    }
    CommitResult { committed_text, mode: policy.mode() }
}

/// Per-block streaming state.
#[derive(Debug)]
pub struct BlockState {
    /// Line buffer for newline gating.
    line_buffer: LineBuffer,
    /// Whether to bypass the line buffer (thinking blocks).
    bypass_gate: bool,
    /// Stream chunker.
    pub chunker: StreamChunker,
    /// Adaptive chunking policy.
    policy: AdaptiveChunkingPolicy,
    /// Is this a thinking block?
    is_thinking: bool,
}

/// Abstract state of a block.
pub struct BlockView {
    /// Buffered partial line.
    pub buffer: Seq<char>,
    /// Whether content bypasses the newline gate.
    pub bypass: bool,
    /// Queued lines.
    pub queue: Seq<Seq<char>>,
    /// Policy state.
    pub policy: (ChunkingMode, bool),
    /// Whether it is a thinking block.
    pub thinking: bool,
}

impl View for BlockState {
    type V = BlockView;

    closed spec fn view(&self) -> BlockView {
        BlockView {
            buffer: self.line_buffer@,
            bypass: self.bypass_gate,
            queue: self.chunker@,
            policy: self.policy@,
            thinking: self.is_thinking,
        }
    }
}

/// A fresh block: empty buffer and queue, smooth policy.
pub open spec fn spec_fresh_block(thinking: bool) -> BlockView {
    BlockView {
        buffer: Seq::<char>::empty(),
        bypass: thinking,
        queue: Seq::<Seq<char>>::empty(),
        policy: (ChunkingMode::Smooth, false),
        thinking,
    }
}

/// The block after content is pushed to it.
pub open spec fn spec_block_push(b: BlockView, content: Seq<char>) -> BlockView {
    if b.bypass {
        BlockView { queue: b.queue + spec_delta_lines(content), ..b }
    } else {
        let all = b.buffer + content;
        let k = text::last_nl(all);
        BlockView { buffer: all.skip(k + 1), queue: b.queue + spec_delta_lines(all.take(k + 1)), ..b }
    }
}

impl BlockState {
    /// Create a new block state for text.
    pub fn for_text() -> (b: Self)
        ensures
            b@ == spec_fresh_block(false),
    {
        Self {
            line_buffer: LineBuffer::new(),
            bypass_gate: false,
            chunker: StreamChunker::new(),
            policy: AdaptiveChunkingPolicy::new(),
            is_thinking: false,
        }
    }

    /// Create a new block state for thinking (bypasses gate).
    pub fn for_thinking() -> (b: Self)
        ensures
            b@ == spec_fresh_block(true),
    {
        Self {
            line_buffer: LineBuffer::new(),
            bypass_gate: true,
            chunker: StreamChunker::new(),
            policy: AdaptiveChunkingPolicy::new(),
            is_thinking: true,
        }
    }
}

/// State for managing multiple stream collectors (one per content block).
#[derive(Debug, Default)]
pub struct StreamingState {
    /// Per-block state by index.
    pub blocks: Vec<Option<BlockState>>,
    /// Whether any stream is currently active.
    pub is_active: bool,
    /// Accumulated text for the current block.
    pub accumulated_text: String,
    /// Accumulated thinking for the current block.
    pub accumulated_thinking: String,
}

/// The abstract states of the blocks.
pub open spec fn block_views(blocks: Seq<Option<BlockState>>) -> Seq<Option<BlockView>> {
    blocks.map_values(|b: Option<BlockState>| match b {
        Some(s) => Some(s@),
        None => None,
    })
}

/// Whether some block has queued lines.
pub open spec fn spec_any_pending(bs: Seq<Option<BlockView>>) -> bool {
    exists|j: int| 0 <= j < bs.len() && #[trigger] bs[j] is Some && bs[j]->0.queue.len() > 0
}

/// The blocks after `start_text`/`start_thinking` at `index`.
pub open spec fn spec_started(bs: Seq<Option<BlockView>>, index: usize, thinking: bool) -> Seq<
    Option<BlockView>,
> {
    Seq::new(
        if index < bs.len() { bs.len() } else { index as nat + 1 },
        |j: int|
            if j == index {
                Some(spec_fresh_block(thinking))
            } else if j < bs.len() {
                bs[j]
            } else {
                None
            },
    )
}

impl StreamingState {
    /// The abstract states of the blocks.
    pub open spec fn spec_blocks(&self) -> Seq<Option<BlockView>> {
        block_views(self.blocks@)
    }

    /// Create a new streaming state.
    pub fn new() -> (s: Self)
        ensures
            s.spec_blocks().len() == 0,
            !s.is_active,
            s.accumulated_text@.len() == 0,
            s.accumulated_thinking@.len() == 0,
    {
        let s = Self {
            blocks: Vec::new(),
            is_active: false,
            accumulated_text: String::new(),
            accumulated_thinking: String::new(),
        };
        assert(s.spec_blocks().len() == 0);
        s
    }

    /// Start a new text block.
    pub fn start_text(&mut self, index: usize)
        requires
            index < usize::MAX,
        ensures
            final(self).spec_blocks() == spec_started(old(self).spec_blocks(), index, false),
            final(self).is_active,
            final(self).accumulated_text == old(self).accumulated_text,
            final(self).accumulated_thinking == old(self).accumulated_thinking,
    {
        self.ensure_capacity(index);
        let ghost prev = self.blocks@;
        self.blocks.set(index, Some(BlockState::for_text()));
        self.is_active = true;
        proof {
            assert forall|j: int| 0 <= j < self.blocks@.len() && j != index implies #[trigger] self.spec_blocks()[j]
                == block_views(prev)[j] by {
                assert(self.blocks@[j] == prev[j]);
            }
        }
        assert(self.spec_blocks() =~= spec_started(old(self).spec_blocks(), index, false));
    }

    /// Start a new thinking block (bypasses newline gate).
    pub fn start_thinking(&mut self, index: usize)
        requires
            index < usize::MAX,
        ensures
            final(self).spec_blocks() == spec_started(old(self).spec_blocks(), index, true),
            final(self).is_active,
            final(self).accumulated_text == old(self).accumulated_text,
            final(self).accumulated_thinking == old(self).accumulated_thinking,
    {
        self.ensure_capacity(index);
        let ghost prev = self.blocks@;
        self.blocks.set(index, Some(BlockState::for_thinking()));
        self.is_active = true;
        proof {
            assert forall|j: int| 0 <= j < self.blocks@.len() && j != index implies #[trigger] self.spec_blocks()[j]
                == block_views(prev)[j] by {
                assert(self.blocks@[j] == prev[j]);
            }
        }
        assert(self.spec_blocks() =~= spec_started(old(self).spec_blocks(), index, true));
    }

    /// Push content to a block: record it in the accumulated text (or
    /// thinking), then route it through the newline gate, or straight to the
    /// chunker for thinking blocks. Unknown blocks are ignored.
    pub fn push_content(&mut self, index: usize, content: &str)
        ensures
            ({
                let bs = old(self).spec_blocks();
                if index < bs.len() && bs[index as int] is Some {
                    let b = bs[index as int]->0;
                    &&& final(self).spec_blocks() == bs.update(index as int, Some(spec_block_push(b, content@)))
                    &&& final(self).accumulated_text@ == if b.thinking { old(self).accumulated_text@ } else { old(self).accumulated_text@ + content@ }
                    &&& final(self).accumulated_thinking@ == if b.thinking { old(self).accumulated_thinking@ + content@ } else { old(self).accumulated_thinking@ }
                } else {
                    &&& final(self).spec_blocks() == bs
                    &&& final(self).accumulated_text == old(self).accumulated_text
                    &&& final(self).accumulated_thinking == old(self).accumulated_thinking
                }
            }),
            final(self).is_active == old(self).is_active,
    {
        if index < self.blocks.len() {
            let mut slot: Option<BlockState> = None;
            std::mem::swap(&mut slot, &mut self.blocks[index]);
            match slot {
                Some(mut block) => {
                    if block.is_thinking {
                        push_str(&mut self.accumulated_thinking, content);
                    } else {
                        push_str(&mut self.accumulated_text, content);
                    }
                    if block.bypass_gate {
                        block.chunker.push_delta(content);
                    } else {
                        block.line_buffer.push(content);
                        let committable = block.line_buffer.take_committable();
                        if !committable.as_str().is_empty() {
                            block.chunker.push_delta(committable.as_str());
                        } else {
                            proof {
                                assert(text::lines_of(committable@) =~= seq![]);
                                assert(text::non_empty(seq![]) =~= Seq::<Seq<char>>::empty());
                                assert(block.chunker@ + spec_delta_lines(committable@) =~= block.chunker@);
                            }
                        }
                    }
                    self.blocks.set(index, Some(block));
                    assert(self.spec_blocks() =~= old(self).spec_blocks().update(
                        index as int,
                        Some(spec_block_push(old(self).spec_blocks()[index as int]->0, content@)),
                    ));
                },
                None => {
                    self.blocks.set(index, None);
                    assert(self.spec_blocks() =~= old(self).spec_blocks());
                },
            }
        }
    }

    /// Commit lines from a block: one commit tick on the block's policy and
    /// chunker. Unknown blocks commit nothing.
    pub fn commit_text(&mut self, index: usize) -> (text: String)
        ensures
            ({
                let bs = old(self).spec_blocks();
                if index < bs.len() && bs[index as int] is Some {
                    let b = bs[index as int]->0;
                    let q = b.queue;
                    let p = (spec_mode_after_queue(b.policy, q.len() as usize), b.policy.1);
                    let n = spec_lines_per_tick(spec_effective_mode(p), q.len() as usize);
                    &&& final(self).spec_blocks() == bs.update(index as int, Some(BlockView { queue: q.skip(n as int), policy: p, ..b }))
                    &&& text@ == text::join(q.take(n as int), nl())
                } else {
                    &&& final(self).spec_blocks() == bs
                    &&& text@.len() == 0
                }
            }),
            final(self).is_active == old(self).is_active,
            final(self).accumulated_text == old(self).accumulated_text,
            final(self).accumulated_thinking == old(self).accumulated_thinking,
    {
        if index < self.blocks.len() {
            let mut slot: Option<BlockState> = None;
            std::mem::swap(&mut slot, &mut self.blocks[index]);
            match slot {
                Some(mut block) => {
                    let now = instant_now();
                    let result = run_commit_tick(&mut block.policy, &mut block.chunker, now);
                    self.blocks.set(index, Some(block));
                    assert(self.spec_blocks() =~= old(self).spec_blocks().update(
                        index as int,
                        Some(self.spec_blocks()[index as int]->0),
                    ));
                    result.committed_text
                },
                None => {
                    self.blocks.set(index, None);
                    assert(self.spec_blocks() =~= old(self).spec_blocks());
                    String::new()
                },
            }
        } else {
            String::new()
        }
    }

    /// Check if a block has pending chunker lines.
    #[must_use]
    pub fn has_pending_chunker_lines(&self, index: usize) -> (b: bool)
        ensures
            b == (index < self.spec_blocks().len() && self.spec_blocks()[index as int] is Some
                && self.spec_blocks()[index as int]->0.queue.len() > 0),
    {
        if index < self.blocks.len() {
            match &self.blocks[index] {
                Some(b) => b.chunker.queued_lines() > 0,
                None => false,
            }
        } else {
            false
        }
    }

    /// Get chunking mode for a block.
    #[must_use]
    pub fn chunking_mode(&self, index: usize) -> (m: Option<ChunkingMode>)
        ensures
            m == (if index < self.spec_blocks().len() && self.spec_blocks()[index as int] is Some {
                Some(spec_effective_mode(self.spec_blocks()[index as int]->0.policy))
            } else {
                None
            }),
    {
        if index < self.blocks.len() {
            match &self.blocks[index] {
                Some(b) => Some(b.policy.mode()),
                None => None,
            }
        } else {
            None
        }
    }

    /// Finalize a block: flush its line buffer into the queue, drain the
    /// whole queue joined by newlines, and recompute whether any block still
    /// has queued lines. Unknown blocks yield nothing.
    pub fn finalize_block_text(&mut self, index: usize) -> (text: String)
        ensures
            ({
                let bs = old(self).spec_blocks();
                if index < bs.len() && bs[index as int] is Some {
                    let b = bs[index as int]->0;
                    let nb = BlockView { buffer: Seq::<char>::empty(), queue: Seq::<Seq<char>>::empty(), ..b };
                    &&& final(self).spec_blocks() == bs.update(index as int, Some(nb))
                    &&& text@ == text::join(b.queue + spec_delta_lines(b.buffer), nl())
                    &&& final(self).is_active == spec_any_pending(final(self).spec_blocks())
                } else {
                    &&& final(self).spec_blocks() == bs
                    &&& text@.len() == 0
                    &&& final(self).is_active == old(self).is_active
                }
            }),
            final(self).accumulated_text == old(self).accumulated_text,
            final(self).accumulated_thinking == old(self).accumulated_thinking,
    {
        if index < self.blocks.len() {
            let mut slot: Option<BlockState> = None;
            std::mem::swap(&mut slot, &mut self.blocks[index]);
            match slot {
                Some(mut block) => {
                    let gate_tail = block.line_buffer.flush();
                    if !gate_tail.as_str().is_empty() {
                        block.chunker.push_delta(gate_tail.as_str());
                    } else {
                        proof {
                            assert(text::lines_of(gate_tail@) =~= seq![]);
                            assert(text::non_empty(seq![]) =~= Seq::<Seq<char>>::empty());
                            assert(block.chunker@ + spec_delta_lines(gate_tail@) =~= block.chunker@);
                        }
                    }
                    let remaining = block.chunker.drain_remaining();
                    self.blocks.set(index, Some(block));
                    assert(self.spec_blocks() =~= old(self).spec_blocks().update(
                        index as int,
                        Some(self.spec_blocks()[index as int]->0),
                    ));
                    self.check_active();
                    remaining
                },
                None => {
                    self.blocks.set(index, None);
                    assert(self.spec_blocks() =~= old(self).spec_blocks());
                    String::new()
                },
            }
        } else {
            String::new()
        }
    }

    /// Reset the streaming state.
    pub fn reset(&mut self)
        ensures
            final(self).spec_blocks().len() == 0,
            !final(self).is_active,
            final(self).accumulated_text@.len() == 0,
            final(self).accumulated_thinking@.len() == 0,
    {
        self.blocks.clear();
        self.is_active = false;
        self.accumulated_text = String::new();
        self.accumulated_thinking = String::new();
        assert(self.spec_blocks().len() == 0);
    }

    /// Set low motion flag for all blocks.
    pub fn set_low_motion(&mut self, low_motion: bool)
        ensures
            final(self).spec_blocks().len() == old(self).spec_blocks().len(),
            forall|j: int|
                0 <= j < old(self).spec_blocks().len() ==> #[trigger] final(self).spec_blocks()[j] == match old(
                    self,
                ).spec_blocks()[j] {
                    Some(b) => Some(BlockView { policy: (b.policy.0, low_motion), ..b }),
                    None => None,
                },
            final(self).is_active == old(self).is_active,
            final(self).accumulated_text == old(self).accumulated_text,
            final(self).accumulated_thinking == old(self).accumulated_thinking,
    {
        let mut i: usize = 0;
        while i < self.blocks.len()
            invariant
                i <= self.blocks@.len(),
                self.blocks@.len() == old(self).blocks@.len(),
                self.is_active == old(self).is_active,
                self.accumulated_text == old(self).accumulated_text,
                self.accumulated_thinking == old(self).accumulated_thinking,
                forall|j: int|
                    0 <= j < self.blocks@.len() ==> #[trigger] self.spec_blocks()[j] == if j < i {
                        match old(self).spec_blocks()[j] {
                            Some(b) => Some(BlockView { policy: (b.policy.0, low_motion), ..b }),
                            None => None,
                        }
                    } else {
                        old(self).spec_blocks()[j]
                    },
            decreases self.blocks@.len() - i,
        {
            let ghost prev = self.blocks@;
            let ghost prev_views = self.spec_blocks();
            let mut slot: Option<BlockState> = None;
            std::mem::swap(&mut slot, &mut self.blocks[i]);
            match slot {
                Some(mut block) => {
                    let ghost b0 = block@;
                    assert(prev_views[i as int] == Some(b0));
                    block.policy.set_low_motion(low_motion);
                    assert(block@ == BlockView { policy: (b0.policy.0, low_motion), ..b0 });
                    self.blocks.set(i, Some(block));
                    assert(self.spec_blocks()[i as int] == Some(BlockView { policy: (b0.policy.0, low_motion), ..b0 }));
                },
                None => {
                    assert(prev_views[i as int] is None);
                    self.blocks.set(i, None);
                    assert(self.spec_blocks()[i as int] is None);
                },
            }
            proof {
                assert forall|j: int| 0 <= j < self.blocks@.len() && j != i implies #[trigger] self.spec_blocks()[j]
                    == prev_views[j] by {
                    assert(self.blocks@[j] == prev[j]);
                }
            }
            i += 1;
        }
    }

    /// Ensure a slot exists at the given index.
    fn ensure_capacity(&mut self, index: usize)
        requires
            index < usize::MAX,
        ensures
            final(self).blocks@.len() == if index < old(self).blocks@.len() { old(self).blocks@.len() } else { index as nat + 1 },
            forall|j: int| 0 <= j < final(self).blocks@.len() ==> #[trigger] final(self).spec_blocks()[j] == if j < old(self).blocks@.len() { old(self).spec_blocks()[j] } else { None },
            final(self).is_active == old(self).is_active,
            final(self).accumulated_text == old(self).accumulated_text,
            final(self).accumulated_thinking == old(self).accumulated_thinking,
    {
        while self.blocks.len() <= index
            invariant
                index < usize::MAX,
                old(self).blocks@.len() <= self.blocks@.len(),
                self.blocks@.len() <= if index < old(self).blocks@.len() { old(self).blocks@.len() } else { index as nat + 1 },
                forall|j: int| 0 <= j < self.blocks@.len() ==> #[trigger] self.spec_blocks()[j] == if j < old(self).blocks@.len() { old(self).spec_blocks()[j] } else { None },
                self.is_active == old(self).is_active,
                self.accumulated_text == old(self).accumulated_text,
                self.accumulated_thinking == old(self).accumulated_thinking,
            decreases index + 1 - self.blocks@.len(),
        {
            let ghost prev = self.blocks@;
            let ghost prev_views = self.spec_blocks();
            self.blocks.push(None);
            proof {
                assert forall|j: int| 0 <= j < self.blocks@.len() implies #[trigger] self.spec_blocks()[j]
                    == if j < old(self).blocks@.len() { old(self).spec_blocks()[j] } else { None } by {
                    if j < prev.len() {
                        assert(self.blocks@[j] == prev[j]);
                        assert(prev_views[j] == self.spec_blocks()[j]);
                    } else {
                        assert(self.blocks@[j] == None::<BlockState>);
                    }
                }
            }
        }
    }

    /// Recompute whether any block still has queued lines.
    fn check_active(&mut self)
        ensures
            final(self).blocks == old(self).blocks,
            final(self).is_active == spec_any_pending(old(self).spec_blocks()),
            final(self).accumulated_text == old(self).accumulated_text,
            final(self).accumulated_thinking == old(self).accumulated_thinking,
    {
        let mut any = false;
        let mut i: usize = 0;
        while i < self.blocks.len()
            invariant
                i <= self.blocks@.len(),
                any == exists|j: int| 0 <= j < i && #[trigger] self.spec_blocks()[j] is Some && self.spec_blocks()[j]->0.queue.len() > 0,
            decreases self.blocks@.len() - i,
        {
            match &self.blocks[i] {
                Some(b) => {
                    assert(self.spec_blocks()[i as int] == Some(b@));
                    if !b.chunker.is_empty() {
                        any = true;
                    }
                },
                None => {
                    assert(self.spec_blocks()[i as int] is None);
                },
            }
            i += 1;
        }
        self.is_active = any;
    }
}

/// The lines a block will still hand out: its queue followed by the
/// non-empty lines of its buffered partial text.
pub open spec fn spec_pending_lines(b: BlockView) -> Seq<Seq<char>> {
    b.queue + spec_delta_lines(b.buffer)
}

/// Newline gating loses and reorders nothing: after pushing `content` to a
/// gated block, the lines it will still hand out are those it had pending
/// before, with the buffered text extended by `content`. Repeating this for
/// each push shows that a text block finally yields the non-empty lines of
/// everything pushed to it.
pub proof fn lemma_gate_preserves_lines(b: BlockView, content: Seq<char>)
    requires
        !b.bypass,
    ensures
        spec_pending_lines(spec_block_push(b, content)) == b.queue + spec_delta_lines(b.buffer + content),
{
    let all = b.buffer + content;
    let k = text::last_nl(all);
    text::lemma_last_nl_bounds(all);
    let head = all.take(k + 1);
    let tail = all.skip(k + 1);
    assert(head + tail =~= all);
    if head.len() > 0 {
        assert(head.last() == all[k]);
    }
    text::lemma_lines_append(head, tail);
    text::lemma_non_empty_append(text::lines_of(head), text::lines_of(tail));
    assert(spec_pending_lines(spec_block_push(b, content)) =~= b.queue + (spec_delta_lines(head) + spec_delta_lines(tail)));
}

/// A thinking block queues the lines of each push at once and
/// leaves its buffer untouched.
pub proof fn lemma_bypass_queues_immediately(b: BlockView, content: Seq<char>)
    requires
        b.bypass,
    ensures
        spec_block_push(b, content).queue == b.queue + spec_delta_lines(content),
        spec_block_push(b, content).buffer == b.buffer,
{
}

/// A committed text never holds more lines than the policy allows per tick,
/// and the committed lines plus the remaining queue are exactly the queue
/// before the tick.
pub proof fn lemma_commit_tick_partitions(q: Seq<Seq<char>>, p: (ChunkingMode, bool))
    requires
        q.len() <= usize::MAX,
    ensures
        ({
            let p2 = (spec_mode_after_queue(p, q.len() as usize), p.1);
            let n = spec_lines_per_tick(spec_effective_mode(p2), q.len() as usize);
            &&& n <= q.len()
            &&& n <= CATCH_UP_BURST
            &&& (q.len() > 0 ==> n >= 1)
            &&& q.take(n as int) + q.skip(n as int) == q
            &&& (p.1 ==> n <= 1)
        }),
{
    let p2 = (spec_mode_after_queue(p, q.len() as usize), p.1);
    let n = spec_lines_per_tick(spec_effective_mode(p2), q.len() as usize);
    assert(q.take(n as int) + q.skip(n as int) =~= q);
}

} // verus!
