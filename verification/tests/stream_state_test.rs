use quickhorse_core::tui::stream_state::{
    run_commit_tick, AdaptiveChunkingPolicy, ChunkingMode, LineBuffer, StreamChunker, StreamingState,
};
use std::time::Instant;

#[test]
fn test_chunker_push() {
    let mut chunker = StreamChunker::new();
    chunker.push_delta("line1\nline2\nline3");
    assert_eq!(chunker.queued_lines(), 3);
}

#[test]
fn test_chunker_drain() {
    let mut chunker = StreamChunker::new();
    chunker.push_delta("line1\nline2\nline3");
    let drained = chunker.drain(2);
    assert_eq!(drained.len(), 2);
    assert_eq!(chunker.queued_lines(), 1);
}

#[test]
fn test_line_buffer_take_committable() {
    let mut buffer = LineBuffer::new();
    buffer.push("hello ");
    assert!(buffer.take_committable().is_empty());
    buffer.push("world\n");
    let committable = buffer.take_committable();
    assert_eq!(committable, "hello world\n");
}

#[test]
fn test_policy_smooth_mode() {
    let policy = AdaptiveChunkingPolicy::new();
    assert_eq!(policy.mode(), ChunkingMode::Smooth);
    assert_eq!(policy.lines_per_tick(5), 1);
}

#[test]
fn test_policy_catchup_mode() {
    let mut policy = AdaptiveChunkingPolicy::new();
    policy.mode = ChunkingMode::CatchUp;
    assert_eq!(policy.lines_per_tick(10), 5);
}

#[test]
fn test_policy_low_motion() {
    let mut policy = AdaptiveChunkingPolicy::new();
    policy.set_low_motion(true);
    policy.mode = ChunkingMode::CatchUp;
    assert_eq!(policy.mode(), ChunkingMode::Smooth);
}

#[test]
fn test_streaming_state_start_text() {
    let mut state = StreamingState::new();
    state.start_text(0);
    assert!(state.is_active);
    assert!(state.blocks[0].is_some());
}

#[test]
fn test_streaming_state_push_content() {
    let mut state = StreamingState::new();
    state.start_text(0);
    state.push_content(0, "hello world");
    assert_eq!(state.accumulated_text, "hello world");
}

#[test]
fn test_streaming_state_thinking_bypass() {
    let mut state = StreamingState::new();
    state.start_thinking(0);
    state.push_content(0, "thinking...");
    assert_eq!(state.accumulated_thinking, "thinking...");
    let block = state.blocks[0].as_ref().unwrap();
    assert!(!block.chunker.is_empty());
}

#[test]
fn test_streaming_state_commit() {
    let mut state = StreamingState::new();
    state.start_text(0);
    state.push_content(0, "line1\nline2\n");
    let committed = state.commit_text(0);
    assert!(!committed.is_empty() || state.has_pending_chunker_lines(0));
}

#[test]
fn test_streaming_state_finalize() {
    let mut state = StreamingState::new();
    state.start_text(0);
    state.push_content(0, "remaining text");
    let finalized = state.finalize_block_text(0);
    assert_eq!(finalized, "remaining text");
}

#[test]
fn test_streaming_state_reset() {
    let mut state = StreamingState::new();
    state.start_text(0);
    state.push_content(0, "some content");
    state.reset();
    assert!(!state.is_active);
    assert!(state.accumulated_text.is_empty());
}

#[test]
fn test_run_commit_tick() {
    let mut policy = AdaptiveChunkingPolicy::new();
    let mut chunker = StreamChunker::new();
    chunker.push_delta("line1\nline2\nline3\nline4\nline5\n");
    let result = run_commit_tick(&mut policy, &mut chunker, Instant::now());
    assert_eq!(result.mode, ChunkingMode::Smooth);
}

#[test]
fn push_delta_skips_empty_lines_and_strips_crlf() {
    let mut chunker = StreamChunker::new();
    chunker.push_delta("a\r\n\nb\n");
    assert_eq!(chunker.queued_lines(), 2);
    assert_eq!(chunker.drain_remaining(), "a\nb");
    assert!(chunker.is_empty());
}

#[test]
fn commit_tick_catches_up_on_backlog() {
    let mut policy = AdaptiveChunkingPolicy::new();
    let mut chunker = StreamChunker::new();
    chunker.push_delta("1\n2\n3\n4\n5\n6\n7");
    let result = run_commit_tick(&mut policy, &mut chunker, Instant::now());
    assert_eq!(result.mode, ChunkingMode::CatchUp);
    assert_eq!(result.committed_text, "1\n2\n3\n4\n5");
    assert_eq!(chunker.queued_lines(), 2);
    let result = run_commit_tick(&mut policy, &mut chunker, Instant::now());
    assert_eq!(result.committed_text, "6\n7");
    let result = run_commit_tick(&mut policy, &mut chunker, Instant::now());
    assert_eq!(result.committed_text, "");
    assert_eq!(result.mode, ChunkingMode::Smooth);
}

#[test]
fn gated_text_is_delivered_in_full() {
    let mut state = StreamingState::new();
    state.start_text(2);
    state.push_content(2, "hel");
    state.push_content(2, "lo\nwor");
    assert!(state.has_pending_chunker_lines(2));
    state.push_content(2, "ld");
    assert_eq!(state.finalize_block_text(2), "hello\nworld");
    assert!(!state.is_active);
    assert_eq!(state.chunking_mode(2), Some(ChunkingMode::Smooth));
    assert_eq!(state.chunking_mode(0), None);
    assert_eq!(state.chunking_mode(9), None);
}

#[test]
fn unknown_block_is_ignored() {
    let mut state = StreamingState::new();
    state.push_content(3, "x\n");
    assert_eq!(state.accumulated_text, "");
    assert_eq!(state.commit_text(3), "");
    assert_eq!(state.finalize_block_text(3), "");
}

#[test]
fn line_buffer_flush_returns_partial_line() {
    let mut buffer = LineBuffer::new();
    buffer.push("a\nb\nc");
    assert_eq!(buffer.take_committable(), "a\nb\n");
    assert!(!buffer.is_empty());
    assert_eq!(buffer.flush(), "c");
    assert!(buffer.is_empty());
}
