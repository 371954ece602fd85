//! Streaming turn-taking pipeline for a self-feeding dialogue between two
//! simulated personas: a token-stream consumer that echoes and accumulates
//! generated text, a sentence segmenter that detects terminal punctuation and
//! emits sentence chunks, a first-in-first-out narration hand-off with a
//! one-utterance-at-a-time worker model, and the conversation-history /
//! session-retry state machine that reacts to generation outcomes.

pub mod channel;
pub mod consumer;
pub mod history;
pub mod pipeline;
pub mod segmenter;
pub mod status;

pub use segmenter::is_sentence_delimiter;
pub use segmenter::lemma_chunks_partition_text;
pub use segmenter::lemma_segmentation_deterministic;
pub use segmenter::Segmenter;

pub use consumer::consume_events;
pub use consumer::Consumer;
pub use consumer::EventAction;
pub use consumer::GenerationEvent;
pub use consumer::PassOutput;

pub use channel::drain_in_order;
pub use pipeline::narrate_pass;
pub use channel::lemma_delivered_prefix_of_sent;
pub use channel::NarrationChannel;
pub use channel::NarrationWorker;

pub use history::lemma_retry_prompt_identical;
pub use history::next_phase;
pub use history::split_lines;
pub use history::trim_whitespace;
pub use history::Conversation;
pub use history::DialoguePhase;
pub use history::SessionOutcome;
pub use history::SessionStats;

pub use status::end_of_text_message;
pub use status::format_u64;
pub use status::outcome_message;
pub use status::session_start_message;
