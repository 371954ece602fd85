use sentence_stream::history::{
    split_lines, trim_whitespace, Conversation, DialoguePhase, SessionOutcome, SessionStats,
};
use sentence_stream::next_phase;

fn stats() -> SessionStats {
    SessionStats {
        feed_prompt_duration_ms: 12,
        prompt_tokens: 34,
        predict_duration_ms: 56,
        predict_tokens: 78,
    }
}

fn seeded_conversation() -> Conversation {
    let mut c = Conversation::new("This is a conversation between two AI models.".to_string());
    c.append_utterance("Llama AI: Hello, Alpaca AI! How are you today?".to_string());
    c.append_utterance("Alpaca AI: I'm doing great!".to_string());
    c
}

#[test]
fn completed_residual_appends_one_utterance_per_line() {
    let mut c = seeded_conversation();
    c.finish_turn(&SessionOutcome::Completed(stats()), "  Line one\nLine two \t");
    assert_eq!(c.len(), 5);
    assert_eq!(c.utterance(3), "Line one");
    assert_eq!(c.utterance(4), "Line two");
}

#[test]
fn context_exhausted_leaves_history_and_prompt_unchanged() {
    let mut c = seeded_conversation();
    let before_len = c.len();
    let before_prompt = c.build_prompt();
    c.finish_turn(&SessionOutcome::ContextExhausted, "discarded partial output.");
    assert_eq!(c.len(), before_len);
    for i in 0..before_len {
        assert_eq!(c.utterance(i), seeded_conversation().utterance(i));
    }
    let retry_prompt = c.build_prompt();
    assert_eq!(retry_prompt, before_prompt);
}

#[test]
fn failed_outcome_discards_partial_output() {
    let mut c = seeded_conversation();
    c.finish_turn(&SessionOutcome::Failed, "half a sentence");
    assert_eq!(c.len(), 3);
}

#[test]
fn every_outcome_returns_to_start_turn() {
    assert!(matches!(next_phase(&SessionOutcome::Completed(stats())), DialoguePhase::StartTurn));
    assert!(matches!(next_phase(&SessionOutcome::ContextExhausted), DialoguePhase::StartTurn));
    assert!(matches!(next_phase(&SessionOutcome::Failed), DialoguePhase::StartTurn));
}

#[test]
fn prompt_is_preamble_plus_last_two_utterances() {
    let c = seeded_conversation();
    assert_eq!(
        c.build_prompt(),
        "This is a conversation between two AI models.\n\
         Llama AI: Hello, Alpaca AI! How are you today?\n\
         Alpaca AI: I'm doing great!"
    );
    let mut longer = seeded_conversation();
    longer.append_utterance("Llama AI: Glad to hear it.".to_string());
    assert_eq!(
        longer.build_prompt(),
        "This is a conversation between two AI models.\n\
         Alpaca AI: I'm doing great!\n\
         Llama AI: Glad to hear it."
    );
}

#[test]
fn prompt_with_short_history() {
    let just_preamble = Conversation::new("Preamble.".to_string());
    assert_eq!(just_preamble.build_prompt(), "Preamble.\n");
    let mut two = Conversation::new("Preamble.".to_string());
    two.append_utterance("First reply".to_string());
    assert_eq!(two.build_prompt(), "Preamble.\nFirst reply");
}

#[test]
fn trim_removes_edge_whitespace_only() {
    assert_eq!(trim_whitespace("  \t hello world \r\n"), "hello world");
    assert_eq!(trim_whitespace(""), "");
    assert_eq!(trim_whitespace(" \n\t\r "), "");
    assert_eq!(trim_whitespace("inner  spaces kept"), "inner  spaces kept");
}

#[test]
fn split_lines_counts_separators() {
    assert_eq!(split_lines(""), vec!["".to_string()]);
    assert_eq!(split_lines("one"), vec!["one".to_string()]);
    assert_eq!(
        split_lines("a\nb\nc"),
        vec!["a".to_string(), "b".to_string(), "c".to_string()]
    );
    assert_eq!(
        split_lines("a\n\nb\n"),
        vec!["a".to_string(), "".to_string(), "b".to_string(), "".to_string()]
    );
}

#[test]
fn empty_residual_appends_one_empty_utterance() {
    let mut c = seeded_conversation();
    c.finish_turn(&SessionOutcome::Completed(stats()), "   ");
    assert_eq!(c.len(), 4);
    assert_eq!(c.utterance(3), "");
}
