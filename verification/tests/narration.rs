use sentence_stream::channel::{drain_in_order, NarrationChannel, NarrationWorker};
use sentence_stream::consumer::GenerationEvent;
use sentence_stream::pipeline::narrate_pass;
use sentence_stream::history::{SessionOutcome, SessionStats};
use sentence_stream::status::{
    end_of_text_message, format_u64, outcome_message, session_start_message,
};

#[test]
fn chunks_are_received_in_send_order() {
    let mut ch = NarrationChannel::new();
    ch.send("First sentence.".to_string());
    ch.send("Second sentence!".to_string());
    ch.send("Third?".to_string());
    assert_eq!(ch.recv(), Some("First sentence.".to_string()));
    assert_eq!(ch.recv(), Some("Second sentence!".to_string()));
    assert_eq!(ch.recv(), Some("Third?".to_string()));
    assert_eq!(ch.recv(), None);
}

#[test]
fn recv_on_empty_channel_is_none() {
    let mut ch = NarrationChannel::new();
    assert_eq!(ch.len(), 0);
    assert_eq!(ch.recv(), None);
}

#[test]
fn worker_speaks_one_utterance_at_a_time() {
    let mut w = NarrationWorker::new();
    w.begin_utterance("Hello.".to_string());
    w.finish_utterance();
    w.begin_utterance("World!".to_string());
    w.finish_utterance();
    let mut ch = NarrationChannel::new();
    ch.send("Next.".to_string());
    drain_in_order(&mut ch, &mut w);
    assert_eq!(ch.len(), 0);
}

#[test]
fn drain_preserves_order_end_to_end() {
    let mut ch = NarrationChannel::new();
    for text in ["A.", "B!", "C?"] {
        ch.send(text.to_string());
    }
    let mut w = NarrationWorker::new();
    drain_in_order(&mut ch, &mut w);
    assert_eq!(ch.len(), 0);
    assert_eq!(ch.recv(), None);
}

#[test]
fn whole_pass_is_spoken_in_generation_order() {
    let mut events: Vec<GenerationEvent> = ["One.", " Two", "!", " tail"]
        .iter()
        .map(|f| GenerationEvent::Token(f.to_string()))
        .collect();
    events.push(GenerationEvent::EndOfText);
    let spoken = narrate_pass(&events);
    assert_eq!(spoken, vec!["One.".to_string(), " Two!".to_string()]);
}

#[test]
fn decimal_rendering_is_exact() {
    assert_eq!(format_u64(0), "0");
    assert_eq!(format_u64(7), "7");
    assert_eq!(format_u64(10), "10");
    assert_eq!(format_u64(1234567890), "1234567890");
    assert_eq!(format_u64(u64::MAX), "18446744073709551615");
}

#[test]
fn lifecycle_marker_lines() {
    assert_eq!(end_of_text_message(), "[End of text]");
    assert_eq!(
        session_start_message(42),
        "[Starting new session... With seed: 42]"
    );
    assert_eq!(
        outcome_message(&SessionOutcome::ContextExhausted),
        "[Context window full, stopping inference.]"
    );
    assert_eq!(
        outcome_message(&SessionOutcome::Failed),
        "[An error occurred during inference.]"
    );
    let st = SessionStats {
        feed_prompt_duration_ms: 1500,
        prompt_tokens: 20,
        predict_duration_ms: 30000,
        predict_tokens: 256,
    };
    assert_eq!(
        outcome_message(&SessionOutcome::Completed(st)),
        "[Session finished with status: feed_prompt_duration 1500ms, prompt_tokens 20, \
         predict_duration 30000ms, predict_tokens 256]"
    );
}
