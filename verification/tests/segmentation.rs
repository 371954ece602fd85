use sentence_stream::consumer::{consume_events, GenerationEvent};
use sentence_stream::segmenter::{is_sentence_delimiter, Segmenter};

fn tokens(frags: &[&str]) -> Vec<GenerationEvent> {
    frags.iter().map(|f| GenerationEvent::Token(f.to_string())).collect()
}

#[test]
fn delimiters_are_period_question_bang() {
    assert!(is_sentence_delimiter('.'));
    assert!(is_sentence_delimiter('?'));
    assert!(is_sentence_delimiter('!'));
    assert!(!is_sentence_delimiter(','));
    assert!(!is_sentence_delimiter('a'));
    assert!(!is_sentence_delimiter(' '));
    assert!(!is_sentence_delimiter('\n'));
}

#[test]
fn two_sentences_across_five_fragments() {
    let events = tokens(&["Hello", " there", ".", " How are you", "?"]);
    let out = consume_events(&events);
    assert_eq!(out.chunks, vec!["Hello there.".to_string(), " How are you?".to_string()]);
    assert_eq!(out.residual, "");
    assert_eq!(out.echo, "Hello there. How are you?");
    assert!(!out.saw_end_of_text);
}

#[test]
fn trailing_space_after_punctuation_defers_the_boundary() {
    // The rule tests only the fragment's last character, so a fragment
    // ending in a space crosses no boundary even when punctuation precedes
    // it; the sentence is emitted once a later fragment ends in punctuation.
    let events = tokens(&["Hello", " there", ". ", "How are you", "?"]);
    let out = consume_events(&events);
    assert_eq!(out.chunks, vec!["Hello there. How are you?".to_string()]);
    assert_eq!(out.residual, "");
    assert_eq!(out.echo, "Hello there. How are you?");
}

#[test]
fn no_punctuation_leaves_residual_only() {
    let mut events = tokens(&["No punctuation here"]);
    events.push(GenerationEvent::EndOfText);
    let out = consume_events(&events);
    assert_eq!(out.chunks.len(), 0);
    assert_eq!(out.residual, "No punctuation here");
    assert_eq!(out.echo, "No punctuation here");
    assert!(out.saw_end_of_text);
}

#[test]
fn punctuated_first_fragment_emits_and_clears() {
    let mut seg = Segmenter::new();
    let chunk = seg.feed("Hi.");
    assert_eq!(chunk, Some("Hi.".to_string()));
    let next = seg.feed("More");
    assert_eq!(next, None);
    let after = seg.feed("!");
    assert_eq!(after, Some("More!".to_string()));
}

#[test]
fn single_delimiter_fragment_is_a_chunk() {
    let mut seg = Segmenter::new();
    assert_eq!(seg.feed("?"), Some("?".to_string()));
    assert_eq!(seg.into_buffer(), "");
}

#[test]
fn empty_fragment_changes_nothing() {
    let mut seg = Segmenter::new();
    assert_eq!(seg.feed("abc"), None);
    assert_eq!(seg.feed(""), None);
    assert_eq!(seg.into_buffer(), "abc");
}

#[test]
fn boundary_is_fragment_granular_not_buffer_granular() {
    // A fragment containing a delimiter in the middle does not trigger; only
    // the last character of each fragment is tested.
    let events = tokens(&["One. Two", " three", "."]);
    let out = consume_events(&events);
    assert_eq!(out.chunks, vec!["One. Two three.".to_string()]);
    assert_eq!(out.residual, "");
}

#[test]
fn echo_reproduces_all_fragments_in_order() {
    let mut events = tokens(&["a", "", "bc", "d.", "e"]);
    events.insert(2, GenerationEvent::EndOfText);
    let out = consume_events(&events);
    assert_eq!(out.echo, "abcd.e");
    assert_eq!(out.chunks, vec!["abcd.".to_string()]);
    assert_eq!(out.residual, "e");
}

#[test]
fn same_fragments_twice_give_same_chunks() {
    let events = tokens(&["A!", "B", ". ", "C"]);
    let first = consume_events(&events);
    let second = consume_events(&events);
    assert_eq!(first.chunks, second.chunks);
    assert_eq!(first.residual, second.residual);
    assert_eq!(first.echo, second.echo);
}

#[test]
fn chunks_plus_residual_reassemble_the_text() {
    let events = tokens(&["abc", "d.", "ef?", "gh"]);
    let out = consume_events(&events);
    let mut rebuilt = String::new();
    for c in &out.chunks {
        rebuilt.push_str(c);
    }
    rebuilt.push_str(&out.residual);
    assert_eq!(rebuilt, "abcd.ef?gh");
}
