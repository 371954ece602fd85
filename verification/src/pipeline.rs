//! The pipeline end to end, for one generation pass: every event runs
//! through the Token Stream Consumer, every completed sentence chunk is
//! transferred into the narration hand-off, and the narration worker drains
//! it one utterance at a time. What gets spoken is exactly the sequence of
//! sentence chunks the boundary rule dictates, in emission order.

use vstd::prelude::*;

use crate::channel::{drain_in_order, NarrationChannel, NarrationWorker};
use crate::consumer::{lemma_segment_state_step, token_texts, Consumer, GenerationEvent};
use crate::segmenter::segment_chunks;

verus! {

/// Feeds one pass's events through a fresh consumer, hands every emitted
/// chunk to a fresh narration channel, and lets a fresh worker speak the
/// channel dry: the utterances spoken, in order, are exactly the sentence
/// chunks of the pass.
pub fn narrate_pass(events: &Vec<GenerationEvent>) -> (spoken: Vec<String>)
    ensures
        spoken@.map_values(|c: String| c@) == segment_chunks(token_texts(events@)),
{
    let mut consumer = Consumer::new();
    let mut ch = NarrationChannel::new();
    let mut i: usize = 0;
    proof {
        assert(events@.take(0int) =~= Seq::<GenerationEvent>::empty());
    }
    while i < events.len()
        invariant
            i <= events.len(),
            consumer.wf(),
            consumer.fragments() == token_texts(events@.take(i as int)),
            ch.delivered() == Seq::<Seq<char>>::empty(),
            ch.pending() == segment_chunks(token_texts(events@.take(i as int))),
        decreases events.len() - i,
    {
        let ghost prior_frags = consumer.fragments();
        proof {
            consumer.lemma_wf_buffered();
        }
        let action = consumer.handle_event(&events[i]);
        if let Some(c) = action.chunk {
            ch.send(c);
        }
        i = i + 1;
        proof {
            let evs = events@.take(i as int);
            assert(evs.drop_last() == events@.take(i as int - 1));
            assert(evs.last() == events@[i as int - 1]);
            match events@[i as int - 1] {
                GenerationEvent::Token(s) => {
                    assert(token_texts(evs) == token_texts(evs.drop_last()).push(s@));
                    lemma_segment_state_step(prior_frags, s@);
                    assert(ch.pending() =~~= segment_chunks(token_texts(evs)));
                },
                GenerationEvent::EndOfText => {
                    assert(token_texts(evs) == token_texts(evs.drop_last()));
                    assert(ch.pending() =~~= segment_chunks(token_texts(evs)));
                },
            }
        }
    }
    proof {
        assert(events@.take(events@.len() as int) == events@);
    }
    let mut worker = NarrationWorker::new();
    drain_in_order(&mut ch, &mut worker);
    proof {
        assert(worker.spoken() =~= segment_chunks(token_texts(events@)));
    }
    worker.into_spoken()
}

} // verus!
