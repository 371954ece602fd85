//! Token Stream Consumer: invoked once per generation event, in order, for
//! the duration of one generation pass. Every `Token` fragment is echoed to
//! the live output, appended to the accumulator, and delegated to the
//! sentence segmenter; `EndOfText` asks for an end-of-pass marker and leaves
//! the accumulator untouched.

use vstd::prelude::*;

use crate::segmenter::{
    concat_texts, frag_ends_sentence, segment_chunks, segment_residual, segment_state, Segmenter,
};

verus! {

/// One event of a generation pass: either a text fragment or the end marker.
pub enum GenerationEvent {
    Token(String),
    EndOfText,
}

/// The fragment texts of the `Token` events among `events`, in order.
pub open spec fn token_texts(events: Seq<GenerationEvent>) -> Seq<Seq<char>>
    decreases events.len(),
{
    if events.len() == 0 {
        Seq::empty()
    } else {
        let prior = token_texts(events.drop_last());
        match events.last() {
            GenerationEvent::Token(s) => prior.push(s@),
            GenerationEvent::EndOfText => prior,
        }
    }
}

/// Whether some event among `events` is the end-of-text marker.
pub open spec fn has_end_of_text(events: Seq<GenerationEvent>) -> bool {
    exists|i: int| 0 <= i < events.len() && events[i] is EndOfText
}

/// What the consumer asks its surroundings to do after one event: echo text
/// to the live output stream, and possibly hand a completed sentence chunk to
/// the narration stage.
pub struct EventAction {
    /// Text to write to the live output immediately: the fragment itself for
    /// a `Token` event, nothing for `EndOfText` (the end-of-pass marker line
    /// is the caller's to print).
    pub echo: Option<String>,
    /// A completed sentence chunk to transfer to the narration hand-off, if a
    /// sentence boundary was just crossed.
    pub chunk: Option<String>,
}

/// The Token Stream Consumer for one generation pass: owns the pass's
/// accumulator (via the segmenter) and remembers, as ghost state, the
/// fragments fed so far.
pub struct Consumer {
    segmenter: Segmenter,
    fragments: Ghost<Seq<Seq<char>>>,
}

impl Consumer {
    /// The fragment texts fed to this consumer so far, in order.
    pub closed spec fn fragments(&self) -> Seq<Seq<char>> {
        self.fragments@
    }

    /// The current accumulator contents.
    pub closed spec fn buffered(&self) -> Seq<char> {
        self.segmenter@
    }

    /// The accumulator always holds exactly the unterminated remainder of
    /// everything fed so far.
    pub closed spec fn wf(&self) -> bool {
        self.segmenter@ == segment_residual(self.fragments@)
    }

    /// In a well-formed consumer the accumulator holds exactly the
    /// unterminated remainder of the fragments fed so far.
    pub proof fn lemma_wf_buffered(&self)
        requires
            self.wf(),
        ensures
            self.buffered() == segment_residual(self.fragments()),
    {
    }

    /// A fresh consumer for one generation pass: nothing fed, nothing
    /// buffered.
    pub fn new() -> (c: Consumer)
        ensures
            c.wf(),
            c.fragments() == Seq::<Seq<char>>::empty(),
            c.buffered() == Seq::<char>::empty(),
    {
        Consumer { segmenter: Segmenter::new(), fragments: Ghost(Seq::empty()) }
    }

    /// Handles one generation event. A `Token` fragment is echoed verbatim
    /// and appended to the accumulator; if it crosses a sentence boundary the
    /// full accumulated text comes back as a chunk and the accumulator is
    /// cleared. `EndOfText` echoes nothing, emits no chunk and leaves the
    /// accumulator untouched.
    pub fn handle_event(&mut self, event: &GenerationEvent) -> (action: EventAction)
        requires
            old(self).wf(),
        ensures
            final(self).wf(),
            match event {
                GenerationEvent::Token(s) => {
                    &&& final(self).fragments() == old(self).fragments().push(s@)
                    &&& action.echo matches Some(e) && e@ == s@
                    &&& frag_ends_sentence(s@) ==> (action.chunk matches Some(c) && c@ == old(
                        self,
                    ).buffered() + s@)
                    &&& !frag_ends_sentence(s@) ==> action.chunk is None
                },
                GenerationEvent::EndOfText => {
                    &&& final(self).fragments() == old(self).fragments()
                    &&& action.echo is None
                    &&& action.chunk is None
                },
            },
    {
        match event {
            GenerationEvent::Token(s) => {
                let echo = s.clone();
                let chunk = self.segmenter.feed(s.as_str());
                proof {
                    lemma_segment_state_step(self.fragments@, s@);
                    self.fragments@ = self.fragments@.push(s@);
                }
                EventAction { echo: Some(echo), chunk }
            },
            GenerationEvent::EndOfText => EventAction { echo: None, chunk: None },
        }
    }

    /// Hands the residual accumulator contents out at the end of the pass,
    /// consuming the consumer.
    pub fn residual(self) -> (r: String)
        requires
            self.wf(),
        ensures
            r@ == segment_residual(self.fragments()),
    {
        self.segmenter.into_buffer()
    }
}

/// The outcome of feeding a whole sequence of generation events through the
/// consumer: the live-output echo, the emitted sentence chunks in emission
/// order, the residual accumulator contents, and whether the end-of-text
/// marker was seen.
pub struct PassOutput {
    pub echo: String,
    pub chunks: Vec<String>,
    pub residual: String,
    pub saw_end_of_text: bool,
}

/// Feeds `events`, in order, through a fresh Token Stream Consumer and
/// gathers everything it produces. The echo is exactly the concatenation of
/// all `Token` fragments, in order, with nothing reordered, duplicated or
/// dropped; the chunks and the residual are exactly what the sentence
/// boundary rule dictates.
pub fn consume_events(events: &Vec<GenerationEvent>) -> (out: PassOutput)
    ensures
        out.echo@ == concat_texts(token_texts(events@)),
        out.chunks@.map_values(|c: String| c@) == segment_chunks(token_texts(events@)),
        out.residual@ == segment_residual(token_texts(events@)),
        out.saw_end_of_text == has_end_of_text(events@),
{
    let mut consumer = Consumer::new();
    let mut echo = String::new();
    let mut chunks: Vec<String> = Vec::new();
    let mut saw_end: bool = false;
    let mut i: usize = 0;
    proof {
        assert(events@.take(0int) =~= Seq::<GenerationEvent>::empty());
    }
    while i < events.len()
        invariant
            i <= events.len(),
            consumer.wf(),
            consumer.fragments() == token_texts(events@.take(i as int)),
            echo@ == concat_texts(token_texts(events@.take(i as int))),
            chunks@.map_values(|c: String| c@) == segment_chunks(token_texts(events@.take(i as int))),
            saw_end == has_end_of_text(events@.take(i as int)),
        decreases events.len() - i,
    {
        let ghost prior_frags = consumer.fragments();
        let ghost prior_echo = echo@;
        let event = &events[i];
        let action = consumer.handle_event(event);
        if let Some(e) = action.echo {
            echo.append(e.as_str());
        }
        if let Some(c) = action.chunk {
            chunks.push(c);
        }
        if let GenerationEvent::EndOfText = event {
            saw_end = true;
        }
        i = i + 1;
        proof {
            let evs = events@.take(i as int);
            assert(evs.drop_last() == events@.take(i as int - 1));
            assert(evs.last() == events@[i as int - 1]);
            match events@[i as int - 1] {
                GenerationEvent::Token(s) => {
                    assert(token_texts(evs) == token_texts(evs.drop_last()).push(s@));
                    assert(token_texts(evs).drop_last() == prior_frags);
                    assert(concat_texts(token_texts(evs)) == prior_echo + s@);
                    lemma_segment_state_step(prior_frags, s@);
                    assert(chunks@.map_values(|c: String| c@) == segment_chunks(token_texts(evs)));
                },
                GenerationEvent::EndOfText => {
                    assert(token_texts(evs) == prior_frags);
                },
            }
            assert(has_end_of_text(events@.take(i as int)) == (has_end_of_text(
                events@.take(i as int - 1),
            ) || events@[i as int - 1] is EndOfText)) by {
                let a = events@.take(i as int - 1);
                let b = events@.take(i as int);
                assert forall|j: int| 0 <= j < a.len() && a[j] is EndOfText implies b[j]
                    is EndOfText by {}
                if has_end_of_text(b) {
                    let j = choose|j: int| 0 <= j < b.len() && b[j] is EndOfText;
                    if j < a.len() {
                        assert(a[j] is EndOfText);
                    }
                }
            }
        }
    }
    proof {
        assert(events@.take(events@.len() as int) == events@);
    }
    PassOutput { echo, chunks, residual: consumer.residual(), saw_end_of_text: saw_end }
}

/// Feeding one more fragment extends the emitted chunks by one chunk exactly
/// when the fragment crosses a sentence boundary, and otherwise leaves them
/// unchanged; the residual grows by the fragment or is cleared accordingly.
pub proof fn lemma_segment_state_step(frags: Seq<Seq<char>>, f: Seq<char>)
    ensures
        frag_ends_sentence(f) ==> {
            &&& segment_chunks(frags.push(f)) == segment_chunks(frags).push(
                segment_residual(frags) + f,
            )
            &&& segment_residual(frags.push(f)) == Seq::<char>::empty()
        },
        !frag_ends_sentence(f) ==> {
            &&& segment_chunks(frags.push(f)) == segment_chunks(frags)
            &&& segment_residual(frags.push(f)) == segment_residual(frags) + f
        },
{
    assert(frags.push(f).drop_last() == frags);
    assert(frags.push(f).last() == f);
}

} // verus!
