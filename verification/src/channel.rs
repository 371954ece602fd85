//! Narration hand-off: a single-producer/single-consumer, first-in-first-out
//! hand-off carrying sentence chunks from the generation side to the
//! narration worker, and the worker's one-utterance-at-a-time discipline.
//! Chunks cross by value; the receiving side gets them in exactly the order
//! they were sent.

use vstd::prelude::*;

verus! {

/// The hand-off queue of sentence chunks. `sent` is everything the
/// generation side ever put in, in order; `delivered` is the prefix of it
/// that the receiving side has already taken out.
pub struct NarrationChannel {
    pending: Vec<String>,
    delivered: Ghost<Seq<Seq<char>>>,
}

impl NarrationChannel {
    /// The chunks the receiving side has taken out so far, in order.
    pub closed spec fn delivered(&self) -> Seq<Seq<char>> {
        self.delivered@
    }

    /// The chunks sent but not yet taken out, in order.
    pub closed spec fn pending(&self) -> Seq<Seq<char>> {
        self.pending@.map_values(|c: String| c@)
    }

    /// Everything ever sent, in order: what was delivered, then what is
    /// still pending.
    pub open spec fn sent(&self) -> Seq<Seq<char>> {
        self.delivered() + self.pending()
    }

    /// A fresh channel: nothing sent, nothing delivered.
    pub fn new() -> (ch: NarrationChannel)
        ensures
            ch.sent() == Seq::<Seq<char>>::empty(),
            ch.delivered() == Seq::<Seq<char>>::empty(),
            ch.pending() == Seq::<Seq<char>>::empty(),
    {
        let ch = NarrationChannel { pending: Vec::new(), delivered: Ghost(Seq::empty()) };
        proof {
            assert(ch.sent() =~= Seq::<Seq<char>>::empty());
        }
        ch
    }

    /// How many chunks are pending.
    pub fn len(&self) -> (n: usize)
        ensures
            n == self.pending().len(),
    {
        self.pending.len()
    }

    /// The generation side transfers one sentence chunk into the channel.
    pub fn send(&mut self, chunk: String)
        ensures
            final(self).sent() == old(self).sent().push(chunk@),
            final(self).delivered() == old(self).delivered(),
            final(self).pending() == old(self).pending().push(chunk@),
    {
        self.pending.push(chunk);
        proof {
            assert(self.pending() =~= old(self).pending().push(chunk@));
            assert(self.sent() =~= old(self).sent().push(chunk@));
        }
    }

    /// The receiving side takes out the oldest pending chunk, if any. The
    /// set of chunks ever sent is unchanged; delivery happens in send order.
    pub fn recv(&mut self) -> (chunk: Option<String>)
        ensures
            final(self).sent() == old(self).sent(),
            old(self).pending().len() == 0 ==> {
                &&& chunk is None
                &&& final(self).delivered() == old(self).delivered()
                &&& final(self).pending() == old(self).pending()
            },
            old(self).pending().len() > 0 ==> {
                &&& chunk matches Some(c) && c@ == old(self).pending().first()
                &&& final(self).delivered() == old(self).delivered().push(
                    old(self).pending().first(),
                )
                &&& final(self).pending() == old(self).pending().drop_first()
            },
    {
        if self.pending.len() == 0 {
            None
        } else {
            let c = self.pending.remove(0);
            proof {
                self.delivered@ = self.delivered@.push(c@);
                assert(self.pending() =~= old(self).pending().drop_first());
                assert(self.sent() =~= old(self).sent());
            }
            Some(c)
        }
    }
}

/// Delivery order equals send order: at every point, what has been delivered
/// is exactly a prefix of what has been sent, with nothing reordered,
/// dropped or duplicated.
pub proof fn lemma_delivered_prefix_of_sent(ch: NarrationChannel)
    ensures
        ch.delivered().len() <= ch.sent().len(),
        ch.delivered() == ch.sent().take(ch.delivered().len() as int),
{
    assert(ch.delivered() =~= ch.sent().take(ch.delivered().len() as int));
}

/// The narration worker: speaks one utterance at a time, serially. An
/// utterance must audibly complete (`finish_utterance`) before the next one
/// may begin.
pub struct NarrationWorker {
    spoken: Vec<String>,
    in_flight: Option<String>,
}

impl NarrationWorker {
    /// The utterances spoken to completion so far, in order.
    pub closed spec fn spoken(&self) -> Seq<Seq<char>> {
        self.spoken@.map_values(|c: String| c@)
    }

    /// The utterance currently being spoken, if any: never more than one.
    pub closed spec fn in_flight(&self) -> Option<Seq<char>> {
        match self.in_flight {
            Some(c) => Some(c@),
            None => None,
        }
    }

    /// A fresh worker: nothing spoken, nothing in flight.
    pub fn new() -> (w: NarrationWorker)
        ensures
            w.spoken() == Seq::<Seq<char>>::empty(),
            w.in_flight() is None,
    {
        let w = NarrationWorker { spoken: Vec::new(), in_flight: None };
        proof {
            assert(w.spoken() =~= Seq::<Seq<char>>::empty());
        }
        w
    }

    /// Starts speaking `chunk`. The previous utterance must have completed:
    /// utterances never overlap.
    pub fn begin_utterance(&mut self, chunk: String)
        requires
            old(self).in_flight() is None,
        ensures
            final(self).in_flight() == Some(chunk@),
            final(self).spoken() == old(self).spoken(),
    {
        self.in_flight = Some(chunk);
    }

    /// Records that the in-flight utterance has audibly completed, making
    /// room for the next one.
    pub fn finish_utterance(&mut self)
        requires
            old(self).in_flight() is Some,
        ensures
            final(self).in_flight() is None,
            final(self).spoken() == old(self).spoken().push(old(self).in_flight()->0),
    {
        let c = self.in_flight.take().unwrap();
        self.spoken.push(c);
        proof {
            assert(self.spoken() =~= old(self).spoken().push(old(self).in_flight()->0));
        }
    }

    /// Hands out everything spoken so far, in order, consuming the worker.
    pub fn into_spoken(self) -> (spoken: Vec<String>)
        ensures
            spoken@.map_values(|c: String| c@) == self.spoken(),
    {
        self.spoken
    }
}

/// The narration worker's loop, minus the speech call itself: drain the
/// channel to exhaustion, speaking each chunk to completion before taking
/// the next. The worker ends up having spoken exactly the pending chunks, in
/// the order they were sent.
pub fn drain_in_order(ch: &mut NarrationChannel, w: &mut NarrationWorker)
    requires
        old(w).in_flight() is None,
    ensures
        final(ch).sent() == old(ch).sent(),
        final(ch).pending() == Seq::<Seq<char>>::empty(),
        final(w).in_flight() is None,
        final(w).spoken() == old(w).spoken() + old(ch).pending(),
{
    let ghost init_sent = ch.sent();
    let ghost init_delivered = ch.delivered();
    let ghost init_pending = ch.pending();
    let ghost init_spoken = w.spoken();
    while 0 < ch.len()
        invariant
            w.in_flight() is None,
            ch.sent() == init_sent,
            ch.delivered() + ch.pending() == init_delivered + init_pending,
            init_delivered.len() <= ch.delivered().len(),
            w.spoken() == init_spoken + ch.delivered().skip(init_delivered.len() as int),
        decreases ch.pending().len(),
    {
        let next = ch.recv();
        if let Some(c) = next {
            w.begin_utterance(c);
            w.finish_utterance();
            proof {
                assert(ch.delivered().skip(init_delivered.len() as int) =~= ch.delivered().skip(
                    init_delivered.len() as int,
                ));
                assert(w.spoken() =~= init_spoken + ch.delivered().skip(
                    init_delivered.len() as int,
                ));
            }
        }
    }
    proof {
        assert(ch.pending() =~= Seq::<Seq<char>>::empty());
        assert(ch.delivered().skip(init_delivered.len() as int) =~= init_pending);
    }
}

} // verus!
