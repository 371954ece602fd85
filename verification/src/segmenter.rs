//! Sentence-boundary segmentation: a stateful accumulator that collects text
//! fragments and emits a complete sentence chunk whenever the fragment just
//! appended ends in terminal punctuation (`.`, `?`, `!`).

use vstd::prelude::*;

verus! {

/// A character closes a sentence exactly when it is `.`, `?` or `!`.
pub open spec fn spec_is_sentence_delimiter(c: char) -> bool {
    c == '.' || c == '?' || c == '!'
}

/// Decides whether `c` is sentence-terminal punctuation.
#[verifier::when_used_as_spec(spec_is_sentence_delimiter)]
pub fn is_sentence_delimiter(c: char) -> (r: bool)
    ensures
        r == spec_is_sentence_delimiter(c),
{
    c == '.' || c == '?' || c == '!'
}

/// A fragment crosses a sentence boundary exactly when it is non-empty and
/// its last character is sentence-terminal punctuation. Boundary detection is
/// fragment-granular: only the last character of each appended fragment is
/// ever tested.
pub open spec fn frag_ends_sentence(frag: Seq<char>) -> bool {
    frag.len() > 0 && spec_is_sentence_delimiter(frag.last())
}

/// The chunks emitted and the residual buffer left after feeding `frags`, in
/// order, into a segmenter that starts with an empty accumulator.
pub open spec fn segment_state(frags: Seq<Seq<char>>) -> (Seq<Seq<char>>, Seq<char>)
    decreases frags.len(),
{
    if frags.len() == 0 {
        (Seq::empty(), Seq::empty())
    } else {
        let prior = segment_state(frags.drop_last());
        let f = frags.last();
        if frag_ends_sentence(f) {
            (prior.0.push(prior.1 + f), Seq::empty())
        } else {
            (prior.0, prior.1 + f)
        }
    }
}

/// The sentence chunks emitted for the fragment sequence `frags`.
pub open spec fn segment_chunks(frags: Seq<Seq<char>>) -> Seq<Seq<char>> {
    segment_state(frags).0
}

/// The unterminated remainder left in the accumulator after `frags`.
pub open spec fn segment_residual(frags: Seq<Seq<char>>) -> Seq<char> {
    segment_state(frags).1
}

/// The concatenation, in order, of a sequence of texts.
pub open spec fn concat_texts(texts: Seq<Seq<char>>) -> Seq<char>
    decreases texts.len(),
{
    if texts.len() == 0 {
        Seq::empty()
    } else {
        concat_texts(texts.drop_last()) + texts.last()
    }
}

/// The stateful sentence segmenter: an accumulator buffer that grows by one
/// fragment at a time and is drained whenever a sentence boundary is crossed.
pub struct Segmenter {
    buffer: String,
}

impl View for Segmenter {
    type V = Seq<char>;

    /// The current accumulator contents.
    closed spec fn view(&self) -> Seq<char> {
        self.buffer@
    }
}

impl Segmenter {
    /// A fresh segmenter with an empty accumulator.
    pub fn new() -> (s: Segmenter)
        ensures
            s@ == Seq::<char>::empty(),
    {
        Segmenter { buffer: String::new() }
    }

    /// Appends `fragment` to the accumulator; if the fragment's last character
    /// is sentence-terminal punctuation, hands back the full accumulated text
    /// as a sentence chunk and clears the accumulator.
    pub fn feed(&mut self, fragment: &str) -> (chunk: Option<String>)
        ensures
            frag_ends_sentence(fragment@) ==> {
                &&& chunk matches Some(c) && c@ == old(self)@ + fragment@
                &&& final(self)@ == Seq::<char>::empty()
            },
            !frag_ends_sentence(fragment@) ==> {
                &&& chunk is None
                &&& final(self)@ == old(self)@ + fragment@
            },
    {
        self.buffer.append(fragment);
        let len = fragment.unicode_len();
        if len > 0 && is_sentence_delimiter(fragment.get_char(len - 1)) {
            let out = self.buffer.clone();
            self.buffer = String::new();
            Some(out)
        } else {
            None
        }
    }

    /// Hands the accumulator contents out, consuming the segmenter; used at
    /// the end of a generation pass to collect the unterminated remainder.
    pub fn into_buffer(self) -> (r: String)
        ensures
            r@ == self@,
    {
        self.buffer
    }
}

/// The emitted sentence chunks, concatenated in emission order, followed by
/// the unterminated remainder, reproduce the full accumulated text exactly:
/// no characters are lost or duplicated across chunk boundaries.
pub proof fn lemma_chunks_partition_text(frags: Seq<Seq<char>>)
    ensures
        concat_texts(segment_chunks(frags)) + segment_residual(frags) == concat_texts(frags),
    decreases frags.len(),
{
    if frags.len() == 0 {
        assert(concat_texts(segment_chunks(frags)) + segment_residual(frags) =~= concat_texts(
            frags,
        ));
    } else {
        lemma_chunks_partition_text(frags.drop_last());
        let f = frags.last();
        let prior_chunks = segment_chunks(frags.drop_last());
        let prior_residual = segment_residual(frags.drop_last());
        if frag_ends_sentence(f) {
            assert(segment_chunks(frags) == prior_chunks.push(prior_residual + f));
            assert(segment_chunks(frags).drop_last() == prior_chunks);
            assert(segment_chunks(frags).last() == prior_residual + f);
            assert(concat_texts(segment_chunks(frags)) == concat_texts(prior_chunks) + (
            prior_residual + f));
            assert(concat_texts(segment_chunks(frags)) + segment_residual(frags) =~= concat_texts(
                frags,
            ));
        } else {
            assert(concat_texts(segment_chunks(frags)) + segment_residual(frags) =~= concat_texts(
                frags,
            ));
        }
    }
}

/// Determinism of the boundary rule, hence idempotence of segmentation: the
/// emitted chunks and the remainder are a function of the fragment sequence
/// alone, so a second, separate pass over the same fragments emits the same
/// sentence chunks in the same order.
pub proof fn lemma_segmentation_deterministic(first_pass: Seq<Seq<char>>, second_pass: Seq<Seq<char>>)
    requires
        first_pass == second_pass,
    ensures
        segment_chunks(first_pass) == segment_chunks(second_pass),
        segment_residual(first_pass) == segment_residual(second_pass),
{
}

} // verus!
