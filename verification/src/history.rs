//! Conversation history and the dialogue/session state machine: prompt
//! construction from the history, and the reaction to each session outcome
//! (append the turn's utterances on success, discard partial output and
//! retry on context exhaustion or any other generation failure).

use vstd::prelude::*;

verus! {

/// Whitespace for the purposes of trimming a residual buffer.
pub open spec fn spec_is_trim_whitespace(c: char) -> bool {
    c == ' ' || c == '\t' || c == '\n' || c == '\r'
}

/// Decides whether `c` is trimmed away at the edges of a residual buffer.
#[verifier::when_used_as_spec(spec_is_trim_whitespace)]
pub fn is_trim_whitespace(c: char) -> (r: bool)
    ensures
        r == spec_is_trim_whitespace(c),
{
    c == ' ' || c == '\t' || c == '\n' || c == '\r'
}

/// `s` with leading whitespace removed.
pub open spec fn trim_start_spec(s: Seq<char>) -> Seq<char>
    decreases s.len(),
{
    if s.len() > 0 && spec_is_trim_whitespace(s.first()) {
        trim_start_spec(s.drop_first())
    } else {
        s
    }
}

/// `s` with trailing whitespace removed.
pub open spec fn trim_end_spec(s: Seq<char>) -> Seq<char>
    decreases s.len(),
{
    if s.len() > 0 && spec_is_trim_whitespace(s.last()) {
        trim_end_spec(s.drop_last())
    } else {
        s
    }
}

/// `s` with both leading and trailing whitespace removed.
pub open spec fn trim_spec(s: Seq<char>) -> Seq<char> {
    trim_end_spec(trim_start_spec(s))
}

proof fn lemma_trim_start_at(s: Seq<char>, i: int)
    requires
        0 <= i <= s.len(),
        forall|k: int| 0 <= k < i ==> spec_is_trim_whitespace(s[k]),
        i == s.len() || !spec_is_trim_whitespace(s[i]),
    ensures
        trim_start_spec(s) == s.skip(i),
    decreases i,
{
    if i == 0 {
        assert(s.skip(0) =~= s);
    } else {
        lemma_trim_start_at(s.drop_first(), i - 1);
        assert(s.drop_first().skip(i - 1) =~= s.skip(i));
    }
}

proof fn lemma_trim_end_at(s: Seq<char>, j: int)
    requires
        0 <= j <= s.len(),
        forall|k: int| j <= k < s.len() ==> spec_is_trim_whitespace(s[k]),
        j == 0 || !spec_is_trim_whitespace(s[j - 1]),
    ensures
        trim_end_spec(s) == s.take(j),
    decreases s.len(),
{
    if j == s.len() {
        assert(s.take(j) =~= s);
    } else {
        assert(spec_is_trim_whitespace(s.last()));
        lemma_trim_end_at(s.drop_last(), j);
        assert(s.drop_last().take(j) =~= s.take(j));
    }
}

/// Removes leading and trailing whitespace from `s`.
pub fn trim_whitespace(s: &str) -> (r: String)
    ensures
        r@ == trim_spec(s@),
{
    let len = s.unicode_len();
    let mut start: usize = 0;
    loop
        invariant
            start <= len,
            len == s@.len(),
            forall|k: int| 0 <= k < start ==> spec_is_trim_whitespace(s@[k]),
        ensures
            start <= len,
            forall|k: int| 0 <= k < start ==> spec_is_trim_whitespace(s@[k]),
            start == len || !spec_is_trim_whitespace(s@[start as int]),
        decreases len - start,
    {
        if start == len {
            break ;
        }
        if !is_trim_whitespace(s.get_char(start)) {
            break ;
        }
        start = start + 1;
    }
    let mut end: usize = len;
    loop
        invariant
            start <= end <= len,
            len == s@.len(),
            forall|k: int| end <= k < len ==> spec_is_trim_whitespace(s@[k]),
        ensures
            start <= end <= len,
            forall|k: int| end <= k < len ==> spec_is_trim_whitespace(s@[k]),
            end == start || !spec_is_trim_whitespace(s@[end - 1]),
        decreases end,
    {
        if end == start {
            break ;
        }
        if !is_trim_whitespace(s.get_char(end - 1)) {
            break ;
        }
        end = end - 1;
    }
    proof {
        lemma_trim_start_at(s@, start as int);
        lemma_trim_end_at(s@.skip(start as int), end - start);
        assert(s@.skip(start as int).take(end - start) =~= s@.subrange(
            start as int,
            end as int,
        ));
    }
    let part = s.substring_char(start, end);
    part.to_owned()
}

/// `s` split at every newline: one segment per newline-delimited run, with
/// `n` newlines always yielding `n + 1` segments (possibly empty ones).
pub open spec fn split_lines_spec(s: Seq<char>) -> Seq<Seq<char>>
    decreases s.len(),
{
    if s.len() == 0 {
        seq![Seq::<char>::empty()]
    } else if s.last() == '\n' {
        split_lines_spec(s.drop_last()).push(Seq::empty())
    } else {
        let prior = split_lines_spec(s.drop_last());
        prior.drop_last().push(prior.last().push(s.last()))
    }
}

/// Splitting always yields at least one segment.
pub proof fn lemma_split_lines_nonempty(s: Seq<char>)
    ensures
        split_lines_spec(s).len() >= 1,
    decreases s.len(),
{
    if s.len() > 0 {
        lemma_split_lines_nonempty(s.drop_last());
    }
}

/// Splits `s` into its newline-delimited segments, in order.
pub fn split_lines(s: &str) -> (parts: Vec<String>)
    ensures
        parts@.map_values(|p: String| p@) == split_lines_spec(s@),
{
    let len = s.unicode_len();
    let mut parts: Vec<String> = Vec::new();
    let mut seg_start: usize = 0;
    let mut i: usize = 0;
    proof {
        assert(s@.subrange(0int, 0int) =~= Seq::<char>::empty());
        assert(parts@.map_values(|p: String| p@).push(s@.subrange(0int, 0int)) =~~= split_lines_spec(
            s@.take(0int),
        ));
    }
    while i < len
        invariant
            seg_start <= i <= len,
            len == s@.len(),
            parts@.map_values(|p: String| p@).push(
                s@.subrange(seg_start as int, i as int),
            ) == split_lines_spec(s@.take(i as int)),
        decreases len - i,
    {
        let ghost prior_parts = parts@.map_values(|p: String| p@);
        let ghost prior_seg = s@.subrange(seg_start as int, i as int);
        let c = s.get_char(i);
        proof {
            assert(s@.take(i as int + 1).drop_last() == s@.take(i as int));
            assert(s@.take(i as int + 1).last() == s@[i as int]);
            lemma_split_lines_nonempty(s@.take(i as int));
        }
        if c == '\n' {
            let seg = s.substring_char(seg_start, i);
            parts.push(seg.to_owned());
            seg_start = i + 1;
            i = i + 1;
            proof {
                assert(parts@.map_values(|p: String| p@) =~= prior_parts.push(prior_seg));
                assert(s@.subrange(seg_start as int, i as int) =~= Seq::<char>::empty());
                assert(split_lines_spec(s@.take(i as int)) == split_lines_spec(
                    s@.take(i as int - 1),
                ).push(Seq::empty()));
                assert(parts@.map_values(|p: String| p@).push(
                    s@.subrange(seg_start as int, i as int),
                ) =~= split_lines_spec(s@.take(i as int)));
            }
        } else {
            i = i + 1;
            proof {
                let whole = split_lines_spec(s@.take(i as int));
                let prior_split = split_lines_spec(s@.take(i as int - 1));
                assert(prior_split == prior_parts.push(prior_seg));
                assert(prior_split.drop_last() =~= prior_parts);
                assert(prior_split.last() == prior_seg);
                assert(whole == prior_parts.push(prior_seg.push(s@[i as int - 1])));
                assert(s@.subrange(seg_start as int, i as int) =~= prior_seg.push(
                    s@[i as int - 1],
                ));
                assert(parts@.map_values(|p: String| p@).push(
                    s@.subrange(seg_start as int, i as int),
                ) =~= whole);
            }
        }
    }
    let last_seg = s.substring_char(seg_start, len);
    parts.push(last_seg.to_owned());
    proof {
        assert(s@.take(len as int) == s@);
        assert(parts@.map_values(|p: String| p@) =~= split_lines_spec(s@));
    }
    parts
}

/// The utterances a completed pass contributes to the history: the residual
/// buffer, trimmed of leading and trailing whitespace, split into one
/// logical utterance per newline-delimited segment.
pub open spec fn completed_utterances(residual: Seq<char>) -> Seq<Seq<char>> {
    split_lines_spec(trim_spec(residual))
}

/// Statistics reported by a completed generation pass.
#[derive(Clone, Copy)]
pub struct SessionStats {
    /// Time spent feeding the prompt, in milliseconds.
    pub feed_prompt_duration_ms: u64,
    /// Number of prompt tokens fed.
    pub prompt_tokens: u64,
    /// Time spent predicting, in milliseconds.
    pub predict_duration_ms: u64,
    /// Number of tokens predicted.
    pub predict_tokens: u64,
}

/// The terminal result of one generation pass.
#[derive(Clone, Copy)]
pub enum SessionOutcome {
    /// The pass ran to completion and reports its statistics.
    Completed(SessionStats),
    /// The context window filled up before the pass could complete.
    ContextExhausted,
    /// Any other generation failure.
    Failed,
}

/// The prompt derived from a conversation history: the instructional
/// preamble, a newline, then the last two utterances (or the single one
/// past the preamble, or nothing, when fewer exist), newline-joined.
pub open spec fn prompt_spec(history: Seq<Seq<char>>) -> Seq<char> {
    if history.len() >= 3 {
        history[0] + seq!['\n'] + history[history.len() - 2] + seq!['\n'] + history[history.len()
            - 1]
    } else if history.len() == 2 {
        history[0] + seq!['\n'] + history[1]
    } else {
        history[0] + seq!['\n']
    }
}

/// The conversation history: an ordered sequence of utterances whose first
/// element is always the fixed instructional preamble. It grows only by
/// appending the utterances of a successful generation pass.
pub struct Conversation {
    utterances: Vec<String>,
}

impl View for Conversation {
    type V = Seq<Seq<char>>;

    /// The utterances, in insertion order.
    closed spec fn view(&self) -> Seq<Seq<char>> {
        self.utterances@.map_values(|u: String| u@)
    }
}

impl Conversation {
    /// A history never loses its preamble.
    pub open spec fn wf(&self) -> bool {
        self@.len() >= 1
    }

    /// A fresh history holding only the instructional preamble.
    pub fn new(preamble: String) -> (c: Conversation)
        ensures
            c.wf(),
            c@ == seq![preamble@],
    {
        let mut utterances: Vec<String> = Vec::new();
        utterances.push(preamble);
        let c = Conversation { utterances };
        proof {
            assert(c@ =~= seq![preamble@]);
        }
        c
    }

    /// How many utterances the history holds.
    pub fn len(&self) -> (n: usize)
        ensures
            n == self@.len(),
    {
        self.utterances.len()
    }

    /// The utterance at position `i`.
    pub fn utterance(&self, i: usize) -> (u: &String)
        requires
            i < self@.len(),
        ensures
            u@ == self@[i as int],
    {
        &self.utterances[i]
    }

    /// Appends one utterance (used for the opening exchanges that seed the
    /// dialogue).
    pub fn append_utterance(&mut self, utterance: String)
        ensures
            final(self)@ == old(self)@.push(utterance@),
    {
        self.utterances.push(utterance);
        proof {
            assert(self@ =~= old(self)@.push(utterance@));
        }
    }

    /// Materializes the prompt for the next turn: the preamble joined by
    /// newlines with the most recent dialogue. A prompt is never empty and
    /// always begins with the preamble.
    pub fn build_prompt(&self) -> (p: String)
        requires
            self.wf(),
        ensures
            p@ == prompt_spec(self@),
    {
        proof {
            reveal_strlit("\n");
            assert("\n"@ =~= seq!['\n']);
        }
        let mut p = self.utterances[0].clone();
        p.append("\n");
        let n = self.utterances.len();
        if n >= 3 {
            p.append(self.utterances[n - 2].as_str());
            p.append("\n");
            p.append(self.utterances[n - 1].as_str());
            proof {
                assert(p@ =~= prompt_spec(self@));
            }
        } else if n == 2 {
            p.append(self.utterances[1].as_str());
            proof {
                assert(p@ =~= prompt_spec(self@));
            }
        } else {
            proof {
                assert(p@ =~= prompt_spec(self@));
            }
        }
        p
    }

    /// Interprets the terminal outcome of a generation pass. On
    /// `Completed`, the residual buffer is trimmed, split into
    /// newline-delimited utterances and appended to the history. On
    /// `ContextExhausted` or `Failed`, the turn's partial output is
    /// discarded and the history is left completely unchanged, so the next
    /// turn retries with the identical prompt.
    pub fn finish_turn(&mut self, outcome: &SessionOutcome, residual: &str)
        ensures
            match outcome {
                SessionOutcome::Completed(_) => final(self)@ == old(self)@ + completed_utterances(
                    residual@,
                ),
                _ => final(self)@ == old(self)@,
            },
            old(self).wf() ==> final(self).wf(),
    {
        match outcome {
            SessionOutcome::Completed(_) => {
                let trimmed = trim_whitespace(residual);
                let segments = split_lines(trimmed.as_str());
                let ghost prior = self@;
                let ghost segs = segments@.map_values(|p: String| p@);
                let mut k: usize = 0;
                proof {
                    assert(self@ =~= prior + segs.take(0int));
                }
                while k < segments.len()
                    invariant
                        k <= segments.len(),
                        segs == segments@.map_values(|p: String| p@),
                        self@ == prior + segs.take(k as int),
                    decreases segments.len() - k,
                {
                    let ghost before = self@;
                    let next = segments[k].clone();
                    proof {
                        assert(next@ == segs[k as int]);
                    }
                    self.utterances.push(next);
                    proof {
                        assert(self@ =~= before.push(next@));
                        assert((prior + segs.take(k as int)).push(segs[k as int]) =~= prior
                            + segs.take(k as int + 1));
                    }
                    k = k + 1;
                }
                proof {
                    assert(segs.take(segments@.len() as int) == segs);
                    assert(self@ =~= prior + completed_utterances(residual@));
                }
            },
            SessionOutcome::ContextExhausted => {
            },
            SessionOutcome::Failed => {
            },
        }
    }
}

/// Where the dialogue loop goes after a session outcome: always back to the
/// start of a fresh turn — success continues the open-ended dialogue, and
/// both failure outcomes retry immediately with the history as it stands.
pub enum DialoguePhase {
    /// About to build a prompt and open a fresh per-turn session.
    StartTurn,
}

/// The dialogue state machine's transition on a terminal session outcome:
/// every outcome leads back to `StartTurn` (retry-forever, no backoff).
pub fn next_phase(outcome: &SessionOutcome) -> (p: DialoguePhase)
    ensures
        p is StartTurn,
{
    match outcome {
        SessionOutcome::Completed(_) => DialoguePhase::StartTurn,
        SessionOutcome::ContextExhausted => DialoguePhase::StartTurn,
        SessionOutcome::Failed => DialoguePhase::StartTurn,
    }
}

/// A context-exhausted (or otherwise failed) pass leaves the history
/// unchanged, so the retry turn builds the identical prompt.
pub proof fn lemma_retry_prompt_identical(before: Seq<Seq<char>>, after: Seq<Seq<char>>)
    requires
        before == after,
    ensures
        prompt_spec(before) == prompt_spec(after),
{
}

} // verus!
