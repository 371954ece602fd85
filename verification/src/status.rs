//! The lifecycle status lines the dialogue loop prints: session start with
//! its seed, the end-of-pass marker, completion statistics, and the two
//! recoverable failure conditions. Numbers are rendered in decimal by the
//! library itself.

use vstd::prelude::*;

use crate::history::{SessionOutcome, SessionStats};

verus! {

/// The character for one decimal digit value.
pub open spec fn spec_digit_char(d: nat) -> char {
    if d == 0 {
        '0'
    } else if d == 1 {
        '1'
    } else if d == 2 {
        '2'
    } else if d == 3 {
        '3'
    } else if d == 4 {
        '4'
    } else if d == 5 {
        '5'
    } else if d == 6 {
        '6'
    } else if d == 7 {
        '7'
    } else if d == 8 {
        '8'
    } else {
        '9'
    }
}

/// The decimal digit characters of `n`, most significant first, with no
/// leading zeros (`0` itself is the single character `0`).
pub open spec fn decimal_digits(n: nat) -> Seq<char>
    decreases n,
{
    if n < 10 {
        seq![spec_digit_char(n)]
    } else {
        decimal_digits(n / 10).push(spec_digit_char(n % 10))
    }
}

fn digit_str(d: u64) -> (r: String)
    requires
        d < 10,
    ensures
        r@ == seq![spec_digit_char(d as nat)],
{
    if d == 0 {
        let r = String::from_str("0");
        proof {
            reveal_strlit("0");
            assert(r@ =~= seq![spec_digit_char(d as nat)]);
        }
        r
    } else if d == 1 {
        let r = String::from_str("1");
        proof {
            reveal_strlit("1");
            assert(r@ =~= seq![spec_digit_char(d as nat)]);
        }
        r
    } else if d == 2 {
        let r = String::from_str("2");
        proof {
            reveal_strlit("2");
            assert(r@ =~= seq![spec_digit_char(d as nat)]);
        }
        r
    } else if d == 3 {
        let r = String::from_str("3");
        proof {
            reveal_strlit("3");
            assert(r@ =~= seq![spec_digit_char(d as nat)]);
        }
        r
    } else if d == 4 {
        let r = String::from_str("4");
        proof {
            reveal_strlit("4");
            assert(r@ =~= seq![spec_digit_char(d as nat)]);
        }
        r
    } else if d == 5 {
        let r = String::from_str("5");
        proof {
            reveal_strlit("5");
            assert(r@ =~= seq![spec_digit_char(d as nat)]);
        }
        r
    } else if d == 6 {
        let r = String::from_str("6");
        proof {
            reveal_strlit("6");
            assert(r@ =~= seq![spec_digit_char(d as nat)]);
        }
        r
    } else if d == 7 {
        let r = String::from_str("7");
        proof {
            reveal_strlit("7");
            assert(r@ =~= seq![spec_digit_char(d as nat)]);
        }
        r
    } else if d == 8 {
        let r = String::from_str("8");
        proof {
            reveal_strlit("8");
            assert(r@ =~= seq![spec_digit_char(d as nat)]);
        }
        r
    } else {
        let r = String::from_str("9");
        proof {
            reveal_strlit("9");
            assert(r@ =~= seq![spec_digit_char(d as nat)]);
        }
        r
    }
}

/// Renders `n` in decimal.
pub fn format_u64(n: u64) -> (r: String)
    ensures
        r@ == decimal_digits(n as nat),
    decreases n,
{
    if n < 10 {
        digit_str(n)
    } else {
        let mut r = format_u64(n / 10);
        let last = digit_str(n % 10);
        r.append(last.as_str());
        proof {
            assert(r@ =~= decimal_digits(n as nat));
        }
        r
    }
}

/// The line announcing a fresh session and the seed it will use.
pub open spec fn session_start_message_spec(seed: u64) -> Seq<char> {
    "[Starting new session... With seed: "@ + decimal_digits(seed as nat) + "]"@
}

/// Builds the session-start line for `seed`.
pub fn session_start_message(seed: u64) -> (m: String)
    ensures
        m@ == session_start_message_spec(seed),
{
    let mut m = String::from_str("[Starting new session... With seed: ");
    let digits = format_u64(seed);
    m.append(digits.as_str());
    m.append("]");
    m
}

/// The end-of-pass marker emitted when the model signals end of text.
pub fn end_of_text_message() -> (m: String)
    ensures
        m@ == "[End of text]"@,
{
    String::from_str("[End of text]")
}

/// The one-line human-readable status printed for each session outcome:
/// completion statistics for a completed pass, a coarse classification for
/// the two recoverable failures.
pub open spec fn outcome_message_spec(outcome: SessionOutcome) -> Seq<char> {
    match outcome {
        SessionOutcome::Completed(st) => "[Session finished with status: feed_prompt_duration "@
            + decimal_digits(st.feed_prompt_duration_ms as nat) + "ms, prompt_tokens "@
            + decimal_digits(st.prompt_tokens as nat) + ", predict_duration "@ + decimal_digits(
            st.predict_duration_ms as nat,
        ) + "ms, predict_tokens "@ + decimal_digits(st.predict_tokens as nat) + "]"@,
        SessionOutcome::ContextExhausted => "[Context window full, stopping inference.]"@,
        SessionOutcome::Failed => "[An error occurred during inference.]"@,
    }
}

/// Builds the status line for `outcome`.
pub fn outcome_message(outcome: &SessionOutcome) -> (m: String)
    ensures
        m@ == outcome_message_spec(*outcome),
{
    match outcome {
        SessionOutcome::Completed(st) => {
            let mut m = String::from_str("[Session finished with status: feed_prompt_duration ");
            let feed = format_u64(st.feed_prompt_duration_ms);
            m.append(feed.as_str());
            m.append("ms, prompt_tokens ");
            let ptok = format_u64(st.prompt_tokens);
            m.append(ptok.as_str());
            m.append(", predict_duration ");
            let pdur = format_u64(st.predict_duration_ms);
            m.append(pdur.as_str());
            m.append("ms, predict_tokens ");
            let ntok = format_u64(st.predict_tokens);
            m.append(ntok.as_str());
            m.append("]");
            m
        },
        SessionOutcome::ContextExhausted => String::from_str(
            "[Context window full, stopping inference.]",
        ),
        SessionOutcome::Failed => String::from_str("[An error occurred during inference.]"),
    }
}

} // verus!
