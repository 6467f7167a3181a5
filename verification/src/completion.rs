//! The policy of the completion client: how often a request is attempted,
//! how long to wait before each attempt, and what a response is read as.
//!
//! The client itself lives with the caller. It reports each outcome here and
//! is told what to do next.

use vstd::prelude::*;

verus! {

/// Attempts at one request before its failure is final.
pub const MAX_TRANSPORT_ATTEMPTS: u32 = 3;

/// Seconds after which a request is given up.
pub const REQUEST_TIMEOUT_SECS: u64 = 120;

/// Seconds after which the attempt to connect is given up.
pub const CONNECT_TIMEOUT_SECS: u64 = 30;

/// Two to the power of `exponent`.
pub open spec fn power_of_two(exponent: nat) -> nat
    decreases exponent,
{
    if exponent == 0 {
        1
    } else {
        2 * power_of_two((exponent - 1) as nat)
    }
}

/// The seconds to wait before the attempt with the zero-based index
/// `attempt` at a request: none before the first, then two to the power of
/// the index.
pub open spec fn backoff_secs(attempt: nat) -> nat {
    if attempt == 0 {
        0
    } else {
        power_of_two(attempt)
    }
}

/// The waits before the second and the third attempt are two and four
/// seconds.
pub proof fn lemma_backoff_values()
    ensures
        backoff_secs(0) == 0,
        backoff_secs(1) == 2,
        backoff_secs(2) == 4,
{
    reveal_with_fuel(power_of_two, 3);
}

/// The seconds to wait before the attempt with the zero-based index
/// `attempt` at a request.
pub fn backoff_delay(attempt: u32) -> (secs: u64)
    requires
        attempt < MAX_TRANSPORT_ATTEMPTS,
    ensures
        secs == backoff_secs(attempt as nat),
{
    if attempt == 0 {
        return 0;
    }
    let mut secs: u64 = 1;
    let mut doubled: u32 = 0;
    while doubled < attempt
        invariant
            doubled <= attempt < MAX_TRANSPORT_ATTEMPTS,
            secs == power_of_two(doubled as nat),
            secs <= 4,
        decreases attempt - doubled,
    {
        proof {
            reveal_with_fuel(power_of_two, 4);
        }
        secs = secs * 2;
        doubled = doubled + 1;
    }
    secs
}

/// What to do after a failed attempt.
#[derive(Debug, Clone, Copy, PartialEq, Eq, Structural)]
pub enum Verdict {
    /// Wait `delay_secs` seconds and send the request again; it is then the
    /// attempt with the zero-based index `attempt`.
    Retry { delay_secs: u64, attempt: u32 },
    /// The failure is final.
    GiveUp,
}

/// The verdict on a failure after `failures` earlier ones.
pub open spec fn verdict_after(failures: nat) -> Verdict {
    if failures + 1 < MAX_TRANSPORT_ATTEMPTS {
        Verdict::Retry {
            delay_secs: backoff_secs(failures + 1) as u64,
            attempt: (failures + 1) as u32,
        }
    } else {
        Verdict::GiveUp
    }
}

/// Counts the failed attempts at one request.
#[derive(Debug)]
pub struct CompletionAttempts {
    failures: u32,
}

impl CompletionAttempts {
    #[verifier::type_invariant]
    spec fn attempt_left(self) -> bool {
        self.failures < MAX_TRANSPORT_ATTEMPTS
    }

    /// The failed attempts so far.
    pub closed spec fn failures(self) -> nat {
        self.failures as nat
    }

    /// A request that has not been attempted yet.
    pub fn new() -> (attempts: Self)
        ensures
            attempts.failures() == 0,
    {
        CompletionAttempts { failures: 0 }
    }

    /// The number of failed attempts so far.
    pub fn failed(&self) -> (count: u32)
        ensures
            count == self.failures(),
            count < MAX_TRANSPORT_ATTEMPTS,
    {
        proof {
            use_type_invariant(self);
        }
        self.failures
    }

    /// Takes note of a failed attempt and says whether to try again. The
    /// count stands still once the failure is final.
    pub fn record_failure(&mut self) -> (verdict: Verdict)
        ensures
            verdict == verdict_after(old(self).failures()),
            final(self).failures() == (if verdict is Retry {
                old(self).failures() + 1
            } else {
                old(self).failures()
            }),
    {
        proof {
            use_type_invariant(&*self);
        }
        if self.failures + 1 < MAX_TRANSPORT_ATTEMPTS {
            self.failures = self.failures + 1;
            Verdict::Retry { delay_secs: backoff_delay(self.failures), attempt: self.failures }
        } else {
            Verdict::GiveUp
        }
    }
}

/// The text of a response, given the content of each of its choices: the
/// content of the first choice, or nothing where the response has no choice
/// or its first choice has no content.
pub open spec fn first_content(choices: Seq<Option<String>>) -> Seq<char> {
    if choices.len() > 0 {
        match choices[0] {
            Some(content) => content@,
            None => Seq::empty(),
        }
    } else {
        Seq::empty()
    }
}

/// The text of a response, given the content of each of its choices.
pub fn first_choice_content(choices: Vec<Option<String>>) -> (text: String)
    ensures
        text@ == first_content(choices@),
{
    if choices.len() > 0 {
        match &choices[0] {
            Some(content) => content.clone(),
            None => String::new(),
        }
    } else {
        String::new()
    }
}

} // verus!
