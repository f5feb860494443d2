//! Retrying a failing request with exponential backoff.
//!
//! The caller runs the loop: it asks [`Retry::next_action`] before every
//! attempt (and once more after the last one), makes the request when told to,
//! and sleeps for [`Retry::backoff`] after a failure.
use vstd::prelude::*;

verus! {

/// How often a request is tried before giving up.
pub const MAX_RETRY_ATTEMPTS: u32 = 5;

/// How long to wait after the first failed attempt, in milliseconds.
pub const INITIAL_RETRY_DELAY_MS: u64 = 500;

/// Two to the power of `n`.
pub open spec fn pow2(n: nat) -> nat
    decreases n,
{
    if n == 0 {
        1
    } else {
        2 * pow2((n - 1) as nat)
    }
}

/// The wait after failed attempt number `attempt` (counting from one):
/// the initial delay, doubled for every earlier attempt.
pub open spec fn backoff_delay(attempt: nat) -> nat {
    (INITIAL_RETRY_DELAY_MS as nat) * pow2((attempt - 1) as nat)
}

/// Milliseconds to wait after failed attempt number `attempt` before trying
/// again.
pub fn retry_delay_ms(attempt: u32) -> (delay: u64)
    requires
        1 <= attempt < MAX_RETRY_ATTEMPTS,
    ensures
        delay == backoff_delay(attempt as nat),
{
    proof {
        reveal_with_fuel(pow2, 5);
    }
    let mut factor: u64 = 1;
    let mut i: u32 = 1;
    while i < attempt
        invariant
            1 <= i <= attempt < MAX_RETRY_ATTEMPTS,
            factor == pow2((i - 1) as nat),
        decreases attempt - i,
    {
        proof {
            reveal_with_fuel(pow2, 5);
        }
        factor = factor * 2;
        i = i + 1;
    }
    INITIAL_RETRY_DELAY_MS * factor
}


/// What to do next while retrying a request.
#[derive(Debug, PartialEq, Eq, Structural, Clone, Copy)]
pub enum RetryAction {
    /// Make one more attempt.
    Request,
    /// Somebody else has already failed: stop and report nothing.
    Cancelled,
    /// Every attempt failed: report the last error.
    GiveUp,
}

/// How one decision changes the number of attempts made so far, and what it
/// asks the caller to do. `cancelled` is the cancel flag as read just before
/// the decision.
pub open spec fn retry_step(made: nat, cancelled: bool) -> (nat, RetryAction) {
    if cancelled {
        (made, RetryAction::Cancelled)
    } else if made < MAX_RETRY_ATTEMPTS {
        ((made + 1) as nat, RetryAction::Request)
    } else {
        (made, RetryAction::GiveUp)
    }
}

/// The attempts count and the actions after running the decisions for the
/// cancel flags `flags`, one per decision, starting from `made` attempts.
pub open spec fn retry_run(made: nat, flags: Seq<bool>) -> (nat, Seq<RetryAction>)
    decreases flags.len(),
{
    if flags.len() == 0 {
        (made, Seq::empty())
    } else {
        let (next, action) = retry_step(made, flags[0]);
        let (last, rest) = retry_run(next, flags.drop_first());
        (last, seq![action] + rest)
    }
}

/// The number of `Request` actions in `actions`.
pub open spec fn count_requests(actions: Seq<RetryAction>) -> nat
    decreases actions.len(),
{
    if actions.len() == 0 {
        0
    } else {
        (if actions[0] == RetryAction::Request { 1nat } else { 0nat }) + count_requests(
            actions.drop_first(),
        )
    }
}

/// The retry state of one request: how many attempts have been made.
pub struct Retry {
    attempts: u32,
}

impl Retry {
    #[verifier::type_invariant]
    spec fn inv(self) -> bool {
        self.attempts <= MAX_RETRY_ATTEMPTS
    }

    /// The number of attempts made so far.
    pub closed spec fn made(self) -> nat {
        self.attempts as nat
    }

    /// No attempt made yet.
    pub fn new() -> (r: Retry)
        ensures
            r.made() == 0,
    {
        Retry { attempts: 0 }
    }

    /// The number of attempts made so far.
    pub fn attempts(&self) -> (n: u32)
        ensures
            n == self.made(),
            n <= MAX_RETRY_ATTEMPTS,
    {
        proof {
            use_type_invariant(self);
        }
        self.attempts
    }

    /// Decides what to do before an attempt, and once more after the last
    /// one: stop when `cancelled` is set, otherwise attempt again while fewer
    /// than `MAX_RETRY_ATTEMPTS` attempts have been made, otherwise give up.
    pub fn next_action(&mut self, cancelled: bool) -> (action: RetryAction)
        ensures
            (final(self).made(), action) == retry_step(old(self).made(), cancelled),
            final(self).made() <= MAX_RETRY_ATTEMPTS,
    {
        proof {
            use_type_invariant(&*self);
        }
        if cancelled {
            RetryAction::Cancelled
        } else if self.attempts < MAX_RETRY_ATTEMPTS {
            self.attempts = self.attempts + 1;
            RetryAction::Request
        } else {
            RetryAction::GiveUp
        }
    }

    /// How long to wait after the attempt just made failed: the backoff delay
    /// of that attempt, or nothing after the last attempt.
    pub fn backoff(&self) -> (delay: Option<u64>)
        requires
            self.made() >= 1,
        ensures
            self.made() < MAX_RETRY_ATTEMPTS ==> delay == Some(
                backoff_delay(self.made()) as u64,
            ),
            self.made() >= MAX_RETRY_ATTEMPTS ==> delay is None,
    {
        proof {
            use_type_invariant(self);
        }
        if self.attempts < MAX_RETRY_ATTEMPTS {
            Some(retry_delay_ms(self.attempts))
        } else {
            None
        }
    }
}

/// A request is never attempted more than `MAX_RETRY_ATTEMPTS` times, however
/// the cancel flag is set along the way.
pub proof fn law_attempts_bounded(flags: Seq<bool>)
    ensures
        count_requests(retry_run(0, flags).1) <= MAX_RETRY_ATTEMPTS,
        retry_run(0, flags).0 == count_requests(retry_run(0, flags).1),
{
    lemma_run_counts(0, flags);
}

proof fn lemma_run_counts(made: nat, flags: Seq<bool>)
    requires
        made <= MAX_RETRY_ATTEMPTS,
    ensures
        retry_run(made, flags).0 == made + count_requests(retry_run(made, flags).1),
        retry_run(made, flags).0 <= MAX_RETRY_ATTEMPTS,
    decreases flags.len(),
{
    if flags.len() > 0 {
        let (next, action) = retry_step(made, flags[0]);
        lemma_run_counts(next, flags.drop_first());
        let (last, rest) = retry_run(next, flags.drop_first());
        assert((seq![action] + rest).drop_first() =~= rest);
    }
}

/// Once the cancel flag is seen set, the request is abandoned at once:
/// no attempt is made and the caller reports nothing.
pub proof fn law_cancel_stops(made: nat)
    ensures
        retry_step(made, true) == (made, RetryAction::Cancelled),
{
}

/// Each retry waits twice as long as the one before it.
pub proof fn law_backoff_doubles(attempt: nat)
    requires
        1 <= attempt,
    ensures
        backoff_delay(attempt + 1) == 2 * backoff_delay(attempt),
{
    assert(pow2(attempt) == 2 * pow2((attempt - 1) as nat));
    assert((INITIAL_RETRY_DELAY_MS as nat) * (2 * pow2((attempt - 1) as nat)) == 2 * ((
    INITIAL_RETRY_DELAY_MS as nat) * pow2((attempt - 1) as nat))) by (nonlinear_arith);
}

} // verus!
