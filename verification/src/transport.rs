//! Retrying one HTTP exchange.
//!
//! An exchange is tried once and then again for as long as it fails in a way
//! that may pass: a server error, a timeout, a name that did not resolve. The
//! number of further attempts is bounded and the pause before each grows
//! linearly. The transport decides; whoever drives it sends the request and
//! sleeps.

use vstd::prelude::*;

verus! {

/// Further attempts that follow the first one under the standard policy.
pub const MAX_ATTEMPTS: u32 = 5;

/// Milliseconds by which the pause grows from one retry to the next under the
/// standard policy.
pub const BASE_DELAY: u32 = 1000;

/// Why no response came back.
#[derive(Clone, Copy, Debug, PartialEq, Eq, Structural)]
pub enum FailureKind {
    /// The request or the response timed out.
    Timeout,
    /// The host name could not be resolved this time.
    Dns,
    /// Anything else: a refused connection, a malformed request, a broken body.
    Other,
}

/// How one attempt ended.
#[derive(Clone, Copy, Debug, PartialEq, Eq, Structural)]
pub enum Outcome {
    /// A response arrived with this status code.
    Response(u16),
    /// No response arrived.
    Failure(FailureKind),
}

/// What to do after an attempt.
#[derive(Clone, Copy, Debug, PartialEq, Eq, Structural)]
pub enum Verdict {
    /// Wait `delay` milliseconds, build the request afresh and try again.
    Retry { delay: u64 },
    /// Hand this outcome to the caller as it is.
    Return(Outcome),
}

/// Whether a status code is a server error.
pub open spec fn is_server_error(status: u16) -> bool {
    500 <= status <= 599
}

/// Whether an attempt that ended this way is worth repeating.
pub open spec fn must_retry(outcome: Outcome) -> bool {
    match outcome {
        Outcome::Response(status) => is_server_error(status),
        Outcome::Failure(FailureKind::Timeout) => true,
        Outcome::Failure(FailureKind::Dns) => true,
        Outcome::Failure(FailureKind::Other) => false,
    }
}

/// Whether an attempt that ended this way is worth repeating.
pub fn classify(outcome: Outcome) -> (retry: bool)
    ensures
        retry == must_retry(outcome),
{
    match outcome {
        Outcome::Response(status) => 500 <= status && status <= 599,
        Outcome::Failure(FailureKind::Timeout) => true,
        Outcome::Failure(FailureKind::Dns) => true,
        Outcome::Failure(FailureKind::Other) => false,
    }
}

/// How often and how patiently an exchange is retried.
#[derive(Clone, Copy, Debug, PartialEq, Eq, Structural)]
pub struct RetryPolicy {
    /// How many attempts may follow the first one.
    pub max_attempts: u32,
    /// Milliseconds by which the pause grows from one retry to the next.
    pub base_delay: u32,
}

impl RetryPolicy {
    /// Five retries, a second more of pause before each.
    pub fn standard() -> (policy: RetryPolicy)
        ensures
            policy == (RetryPolicy { max_attempts: MAX_ATTEMPTS, base_delay: BASE_DELAY }),
    {
        RetryPolicy { max_attempts: MAX_ATTEMPTS, base_delay: BASE_DELAY }
    }

    /// The pause before the retry with index `retry`, counted from zero.
    pub open spec fn delay(self, retry: nat) -> nat {
        self.base_delay as nat * retry
    }

    /// The verdict on an attempt that ended as `outcome` after `retries`
    /// retries.
    pub open spec fn verdict(self, retries: nat, outcome: Outcome) -> Verdict {
        if must_retry(outcome) && retries < self.max_attempts {
            Verdict::Retry { delay: self.delay(retries) as u64 }
        } else {
            Verdict::Return(outcome)
        }
    }

    /// How many attempts are made, from the attempt that follows `retries`
    /// retries on, when the attempts end as `outcomes` in turn. The count stops
    /// where the outcomes run out.
    pub open spec fn attempts_from(self, retries: nat, outcomes: Seq<Outcome>) -> nat
        decreases outcomes.len(),
    {
        if outcomes.len() == 0 {
            0
        } else if self.verdict(retries, outcomes[0]) is Retry {
            1 + self.attempts_from(retries + 1, outcomes.drop_first())
        } else {
            1
        }
    }

    /// How many attempts one exchange makes when they end as `outcomes` in turn.
    pub open spec fn attempts(self, outcomes: Seq<Outcome>) -> nat {
        self.attempts_from(0, outcomes)
    }

    /// What an exchange hands back when its attempts end as `outcomes` in turn,
    /// from the attempt that follows `retries` retries on: `None` where the
    /// outcomes run out before the exchange ends.
    pub open spec fn returned_from(self, retries: nat, outcomes: Seq<Outcome>) -> Option<Outcome>
        decreases outcomes.len(),
    {
        if outcomes.len() == 0 {
            None
        } else if self.verdict(retries, outcomes[0]) is Retry {
            self.returned_from(retries + 1, outcomes.drop_first())
        } else {
            Some(outcomes[0])
        }
    }

    /// What one exchange hands back when its attempts end as `outcomes` in turn.
    pub open spec fn returned(self, outcomes: Seq<Outcome>) -> Option<Outcome> {
        self.returned_from(0, outcomes)
    }
}

/// The state of one exchange: how many retries it has been granted.
#[derive(Clone, Copy, Debug, PartialEq, Eq, Structural)]
pub struct Exchange {
    /// Retries granted so far.
    pub retries: u32,
}

/// Decides, attempt by attempt, whether an exchange goes on.
#[derive(Clone, Copy, Debug, PartialEq, Eq, Structural)]
pub struct RetryableTransport {
    /// The policy that every exchange of this transport follows.
    pub policy: RetryPolicy,
}

impl RetryableTransport {
    /// A transport that follows `policy`.
    pub fn new(policy: RetryPolicy) -> (transport: RetryableTransport)
        ensures
            transport.policy == policy,
    {
        RetryableTransport { policy }
    }

    /// The state of an exchange before its first attempt.
    pub fn begin(&self) -> (exchange: Exchange)
        ensures
            exchange.retries == 0,
    {
        Exchange { retries: 0 }
    }

    /// Judges the attempt of `exchange` that just ended as `outcome`.
    ///
    /// A failure that may pass is retried while the policy allows: the verdict
    /// names the pause, and the exchange counts one more retry. Anything else,
    /// and any failure once the retries are used up, goes back to the caller as
    /// it is, and the exchange is left unchanged.
    pub fn execute(&self, exchange: &mut Exchange, outcome: Outcome) -> (verdict: Verdict)
        ensures
            verdict == self.policy.verdict(old(exchange).retries as nat, outcome),
            verdict is Retry ==> final(exchange).retries == old(exchange).retries + 1,
            verdict is Return ==> final(exchange).retries == old(exchange).retries,
    {
        if classify(outcome) && exchange.retries < self.policy.max_attempts {
            let base: u64 = self.policy.base_delay as u64;
            let retry: u64 = exchange.retries as u64;
            assert(base * retry <= u64::MAX) by (nonlinear_arith)
                requires
                    base <= 0xffff_ffff,
                    retry <= 0xffff_ffff,
            ;
            let delay: u64 = base * retry;
            exchange.retries = exchange.retries + 1;
            Verdict::Retry { delay }
        } else {
            Verdict::Return(outcome)
        }
    }
}

/// No exchange makes more attempts than the first one and the retries that
/// the policy allows.
pub proof fn lemma_attempts_capped(policy: RetryPolicy, retries: nat, outcomes: Seq<Outcome>)
    requires
        retries <= policy.max_attempts,
    ensures
        policy.attempts_from(retries, outcomes) <= policy.max_attempts - retries + 1,
    decreases outcomes.len(),
{
    if outcomes.len() > 0 && policy.verdict(retries, outcomes[0]) is Retry {
        lemma_attempts_capped(policy, retries + 1, outcomes.drop_first());
    }
}

/// An exchange ends with the first attempt whose outcome is not worth
/// repeating, if that attempt is within the policy's bound: it has then made
/// that many attempts and hands back that outcome.
pub proof fn lemma_stops_at_first_final_outcome(
    policy: RetryPolicy,
    retries: nat,
    outcomes: Seq<Outcome>,
    k: nat,
)
    requires
        k < outcomes.len(),
        retries + k <= policy.max_attempts,
        forall|i: int| 0 <= i < k ==> must_retry(#[trigger] outcomes[i]),
        !must_retry(outcomes[k as int]),
    ensures
        policy.attempts_from(retries, outcomes) == k + 1,
        policy.returned_from(retries, outcomes) == Some(outcomes[k as int]),
    decreases k,
{
    if k > 0 {
        let rest = outcomes.drop_first();
        assert(must_retry(outcomes[0]));
        assert forall|i: int| 0 <= i < k - 1 implies must_retry(#[trigger] rest[i]) by {
            assert(rest[i] == outcomes[i + 1]);
        }
        assert(rest[k - 1] == outcomes[k as int]);
        lemma_stops_at_first_final_outcome(policy, retries + 1, rest, (k - 1) as nat);
    }
}

/// An exchange whose attempts all fail in a way worth repeating gives up
/// after the first attempt and every retry that the policy allows, and hands
/// back the outcome of the last of them.
pub proof fn lemma_gives_up_after_last_retry(
    policy: RetryPolicy,
    retries: nat,
    outcomes: Seq<Outcome>,
)
    requires
        retries <= policy.max_attempts,
        outcomes.len() > policy.max_attempts - retries,
        forall|i: int| 0 <= i <= policy.max_attempts - retries ==> must_retry(#[trigger] outcomes[i]),
    ensures
        policy.attempts_from(retries, outcomes) == policy.max_attempts - retries + 1,
        policy.returned_from(retries, outcomes) == Some(
            outcomes[policy.max_attempts - retries],
        ),
    decreases policy.max_attempts - retries,
{
    assert(must_retry(outcomes[0]));
    if retries < policy.max_attempts {
        let rest = outcomes.drop_first();
        assert forall|i: int| 0 <= i <= policy.max_attempts - (retries + 1) implies must_retry(
            #[trigger] rest[i],
        ) by {
            assert(rest[i] == outcomes[i + 1]);
        }
        assert(rest[policy.max_attempts - (retries + 1)] == outcomes[policy.max_attempts
            - retries]);
        lemma_gives_up_after_last_retry(policy, retries + 1, rest);
    }
}

} // verus!
