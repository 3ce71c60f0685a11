//! The retry policy around network operations: a fixed number of attempts,
//! with the pause between attempts doubling each time.

use vstd::prelude::*;
use vstd::arithmetic::power2::{pow2, lemma_pow2_unfold, lemma_pow2_pos};

verus! {

/// What to do after an attempt failed.
#[derive(Debug, Clone, Copy, PartialEq, Eq, Structural)]
pub enum RetryDecision {
    /// No attempt is left: report the failure.
    GiveUp,
    /// Pause for this many milliseconds, then try again.
    RetryAfter(u64),
}

/// The pause after a failure with `remaining` attempts counted and `backoff`
/// milliseconds as the current pause: none (give up) when at most one
/// attempt was counted, else the current pause.
pub open spec fn pause_after_failure(remaining: nat, backoff: nat) -> Option<nat> {
    if remaining <= 1 {
        None
    } else {
        Some(backoff)
    }
}

/// The state after one more failure.
pub open spec fn state_after_failure(remaining: nat, backoff: nat) -> (nat, nat) {
    if remaining <= 1 {
        (0, backoff)
    } else {
        ((remaining - 1) as nat, 2 * backoff)
    }
}

/// The state after `k` failures, starting from `attempts` attempts and an
/// initial pause of `backoff` milliseconds.
pub open spec fn state_after_failures(attempts: nat, backoff: nat, k: nat) -> (nat, nat)
    decreases k,
{
    if k == 0 {
        (attempts, backoff)
    } else {
        let prev = state_after_failures(attempts, backoff, (k - 1) as nat);
        state_after_failure(prev.0, prev.1)
    }
}

/// The retry state of one operation.
pub struct Retry {
    remaining: u32,
    backoff_ms: u64,
}

impl Retry {
    /// The attempts still counted.
    pub closed spec fn remaining(&self) -> nat {
        self.remaining as nat
    }

    /// The current pause, in milliseconds.
    pub closed spec fn backoff(&self) -> nat {
        self.backoff_ms as nat
    }

    /// Every pause still to come fits in 64 bits.
    pub closed spec fn wf(&self) -> bool {
        self.remaining >= 2 ==> self.backoff_ms * pow2((self.remaining - 1) as nat) <= u64::MAX
    }

    /// A policy of `attempts` attempts whose first pause is `backoff_ms`
    /// milliseconds; the pauses must fit in 64 bits.
    pub fn new(attempts: u32, backoff_ms: u64) -> (r: Retry)
        requires
            attempts >= 2 ==> backoff_ms * pow2((attempts - 1) as nat) <= u64::MAX,
        ensures
            r.wf(),
            r.remaining() == attempts,
            r.backoff() == backoff_ms,
    {
        Retry { remaining: attempts, backoff_ms }
    }

    /// The attempts still counted.
    pub fn attempts_left(&self) -> (n: u32)
        ensures
            n == self.remaining(),
    {
        self.remaining
    }

    /// Records a failed attempt and says whether to pause and try again.
    pub fn on_failure(&mut self) -> (d: RetryDecision)
        requires
            old(self).wf(),
        ensures
            final(self).wf(),
            (final(self).remaining(), final(self).backoff()) == state_after_failure(old(self).remaining(), old(self).backoff()),
            match d {
                RetryDecision::GiveUp => pause_after_failure(old(self).remaining(), old(self).backoff()) is None,
                RetryDecision::RetryAfter(ms) => pause_after_failure(old(self).remaining(), old(self).backoff()) == Some(ms as nat),
            },
    {
        if self.remaining <= 1 {
            self.remaining = 0;
            RetryDecision::GiveUp
        } else {
            let pause = self.backoff_ms;
            proof {
                let e = (self.remaining - 1) as nat;
                lemma_pow2_unfold(e);
                lemma_pow2_pos((e - 1) as nat);
                assert(pow2(e) >= 2);
                assert(self.backoff_ms * 2 <= self.backoff_ms * pow2(e)) by (nonlinear_arith)
                    requires
                        pow2(e) >= 2,
                ;
                if self.remaining >= 3 {
                    assert(2 * self.backoff_ms * pow2((e - 1) as nat) == self.backoff_ms * pow2(e)) by (nonlinear_arith)
                        requires
                            pow2(e) == 2 * pow2((e - 1) as nat),
                    ;
                }
            }
            self.remaining = self.remaining - 1;
            self.backoff_ms = self.backoff_ms * 2;
            RetryDecision::RetryAfter(pause)
        }
    }
}

/// The schedule of a retried operation: after `k` failures of an operation
/// allowed `attempts` attempts (`k < attempts`), the pause is the initial one
/// doubled `k` times, and the next failure pauses and retries while fewer
/// than `attempts` failures have happened, and gives up at the
/// `attempts`-th. An operation is thus tried `attempts` times.
pub proof fn law_retry_schedule(attempts: nat, backoff: nat, k: nat)
    requires
        k < attempts,
    ensures
        state_after_failures(attempts, backoff, k) == ((attempts - k) as nat, backoff * pow2(k)),
        pause_after_failure((attempts - k) as nat, backoff * pow2(k)) == if k + 1 < attempts {
            Some(backoff * pow2(k))
        } else {
            None::<nat>
        },
    decreases k,
{
    if k == 0 {
        assert(pow2(0) == 1) by {
            vstd::arithmetic::power2::lemma2_to64();
        }
    } else {
        law_retry_schedule(attempts, backoff, (k - 1) as nat);
        lemma_pow2_unfold(k);
        assert(2 * (backoff * pow2((k - 1) as nat)) == backoff * pow2(k)) by (nonlinear_arith)
            requires
                pow2(k) == 2 * pow2((k - 1) as nat),
        ;
    }
}

} // verus!
