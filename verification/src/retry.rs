//! Retrying things that talk to the outside world.
//!
//! Used by transcribers and callbacks alike. The interesting decision is not how to back off
//! but what is worth retrying: a network blip deserves a second attempt, and a script that
//! exited non-zero because it decided to does not. Running it again just does the wrong thing
//! twice.

use vstd::prelude::*;

use crate::config::RetryConfig;

verus! {

/// The longest pause between two attempts, in nanoseconds.
pub const LONGEST_PAUSE: u128 = 18_446_744_073_709_551_615_999_999_999;

/// What an attempt decided.
#[derive(Debug)]
pub enum RetryOutcome<T, E> {
    /// Done.
    Done(T),
    /// Failed in a way another attempt might survive.
    Retry(E),
    /// Failed in a way another attempt will not change.
    Fatal(E),
}

impl<T, E> RetryOutcome<T, E> {
    /// What an attempt that ended like this decided; `transient` says whether its error is
    /// one that another attempt might survive.
    pub fn of(result: Result<T, E>, transient: bool) -> (outcome: RetryOutcome<T, E>)
        ensures
            outcome == (match result {
                Ok(value) => RetryOutcome::Done(value),
                Err(error) => if transient {
                    RetryOutcome::Retry(error)
                } else {
                    RetryOutcome::Fatal(error)
                },
            }),
    {
        match result {
            Ok(value) => RetryOutcome::Done(value),
            Err(error) => {
                if transient {
                    RetryOutcome::Retry(error)
                } else {
                    RetryOutcome::Fatal(error)
                }
            },
        }
    }
}

/// What to do after an attempt.
#[derive(Debug)]
pub enum Next<T, E> {
    /// Wait this many nanoseconds, and make another attempt.
    Wait(u128),
    /// Stop: the result of the last attempt, and how many were made. The count goes into
    /// `session.json`, because "this webhook succeeded on the third try, every time" is worth
    /// being able to notice later.
    Stop(Result<T, E>, u32),
}

/// How many attempts a policy allows: at least one.
pub open spec fn attempts_allowed(policy: RetryConfig) -> u32 {
    if policy.attempts == 0 {
        1
    } else {
        policy.attempts
    }
}

/// The pause after `failures` failed attempts, in nanoseconds: it doubles with each.
pub open spec fn pause_after(policy: RetryConfig, failures: nat) -> u128
    decreases failures,
{
    if failures <= 1 {
        (policy.backoff_ms * 1_000_000) as u128
    } else {
        let before = pause_after(policy, (failures - 1) as nat);
        if before * 2 <= LONGEST_PAUSE {
            (before * 2) as u128
        } else {
            LONGEST_PAUSE
        }
    }
}

/// What to do after the attempt of this number.
pub open spec fn next_after<T, E>(
    policy: RetryConfig,
    number: u32,
    outcome: RetryOutcome<T, E>,
) -> Next<T, E> {
    match outcome {
        RetryOutcome::Done(value) => Next::Stop(Ok(value), number),
        RetryOutcome::Fatal(error) => Next::Stop(Err(error), number),
        RetryOutcome::Retry(error) => if number < attempts_allowed(policy) {
            Next::Wait(pause_after(policy, number as nat))
        } else {
            Next::Stop(Err(error), number)
        },
    }
}

/// A run of attempts.
#[derive(Debug)]
pub struct Attempts {
    policy: RetryConfig,
    number: u32,
    pause: u128,
}

/// Begin a run of attempts under a policy.
pub fn retry(policy: &RetryConfig) -> (result: Attempts)
    ensures
        result.wf(),
        result.policy_spec() == *policy,
        result.number_spec() == 1,
{
    assert(0 <= policy.backoff_ms * 1_000_000 <= u128::MAX) by (nonlinear_arith)
        requires
            0 <= policy.backoff_ms <= u64::MAX,
    ;
    Attempts { policy: *policy, number: 1, pause: policy.backoff_ms as u128 * 1_000_000 }
}

impl Attempts {
    /// The policy the attempts are made under.
    pub closed spec fn policy_spec(self) -> RetryConfig {
        self.policy
    }

    /// The number of the attempt that is due.
    pub closed spec fn number_spec(self) -> u32 {
        self.number
    }

    /// Whether this is a run that attempts led to.
    pub closed spec fn wf(self) -> bool {
        &&& 1 <= self.number <= attempts_allowed(self.policy)
        &&& self.pause == pause_after(self.policy, self.number as nat)
        &&& self.pause <= LONGEST_PAUSE
    }

    /// The number of the attempt that is due, counting from one.
    pub fn number(&self) -> (result: u32)
        ensures
            result == self.number_spec(),
    {
        self.number
    }

    /// An attempt has been made. Says whether to stop, or how long to wait before the next.
    pub fn attempted<T, E>(&mut self, outcome: RetryOutcome<T, E>) -> (result: Next<T, E>)
        requires
            old(self).wf(),
        ensures
            final(self).wf(),
            final(self).policy_spec() == old(self).policy_spec(),
            result == next_after(old(self).policy_spec(), old(self).number_spec(), outcome),
            final(self).number_spec() == (if result is Wait {
                old(self).number_spec() + 1
            } else {
                old(self).number_spec() as int
            }),
    {
        let total: u32 = if self.policy.attempts == 0 {
            1
        } else {
            self.policy.attempts
        };
        match outcome {
            RetryOutcome::Done(value) => Next::Stop(Ok(value), self.number),
            RetryOutcome::Fatal(error) => Next::Stop(Err(error), self.number),
            RetryOutcome::Retry(error) => {
                if self.number < total {
                    let pause: u128 = self.pause;
                    self.pause = if pause * 2 <= LONGEST_PAUSE {
                        pause * 2
                    } else {
                        LONGEST_PAUSE
                    };
                    self.number = self.number + 1;
                    Next::Wait(pause)
                } else {
                    Next::Stop(Err(error), self.number)
                }
            },
        }
    }
}

/// Attempts are bounded: a run that goes on has not used up its policy, so at most as many
/// are made as it allows.
pub proof fn law_attempts_are_bounded<T, E>(
    policy: RetryConfig,
    number: u32,
    outcome: RetryOutcome<T, E>,
)
    ensures
        next_after(policy, number, outcome) is Wait ==> number + 1 <= attempts_allowed(policy),
        attempts_allowed(policy) >= 1,
        policy.attempts <= 1 ==> attempts_allowed(policy) == 1,
{
}

/// Only what another attempt might survive is retried: success and a fatal failure stop at
/// once.
pub proof fn law_only_the_transient_is_retried<T, E>(
    policy: RetryConfig,
    number: u32,
    outcome: RetryOutcome<T, E>,
)
    ensures
        next_after(policy, number, outcome) is Wait ==> outcome is Retry,
        outcome is Done || outcome is Fatal ==> next_after(policy, number, outcome) is Stop,
{
}

/// The pause before another attempt is the backoff, doubled once for every failure after the
/// first, up to the longest pause there is.
pub proof fn law_the_pause_doubles(policy: RetryConfig, failures: nat)
    requires
        failures >= 1,
    ensures
        ({
            let longest = 18_446_744_073_709_551_615int * 1_000_000_000 + 999_999_999;
            let pause = policy.backoff_ms * 1_000_000 * vstd::arithmetic::power2::pow2(
                (failures - 1) as nat,
            );
            pause_after(policy, failures) == if pause <= longest {
                pause
            } else {
                longest
            }
        }),
    decreases failures,
{
    let base = policy.backoff_ms * 1_000_000;
    assert(base <= 18_446_744_073_709_551_615 * 1_000_000_000);
    if failures == 1 {
        vstd::arithmetic::power2::lemma2_to64();
        let one = vstd::arithmetic::power2::pow2((failures - 1) as nat);
        assert(one == 1);
        assert(base * one == base) by (nonlinear_arith)
            requires
                one == 1,
        ;
        assert(pause_after(policy, failures) == base);
    } else {
        law_the_pause_doubles(policy, (failures - 1) as nat);
        let n = (failures - 2) as nat;
        vstd::arithmetic::power2::lemma_pow2_unfold(n + 1);
        let before = vstd::arithmetic::power2::pow2(n);
        let after = vstd::arithmetic::power2::pow2(n + 1);
        assert(base * after == 2 * (base * before)) by (nonlinear_arith)
            requires
                after == 2 * before,
        ;
        assert(base * before >= 0) by (nonlinear_arith)
            requires
                base >= 0,
                before >= 0,
        ;
        assert(((failures - 1) as nat - 1) as nat == n);
        assert((failures - 1) as nat == n + 1);
    }
}

/// A first attempt is always made; after a passing failure another follows exactly while fewer
/// have been made than the policy allows, and otherwise the result of the last one stands.
pub proof fn law_another_attempt_is_made_while_allowed<T, E>(
    policy: RetryConfig,
    number: u32,
    value: T,
    error: E,
)
    requires
        number >= 1,
    ensures
        next_after::<T, E>(policy, number, RetryOutcome::Done(value)) == Next::<T, E>::Stop(
            Ok(value),
            number,
        ),
        next_after::<T, E>(policy, number, RetryOutcome::Fatal(error)) == Next::<T, E>::Stop(
            Err(error),
            number,
        ),
        number < policy.attempts ==> next_after::<T, E>(policy, number, RetryOutcome::Retry(error))
            == Next::<T, E>::Wait(pause_after(policy, number as nat)),
        number >= policy.attempts ==> next_after::<T, E>(
            policy,
            number,
            RetryOutcome::Retry(error),
        ) == Next::<T, E>::Stop(Err(error), number),
{
}

} // verus!
