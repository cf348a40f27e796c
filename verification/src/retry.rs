//! Repeated attempts to register, with growing pauses between them.

use vstd::arithmetic::power2::lemma_pow2_unfold;
use vstd::arithmetic::power2::pow2;
use vstd::prelude::*;

use crate::duration::longest;
use crate::duration::Duration;
use crate::duration::NANOS_PER_SEC;

verus! {

/// No pause but the first gets longer than this, in seconds.
pub const MAX_DELAY_SECS: u64 = 30;

/// How often a plugin tries to register before it gives up.
pub const REGISTER_ATTEMPTS: u32 = 10;

/// How long a plugin pauses after its first failed attempt, in seconds.
pub const REGISTER_DELAY_SECS: u64 = 1;

/// What is wrong with a limit of no attempts at all.
pub const NO_ATTEMPTS: &'static str = "max_attempts must be at least 1";

/// A round of attempts that goes on: which attempt is next, how many there may
/// be, and how long to pause should it fail.
#[derive(Clone, Copy, Debug, PartialEq, Eq, Structural)]
pub struct Retry {
    attempt: u32,
    max_attempts: u32,
    delay: Duration,
}

/// Where a round of attempts stands.
pub struct RetryView {
    pub attempt: int,
    pub max_attempts: int,
    pub delay: int,
}

impl View for Retry {
    type V = RetryView;

    closed spec fn view(&self) -> RetryView {
        RetryView {
            attempt: self.attempt as int,
            max_attempts: self.max_attempts as int,
            delay: self.delay@,
        }
    }
}

/// What to do after an attempt.
#[derive(Debug)]
pub enum RetryStep<E> {
    /// The attempt succeeded: done.
    Succeeded,
    /// Pause for `delay`, then make the next attempt of `retry`.
    Again { delay: Duration, retry: Retry },
    /// That was the last attempt: give up with its error.
    GaveUp(E),
}

/// How a round of attempts goes on, or how it ended.
pub enum RetryStepView<E> {
    Succeeded,
    Again { delay: int, retry: RetryView },
    GaveUp(E),
}

impl<E> View for RetryStep<E> {
    type V = RetryStepView<E>;

    open spec fn view(&self) -> RetryStepView<E> {
        match *self {
            RetryStep::Succeeded => RetryStepView::Succeeded,
            RetryStep::Again { delay, retry } => RetryStepView::Again {
                delay: delay@,
                retry: retry@,
            },
            RetryStep::GaveUp(err) => RetryStepView::GaveUp(err),
        }
    }
}

/// The longest pause but for the first, in nanoseconds.
pub open spec fn max_delay() -> int {
    MAX_DELAY_SECS * NANOS_PER_SEC
}

/// Twice the pause, up to the limit.
pub open spec fn next_delay(delay: int) -> int {
    if 2 * delay < max_delay() {
        2 * delay
    } else {
        max_delay()
    }
}

impl RetryView {
    /// A further failure can be paused for: no attempt follows it, or twice the
    /// pause is still a span of time.
    pub open spec fn can_back_off(self) -> bool {
        self.attempt < self.max_attempts ==> 2 * self.delay <= longest()
    }

    /// What follows when the next attempt ends in `outcome`.
    pub open spec fn step<E>(self, outcome: Result<(), E>) -> RetryStepView<E> {
        match outcome {
            Ok(_) => RetryStepView::Succeeded,
            Err(err) => if self.attempt < self.max_attempts {
                RetryStepView::Again {
                    delay: self.delay,
                    retry: RetryView {
                        attempt: self.attempt + 1,
                        max_attempts: self.max_attempts,
                        delay: next_delay(self.delay),
                    },
                }
            } else {
                RetryStepView::GaveUp(err)
            },
        }
    }
}

/// The first attempt of a round of at most `max_attempts`.
pub open spec fn first_attempt(max_attempts: int, initial_delay: int) -> RetryView {
    RetryView { attempt: 1, max_attempts, delay: initial_delay }
}

impl Retry {
    #[verifier::type_invariant]
    spec fn attempt_is_allowed(self) -> bool {
        1 <= self.attempt <= self.max_attempts
    }

    /// Begins a round of at most `max_attempts`, with a pause of
    /// `initial_delay` after the first.
    pub fn new(max_attempts: u32, initial_delay: Duration) -> (r: Result<Retry, &'static str>)
        ensures
            r is Err <==> max_attempts == 0,
            r matches Err(err) ==> err@ == NO_ATTEMPTS@,
            r matches Ok(retry) ==> retry@ == first_attempt(
                max_attempts as int,
                initial_delay@,
            ),
    {
        if max_attempts == 0 {
            return Err(NO_ATTEMPTS);
        }
        Ok(Retry { attempt: 1, max_attempts, delay: initial_delay })
    }

    /// Begins the round of attempts that a plugin makes to register.
    pub fn for_registration() -> (r: Retry)
        ensures
            r@ == first_attempt(REGISTER_ATTEMPTS as int, REGISTER_DELAY_SECS * NANOS_PER_SEC),
    {
        Retry {
            attempt: 1,
            max_attempts: REGISTER_ATTEMPTS,
            delay: Duration::from_secs(REGISTER_DELAY_SECS),
        }
    }

    /// Whether a failure of the next attempt can be paused for.
    pub fn can_back_off(&self) -> (r: bool)
        ensures
            r == self@.can_back_off(),
    {
        self.attempt >= self.max_attempts || self.delay.can_double()
    }

    /// Takes the outcome of the next attempt and says what follows. A first
    /// pause too long to be doubled is good only for attempts that need none.
    pub fn step<E>(self, outcome: Result<(), E>) -> (r: RetryStep<E>)
        requires
            outcome is Err ==> self@.can_back_off(),
        ensures
            r@ == self@.step(outcome),
    {
        proof {
            use_type_invariant(&self);
        }
        match outcome {
            Ok(_) => RetryStep::Succeeded,
            Err(err) => {
                if self.attempt < self.max_attempts {
                    let limit: Duration = Duration::from_secs(MAX_DELAY_SECS);
                    RetryStep::Again {
                        delay: self.delay,
                        retry: Retry {
                            attempt: self.attempt + 1,
                            max_attempts: self.max_attempts,
                            delay: self.delay.doubled_up_to(&limit),
                        },
                    }
                } else {
                    RetryStep::GaveUp(err)
                }
            },
        }
    }
}

impl<E> RetryStepView<E> {
    /// Where a round stands that stood here, once an attempt has ended in
    /// `outcome`. A round that is over stays as it is.
    pub open spec fn followed_by(self, outcome: Result<(), E>) -> RetryStepView<E> {
        match self {
            RetryStepView::Again { delay, retry } => retry.step(outcome),
            _ => self,
        }
    }
}

/// Where a round of attempts stands after attempts that ended in `outcomes`.
pub open spec fn after_attempts<E>(first: RetryView, outcomes: Seq<Result<(), E>>) -> RetryStepView<
    E,
>
    recommends
        outcomes.len() > 0,
    decreases outcomes.len(),
{
    if outcomes.len() <= 1 {
        first.step(outcomes[0])
    } else {
        after_attempts(first, outcomes.drop_last()).followed_by(outcomes.last())
    }
}

/// The pause after the `k`-th attempt has failed.
pub open spec fn nth_delay(initial_delay: int, k: nat) -> int
    decreases k,
{
    if k <= 1 {
        initial_delay
    } else {
        next_delay(nth_delay(initial_delay, (k - 1) as nat))
    }
}

/// While every attempt fails and more are allowed, the round goes on: the pause
/// after the `n`-th failure is the `n`-th pause.
pub proof fn failures_are_retried<E>(
    max_attempts: int,
    initial_delay: int,
    outcomes: Seq<Result<(), E>>,
)
    requires
        0 < outcomes.len() < max_attempts,
        forall|i: int| 0 <= i < outcomes.len() ==> #[trigger] outcomes[i] is Err,
    ensures
        after_attempts(first_attempt(max_attempts, initial_delay), outcomes)
            == (RetryStepView::<E>::Again {
            delay: nth_delay(initial_delay, outcomes.len()),
            retry: RetryView {
                attempt: outcomes.len() as int + 1,
                max_attempts,
                delay: nth_delay(initial_delay, outcomes.len() + 1),
            },
        }),
    decreases outcomes.len(),
{
    reveal_with_fuel(nth_delay, 2);
    if outcomes.len() > 1 {
        failures_are_retried(max_attempts, initial_delay, outcomes.drop_last());
        assert(outcomes.last() is Err);
    } else {
        assert(outcomes[0] is Err);
    }
}

/// Only the first pause can be too long to be doubled: a round that goes on can
/// pause for every further failure.
pub proof fn later_failures_can_be_paused_for<E>(retry: RetryView, outcome: Result<(), E>)
    requires
        retry.delay >= 0,
    ensures
        retry.step(outcome) matches RetryStepView::Again { delay: _, retry: next }
            ==> next.can_back_off(),
{
}

/// The first attempt that succeeds ends the round well, if it is among those
/// allowed.
pub proof fn success_ends_the_round<E>(
    max_attempts: int,
    initial_delay: int,
    outcomes: Seq<Result<(), E>>,
)
    requires
        0 < outcomes.len() <= max_attempts,
        forall|i: int| 0 <= i < outcomes.len() - 1 ==> #[trigger] outcomes[i] is Err,
        outcomes.last() is Ok,
    ensures
        after_attempts(first_attempt(max_attempts, initial_delay), outcomes)
            == RetryStepView::<E>::Succeeded,
{
    if outcomes.len() > 1 {
        failures_are_retried(max_attempts, initial_delay, outcomes.drop_last());
    }
}

/// A round whose attempts all fail ends after the last one that is allowed, with
/// the error of that one.
pub proof fn last_failure_is_returned<E>(
    max_attempts: int,
    initial_delay: int,
    outcomes: Seq<Result<(), E>>,
)
    requires
        0 < outcomes.len() == max_attempts,
        forall|i: int| 0 <= i < outcomes.len() ==> #[trigger] outcomes[i] is Err,
    ensures
        after_attempts(first_attempt(max_attempts, initial_delay), outcomes)
            == RetryStepView::GaveUp(outcomes.last()->Err_0),
{
    assert(outcomes.last() is Err);
    if outcomes.len() > 1 {
        failures_are_retried(max_attempts, initial_delay, outcomes.drop_last());
    }
}

/// No round makes more attempts than are allowed: after as many, it is over.
pub proof fn attempts_are_bounded<E>(
    max_attempts: int,
    initial_delay: int,
    outcomes: Seq<Result<(), E>>,
)
    requires
        0 < max_attempts <= outcomes.len(),
    ensures
        !(after_attempts(first_attempt(max_attempts, initial_delay), outcomes) is Again),
{
    attempts_are_counted(max_attempts, initial_delay, outcomes);
}

/// A round that goes on is at the attempt behind those made.
proof fn attempts_are_counted<E>(
    max_attempts: int,
    initial_delay: int,
    outcomes: Seq<Result<(), E>>,
)
    requires
        0 < outcomes.len(),
    ensures
        after_attempts(first_attempt(max_attempts, initial_delay), outcomes) matches
            RetryStepView::Again { delay: _, retry } ==> {
            &&& retry.attempt == outcomes.len() + 1
            &&& retry.max_attempts == max_attempts
            &&& outcomes.len() < max_attempts
        },
    decreases outcomes.len(),
{
    if outcomes.len() > 1 {
        attempts_are_counted(max_attempts, initial_delay, outcomes.drop_last());
    }
}

/// The pauses double from one failure to the next until they reach the limit,
/// where they stay; only the first may be longer.
pub proof fn delays_double_up_to_the_limit(initial_delay: int, k: nat)
    requires
        initial_delay >= 0,
        k >= 2,
    ensures
        nth_delay(initial_delay, k) <= max_delay(),
        nth_delay(initial_delay, k) == (if initial_delay * pow2((k - 1) as nat) < max_delay() {
            initial_delay * pow2((k - 1) as nat)
        } else {
            max_delay()
        }),
    decreases k,
{
    lemma_pow2_unfold((k - 1) as nat);
    let before = pow2((k - 2) as nat);
    let now = pow2((k - 1) as nat);
    assert(now == 2 * before);
    assert(initial_delay * now == 2 * (initial_delay * before)) by (nonlinear_arith)
        requires
            now == 2 * before,
    ;
    if k > 2 {
        delays_double_up_to_the_limit(initial_delay, (k - 1) as nat);
    } else {
        vstd::arithmetic::power2::lemma2_to64();
        assert(initial_delay * before == initial_delay) by (nonlinear_arith)
            requires
                before == 1,
        ;
        reveal_with_fuel(nth_delay, 2);
    }
}

/// The pause after the first failure is the one asked for, and no later pause is
/// longer than thirty seconds.
pub proof fn pauses_are_limited(initial_delay: int, k: nat)
    requires
        initial_delay >= 0,
    ensures
        nth_delay(initial_delay, 1) == initial_delay,
        k >= 2 ==> 0 <= nth_delay(initial_delay, k) <= 30_000_000_000,
    decreases k,
{
    if k > 2 {
        pauses_are_limited(initial_delay, (k - 1) as nat);
    }
    reveal_with_fuel(nth_delay, 2);
}

} // verus!
