//! The schedule on which a downloader that arrives before its uploader
//! retries: up to five retries, waiting 100 ms at first and twice as long
//! each time, but never more than 5 s.
use vstd::prelude::*;
use crate::error::Error;

verus! {

/// Retries after the first attempt before giving up.
pub const MAX_RETRIES: u32 = 5;

/// The first wait, in milliseconds.
pub const INITIAL_DELAY_MS: u64 = 100;

/// The longest wait, in milliseconds.
pub const MAX_DELAY_MS: u64 = 5000;

/// The wait before retry number `k + 1`: 100 ms doubled `k` times, capped at
/// 5 s.
pub open spec fn delay_for(k: nat) -> u64
    decreases k,
{
    if k == 0 {
        INITIAL_DELAY_MS
    } else {
        let d = 2 * delay_for((k - 1) as nat);
        if d < MAX_DELAY_MS {
            d as u64
        } else {
            MAX_DELAY_MS
        }
    }
}

/// What to do after an attempt: stop with this result, or wait this many
/// milliseconds and try again.
pub enum RetryStep {
    Done(Result<(), Error>),
    Wait(u64),
}

/// How far the retries have come: how many were made, and the next wait.
pub struct Backoff {
    retry_count: u32,
    delay_ms: u64,
}

impl View for Backoff {
    type V = (nat, u64);

    closed spec fn view(&self) -> (nat, u64) {
        (self.retry_count as nat, self.delay_ms)
    }
}

/// The number of retries whose wait comes next: past the last retry, the
/// wait stays that of the last one.
pub open spec fn scheduled_retry(count: nat) -> nat {
    if count <= MAX_RETRIES {
        count
    } else {
        MAX_RETRIES as nat
    }
}

impl Backoff {
    /// Every backoff has counted at most one retry past the last, and its
    /// next wait follows the schedule.
    #[verifier::type_invariant]
    spec fn on_schedule(self) -> bool {
        &&& self.retry_count <= MAX_RETRIES + 1
        &&& self.delay_ms == delay_for(scheduled_retry(self.retry_count as nat))
    }

    /// What every backoff keeps: at most one retry counted past the last,
    /// and the next wait on the schedule.  `new` and `step` state it.
    pub open spec fn wf(&self) -> bool {
        &&& self@.0 <= MAX_RETRIES + 1
        &&& self@.1 == delay_for(scheduled_retry(self@.0))
    }

    /// No retries made yet; the first wait is 100 ms.
    pub fn new() -> (b: Backoff)
        ensures
            b@ == (0nat, INITIAL_DELAY_MS),
            b.wf(),
    {
        Backoff { retry_count: 0, delay_ms: INITIAL_DELAY_MS }
    }

    /// Decides what follows an attempt.  Success and every error but
    /// `UnknownSession` end the retries with that outcome.  An unknown session
    /// counts one more retry: past five, the retries end with that error;
    /// otherwise the caller waits the current delay, and the next one doubles
    /// up to 5 s.  Once the retries have ended, the count stays where it is.
    pub fn step(&mut self, outcome: Result<(), Error>) -> (s: RetryStep)
        ensures
            final(self).wf(),
            !(outcome matches Err(Error::UnknownSession(_))) ==> s == RetryStep::Done(outcome)
                && final(self)@ == old(self)@,
            outcome matches Err(Error::UnknownSession(_)) && old(self)@.0 <= MAX_RETRIES
                ==> final(self)@.0 == old(self)@.0 + 1,
            outcome matches Err(Error::UnknownSession(_)) && old(self)@.0 >= MAX_RETRIES ==> s
                == RetryStep::Done(outcome),
            outcome matches Err(Error::UnknownSession(_)) && old(self)@.0 > MAX_RETRIES
                ==> final(self)@ == old(self)@,
            outcome matches Err(Error::UnknownSession(_)) && old(self)@.0 < MAX_RETRIES ==> s
                == RetryStep::Wait(old(self)@.1) && final(self)@.1 == delay_for(final(self)@.0),
    {
        proof {
            use_type_invariant(&*self);
        }
        match outcome {
            Err(Error::UnknownSession(session)) => {
                if self.retry_count >= MAX_RETRIES {
                    if self.retry_count == MAX_RETRIES {
                        *self = Backoff { retry_count: MAX_RETRIES + 1, delay_ms: self.delay_ms };
                    }
                    return RetryStep::Done(Err(Error::UnknownSession(session)));
                }
                let wait = self.delay_ms;
                let next = if self.delay_ms * 2 < MAX_DELAY_MS {
                    self.delay_ms * 2
                } else {
                    MAX_DELAY_MS
                };
                *self = Backoff { retry_count: self.retry_count + 1, delay_ms: next };
                RetryStep::Wait(wait)
            },
            other => RetryStep::Done(other),
        }
    }
}

/// Every wait lies between 100 ms and 5 s.
pub proof fn delays_are_bounded(k: nat)
    ensures
        INITIAL_DELAY_MS <= delay_for(k) <= MAX_DELAY_MS,
    decreases k,
{
    if k > 0 {
        delays_are_bounded((k - 1) as nat);
    }
}

/// The waits are 100, 200, 400, 800 and 1600 ms: a downloader gives up after
/// 3.1 s of waiting in all.
pub proof fn retry_schedule()
    ensures
        delay_for(0) == 100,
        delay_for(1) == 200,
        delay_for(2) == 400,
        delay_for(3) == 800,
        delay_for(4) == 1600,
        delay_for(0) + delay_for(1) + delay_for(2) + delay_for(3) + delay_for(4) == 3100,
{
    reveal_with_fuel(delay_for, 5);
}

} // verus!
