//! Rate limiting of failed token attempts, per session name: after five
//! failures within fifteen minutes, further attempts are refused until the
//! window has passed.
use vstd::prelude::*;
use vstd::string::*;
use crate::error::Error;
use crate::small_string::{bytes_equal, copy_bytes};

verus! {

/// `std::time::Instant`: the start of a rate limiter's clock.
#[verifier::external_type_specification]
#[verifier::external_body]
pub struct ExInstant(std::time::Instant);

/// Failed attempts after which a session name is locked out.
pub const MAX_FAILED_ATTEMPTS: usize = 5;

/// Length of the rate limiting window: fifteen minutes, in nanoseconds.
pub const RATE_LIMIT_WINDOW_NANOS: u128 = 900_000_000_000;

/// Failed attempts recorded for one key, counted from `since`.
struct Attempts {
    key: Vec<u8>,
    count: usize,
    since: u128,
}

/// The failed attempts per session name.  Times are nanoseconds on a
/// monotonic clock that starts when the limiter is made.
pub struct RateLimiter {
    origin: std::time::Instant,
    latest: u128,
    entries: Vec<Attempts>,
}

/// The table that a list of entries stands for: each key with its count and
/// the start of its window.
spec fn table_of(s: Seq<Attempts>) -> Map<Seq<u8>, (usize, u128)>
    decreases s.len(),
{
    if s.len() == 0 {
        Map::empty()
    } else {
        table_of(s.drop_last()).insert(s.last().key@, (s.last().count, s.last().since))
    }
}

spec fn keys_distinct(s: Seq<Attempts>) -> bool {
    forall|i: int, j: int| 0 <= i < j < s.len() ==> s[i].key@ != s[j].key@
}

/// Time from `since` to `now`; zero when `now` is earlier.
pub open spec fn elapsed(now: u128, since: u128) -> u128 {
    if now >= since {
        (now - since) as u128
    } else {
        0
    }
}

/// `now` falls within the window that starts at `since`.
pub open spec fn within_window(now: u128, since: u128) -> bool {
    elapsed(now, since) < RATE_LIMIT_WINDOW_NANOS
}

/// One more, unless the count is already the largest `usize`.
pub open spec fn count_up(n: usize) -> usize {
    if n < usize::MAX {
        (n + 1) as usize
    } else {
        n
    }
}

/// The key has reached the limit within its current window.
pub open spec fn is_rate_limited(t: Map<Seq<u8>, (usize, u128)>, key: Seq<u8>, now: u128) -> bool {
    &&& t.contains_key(key)
    &&& t[key].0 >= MAX_FAILED_ATTEMPTS
    &&& within_window(now, t[key].1)
}

/// The table after a check at `now`: an entry whose window has passed is
/// dropped; nothing else changes.
pub open spec fn after_check(t: Map<Seq<u8>, (usize, u128)>, key: Seq<u8>, now: u128) -> Map<
    Seq<u8>,
    (usize, u128),
> {
    if t.contains_key(key) && !within_window(now, t[key].1) {
        t.remove(key)
    } else {
        t
    }
}

/// The table after a failed attempt at `now`: within the window the count
/// goes up by one; otherwise the key starts a new window with one attempt.
pub open spec fn after_failure(t: Map<Seq<u8>, (usize, u128)>, key: Seq<u8>, now: u128) -> Map<
    Seq<u8>,
    (usize, u128),
> {
    if t.contains_key(key) && within_window(now, t[key].1) {
        t.insert(key, (count_up(t[key].0), t[key].1))
    } else {
        t.insert(key, (1, now))
    }
}

/// The table of a list of entries with distinct keys holds exactly their
/// keys, each with its own count and start.
proof fn lemma_table_of(s: Seq<Attempts>)
    requires
        keys_distinct(s),
    ensures
        forall|i: int|
            0 <= i < s.len() ==> #[trigger] table_of(s).contains_key(s[i].key@) && table_of(s)[s[i].key@]
                == (s[i].count, s[i].since),
        forall|k: Seq<u8>|
            #[trigger] table_of(s).contains_key(k) ==> exists|i: int|
                0 <= i < s.len() && (#[trigger] s[i]).key@ == k,
    decreases s.len(),
{
    if s.len() > 0 {
        let t = s.drop_last();
        assert(keys_distinct(t));
        lemma_table_of(t);
        assert(table_of(s) == table_of(t).insert(s.last().key@, (s.last().count, s.last().since)));
        assert forall|i: int| 0 <= i < s.len() implies #[trigger] table_of(s).contains_key(
            s[i].key@,
        ) && table_of(s)[s[i].key@] == (s[i].count, s[i].since) by {
            if i < s.len() - 1 {
                assert(t[i] == s[i]);
                assert(table_of(t).contains_key(t[i].key@));
                assert(s[i].key@ != s[s.len() - 1].key@);
            }
        }
        assert forall|k: Seq<u8>| #[trigger] table_of(s).contains_key(k) implies exists|i: int|
            0 <= i < s.len() && (#[trigger] s[i]).key@ == k by {
            if k == s.last().key@ {
                assert(s[s.len() - 1].key@ == k);
            } else {
                let i = choose|i: int| 0 <= i < t.len() && (#[trigger] t[i]).key@ == k;
                assert(s[i] == t[i]);
            }
        }
    }
}

impl View for RateLimiter {
    type V = Map<Seq<u8>, (usize, u128)>;

    closed spec fn view(&self) -> Map<Seq<u8>, (usize, u128)> {
        table_of(self.entries@)
    }
}

impl RateLimiter {
    /// Each key appears at most once in the entries.
    #[verifier::type_invariant]
    spec fn distinct_keys(self) -> bool {
        keys_distinct(self.entries@)
    }

    /// A limiter with no recorded failures, whose clock starts now.
    pub fn new() -> (r: RateLimiter)
        ensures
            r@ == Map::<Seq<u8>, (usize, u128)>::empty(),
            r.clock() == 0,
    {
        RateLimiter { origin: instant_now(), latest: 0, entries: Vec::new() }
    }

    /// The latest reading of the limiter's clock: nanoseconds since the
    /// limiter was made, as last read by a check or a failure.
    pub closed spec fn clock(&self) -> u128 {
        self.latest
    }

    /// Reads the clock: nanoseconds since the limiter was made.  The clock
    /// never goes back: `Instant` is monotonic, and a reading below the
    /// latest one is taken as the latest one.
    pub(crate) fn now(&mut self) -> (t: u128)
        ensures
            t == final(self).clock(),
            old(self).clock() <= t,
            final(self)@ == old(self)@,
    {
        proof {
            use_type_invariant(&*self);
        }
        let reading = nanos_since(&self.origin);
        let t = if reading > self.latest {
            reading
        } else {
            self.latest
        };
        self.latest = t;
        t
    }

    /// The position of `key` in the entries, if it has one.
    fn find(&self, key: &[u8]) -> (r: Option<usize>)
        ensures
            r matches Some(i) ==> i < self.entries@.len() && self.entries@[i as int].key@ == key@,
            r is None ==> !self@.contains_key(key@),
    {
        proof {
            use_type_invariant(self);
        }
        let mut i: usize = 0;
        while i < self.entries.len()
            invariant
                i <= self.entries@.len(),
                forall|j: int| 0 <= j < i ==> (#[trigger] self.entries@[j]).key@ != key@,
            decreases self.entries@.len() - i,
        {
            if bytes_equal(self.entries[i].key.as_slice(), key) {
                return Some(i);
            }
            i += 1;
        }
        proof {
            lemma_table_of(self.entries@);
        }
        None
    }

    /// Refuses with `RateLimited` when `key` has reached the limit within its
    /// window at `now`; drops its entry when the window has passed.
    pub fn check_rate_limit_at(&mut self, key: &[u8], now: u128) -> (r: Result<(), Error>)
        ensures
            final(self).clock() == old(self).clock(),
            r is Err <==> is_rate_limited(old(self)@, key@, now),
            r is Err ==> r matches Err(Error::RateLimited),
            final(self)@ == after_check(old(self)@, key@, now),
    {
        proof {
            use_type_invariant(&*self);
            lemma_table_of(self.entries@);
        }
        match self.find(key) {
            Some(i) => {
                let count = self.entries[i].count;
                let since = self.entries[i].since;
                assert(self@.contains_key(self.entries@[i as int].key@));
                assert(self@[key@] == (count, since));
                let passed: u128 = if now >= since {
                    now - since
                } else {
                    0
                };
                if count >= MAX_FAILED_ATTEMPTS && passed < RATE_LIMIT_WINDOW_NANOS {
                    return Err(Error::RateLimited);
                }
                if passed >= RATE_LIMIT_WINDOW_NANOS {
                    let ghost before = self.entries@;
                    let mut entries: Vec<Attempts> = Vec::new();
                    std::mem::swap(&mut entries, &mut self.entries);
                    entries.remove(i);
                    proof {
                        lemma_removed(before, entries@, i as int);
                    }
                    self.entries = entries;
                }
                Ok(())
            },
            None => Ok(()),
        }
    }

    /// Records a failed attempt for `key` at `now`.
    pub fn record_failed_attempt_at(&mut self, key: &[u8], now: u128)
        ensures
            final(self).clock() == old(self).clock(),
            final(self)@ == after_failure(old(self)@, key@, now),
    {
        proof {
            use_type_invariant(&*self);
            lemma_table_of(self.entries@);
        }
        match self.find(key) {
            Some(i) => {
                let count = self.entries[i].count;
                let since = self.entries[i].since;
                assert(self@.contains_key(self.entries@[i as int].key@));
                assert(self@[key@] == (count, since));
                let passed: u128 = if now >= since {
                    now - since
                } else {
                    0
                };
                let entry = if passed < RATE_LIMIT_WINDOW_NANOS {
                    Attempts { key: copy_bytes(key), count: count.saturating_add(1), since }
                } else {
                    Attempts { key: copy_bytes(key), count: 1, since: now }
                };
                let ghost before = self.entries@;
                let mut entries: Vec<Attempts> = Vec::new();
                std::mem::swap(&mut entries, &mut self.entries);
                entries.set(i, entry);
                proof {
                    lemma_replaced(before, entries@, i as int);
                }
                self.entries = entries;
            },
            None => {
                let ghost before = self.entries@;
                let mut entries: Vec<Attempts> = Vec::new();
                std::mem::swap(&mut entries, &mut self.entries);
                entries.push(Attempts { key: copy_bytes(key), count: 1, since: now });
                proof {
                    assert(entries@.drop_last() =~= before);
                    assert forall|a: int, b: int|
                        0 <= a < b < entries@.len() implies entries@[a].key@
                        != entries@[b].key@ by {
                        if b == entries@.len() - 1 {
                            assert(table_of(before).contains_key(before[a].key@));
                        }
                    }
                }
                self.entries = entries;
            },
        }
    }

    /// Checks the rate limit of a session name at the current time: fails
    /// with `RateLimited` when the name has had five failed attempts within
    /// the last fifteen minutes; forgets the name's failures once its window
    /// has passed.
    pub fn check_rate_limit(&mut self, session_name: &str) -> (r: Result<(), Error>)
        ensures
            r is Err ==> r matches Err(Error::RateLimited),
            exists|now: u128|
                {
                    &&& (r is Err <==> is_rate_limited(old(self)@, session_name.spec_bytes(), now))
                    &&& final(self)@ == after_check(old(self)@, session_name.spec_bytes(), now)
                    &&& now == final(self).clock()
                },
            old(self).clock() <= final(self).clock(),
            r is Err <==> is_rate_limited(
                old(self)@,
                session_name.spec_bytes(),
                final(self).clock(),
            ),
            final(self)@ == after_check(old(self)@, session_name.spec_bytes(), final(self).clock()),
    {
        let now = self.now();
        self.check_rate_limit_at(session_name.as_bytes(), now)
    }

    /// Records a failed authentication attempt for a session name at the
    /// current time.
    pub fn record_failed_attempt(&mut self, session_name: &str)
        ensures
            exists|now: u128|
                final(self)@ == after_failure(old(self)@, session_name.spec_bytes(), now) && now
                    == final(self).clock(),
            old(self).clock() <= final(self).clock(),
            final(self)@ == after_failure(
                old(self)@,
                session_name.spec_bytes(),
                final(self).clock(),
            ),
    {
        let now = self.now();
        self.record_failed_attempt_at(session_name.as_bytes(), now);
    }
}

/// Removing the entry at `i` removes its key from the table.
proof fn lemma_removed(before: Seq<Attempts>, after: Seq<Attempts>, i: int)
    requires
        keys_distinct(before),
        0 <= i < before.len(),
        after == before.remove(i),
    ensures
        keys_distinct(after),
        table_of(after) == table_of(before).remove(before[i].key@),
{
    assert forall|a: int, b: int| 0 <= a < b < after.len() implies after[a].key@
        != after[b].key@ by {
        let a0 = if a < i { a } else { a + 1 };
        let b0 = if b < i { b } else { b + 1 };
        assert(after[a] == before[a0]);
        assert(after[b] == before[b0]);
    }
    lemma_table_of(before);
    lemma_table_of(after);
    let k0 = before[i].key@;
    assert forall|k: Seq<u8>| #[trigger] table_of(after).contains_key(k) <==> table_of(
        before,
    ).remove(k0).contains_key(k) by {
        if table_of(after).contains_key(k) {
            let j = choose|j: int| 0 <= j < after.len() && (#[trigger] after[j]).key@ == k;
            let j0 = if j < i { j } else { j + 1 };
            assert(after[j] == before[j0]);
        }
        if table_of(before).remove(k0).contains_key(k) {
            let j = choose|j: int| 0 <= j < before.len() && (#[trigger] before[j]).key@ == k;
            let j1 = if j < i { j } else { j - 1 };
            assert(after[j1] == before[j]);
        }
    }
    assert forall|k: Seq<u8>| #[trigger] table_of(after).contains_key(k) implies table_of(
        after,
    )[k] == table_of(before)[k] by {
        let j = choose|j: int| 0 <= j < after.len() && (#[trigger] after[j]).key@ == k;
        let j0 = if j < i { j } else { j + 1 };
        assert(after[j] == before[j0]);
    }
    assert(table_of(after) =~= table_of(before).remove(k0));
}

/// Replacing the entry at `i` by one with the same key replaces that key's
/// count and start.
proof fn lemma_replaced(before: Seq<Attempts>, after: Seq<Attempts>, i: int)
    requires
        keys_distinct(before),
        0 <= i < before.len(),
        after.len() == before.len(),
        after[i].key@ == before[i].key@,
        forall|j: int| 0 <= j < before.len() && j != i ==> after[j] == before[j],
    ensures
        keys_distinct(after),
        table_of(after) == table_of(before).insert(
            before[i].key@,
            (after[i].count, after[i].since),
        ),
{
    assert forall|a: int, b: int| 0 <= a < b < after.len() implies after[a].key@
        != after[b].key@ by {
        assert(after[a].key@ == before[a].key@);
        assert(after[b].key@ == before[b].key@);
    }
    lemma_table_of(before);
    lemma_table_of(after);
    let k0 = before[i].key@;
    let target = table_of(before).insert(k0, (after[i].count, after[i].since));
    assert forall|k: Seq<u8>| #[trigger] table_of(after).contains_key(k) <==> target.contains_key(
        k,
    ) by {
        if table_of(after).contains_key(k) {
            let j = choose|j: int| 0 <= j < after.len() && (#[trigger] after[j]).key@ == k;
            assert(after[j].key@ == before[j].key@);
        }
        if table_of(before).contains_key(k) {
            let j = choose|j: int| 0 <= j < before.len() && (#[trigger] before[j]).key@ == k;
            assert(after[j].key@ == before[j].key@);
        }
    }
    assert forall|k: Seq<u8>| #[trigger] table_of(after).contains_key(k) implies table_of(
        after,
    )[k] == target[k] by {
        let j = choose|j: int| 0 <= j < after.len() && (#[trigger] after[j]).key@ == k;
        if j != i {
            assert(after[j] == before[j]);
        }
    }
    assert(table_of(after) =~= target);
}

/// The table after failed attempts on `key` at each of `times`, in order.
pub open spec fn after_failures(
    t: Map<Seq<u8>, (usize, u128)>,
    key: Seq<u8>,
    times: Seq<u128>,
) -> Map<Seq<u8>, (usize, u128)>
    decreases times.len(),
{
    if times.len() == 0 {
        t
    } else {
        after_failure(after_failures(t, key, times.drop_last()), key, times.last())
    }
}

/// `k` failures counted one each, stopping at the largest `usize`.
pub open spec fn failure_count(k: nat) -> usize {
    if k < usize::MAX {
        k as usize
    } else {
        usize::MAX
    }
}

/// Failures within one window count one each from the first: when the first
/// failure finds no live window for the name and every later one falls
/// within fifteen minutes of it, `k` failures leave the name with a count
/// of `k` (the count stops at the largest `usize`) and the window that the
/// first opened.  Other names keep their entries.
pub proof fn failures_in_window_count(
    t: Map<Seq<u8>, (usize, u128)>,
    key: Seq<u8>,
    times: Seq<u128>,
)
    requires
        0 < times.len(),
        !t.contains_key(key) || !within_window(times[0], t[key].1),
        forall|i: int| 0 <= i < times.len() ==> within_window(#[trigger] times[i], times[0]),
    ensures
        after_failures(t, key, times).contains_key(key),
        after_failures(t, key, times)[key] == (failure_count(times.len()), times[0]),
        forall|k: Seq<u8>|
            k != key ==> (#[trigger] after_failures(t, key, times).contains_key(k)
                == t.contains_key(k)),
        forall|k: Seq<u8>|
            k != key && t.contains_key(k) ==> #[trigger] after_failures(t, key, times)[k] == t[k],
    decreases times.len(),
{
    let rest = times.drop_last();
    if times.len() == 1 {
        assert(after_failures(t, key, rest) == t);
    } else {
        assert forall|i: int| 0 <= i < rest.len() implies within_window(
            #[trigger] rest[i],
            rest[0],
        ) by {
            assert(rest[i] == times[i]);
        }
        failures_in_window_count(t, key, rest);
        assert(within_window(times[times.len() - 1], times[0]));
    }
}

/// Lockout after any number of failures: after `k` failures within the
/// window that the first of them opened, a check at `now` within that
/// window is refused exactly when `k` is at least five; once the window has
/// passed, the check lets the name through and forgets its failures.
pub proof fn lockout_after_failures(
    t: Map<Seq<u8>, (usize, u128)>,
    key: Seq<u8>,
    times: Seq<u128>,
    now: u128,
)
    requires
        0 < times.len(),
        !t.contains_key(key) || !within_window(times[0], t[key].1),
        forall|i: int| 0 <= i < times.len() ==> within_window(#[trigger] times[i], times[0]),
    ensures
        within_window(now, times[0]) ==> (is_rate_limited(after_failures(t, key, times), key, now)
            <==> times.len() >= MAX_FAILED_ATTEMPTS),
        !within_window(now, times[0]) ==> {
            &&& !is_rate_limited(after_failures(t, key, times), key, now)
            &&& !after_check(after_failures(t, key, times), key, now).contains_key(key)
        },
{
    failures_in_window_count(t, key, times);
}

/// The clock readings at which the failures of `states` were recorded:
/// the clock of each state after the first.
pub open spec fn failure_times(
    states: Seq<(Map<Seq<u8>, (usize, u128)>, u128)>,
    k: nat,
) -> Seq<u128> {
    Seq::new(k, |i: int| states[i + 1].1)
}

/// Each state, a table with the limiter's clock, follows the one before as
/// `record_failed_attempt` on `key` leaves it: the clock reads no earlier
/// than before, and the failure is recorded at that reading.
pub open spec fn failures_on_the_clock(
    states: Seq<(Map<Seq<u8>, (usize, u128)>, u128)>,
    key: Seq<u8>,
) -> bool {
    forall|i: int|
        0 <= i < states.len() - 1 ==> {
            &&& #[trigger] states[i].1 <= states[i + 1].1
            &&& states[i + 1].0 == after_failure(states[i].0, key, states[i + 1].1)
        }
}

/// A run of failures on the clock leaves the table that failures at the
/// clock's readings leave.
proof fn lemma_failures_on_the_clock(
    states: Seq<(Map<Seq<u8>, (usize, u128)>, u128)>,
    key: Seq<u8>,
    k: nat,
)
    requires
        k < states.len(),
        failures_on_the_clock(states, key),
    ensures
        states[k as int].0 == after_failures(states[0].0, key, failure_times(states, k)),
    decreases k,
{
    if k > 0 {
        lemma_failures_on_the_clock(states, key, (k - 1) as nat);
        assert(failure_times(states, k).drop_last() =~= failure_times(states, (k - 1) as nat));
        assert(states[k - 1].1 <= states[(k - 1) + 1].1);
    }
}

/// Lockout on the limiter's own clock.  A name without a live window takes
/// `k` failed attempts through `record_failed_attempt`, all within fifteen
/// minutes of the first, and is then checked by `check_rate_limit` at a
/// reading `now` of the same clock, which never goes back.  Within fifteen
/// minutes of the first failure the check is refused exactly when `k` is at
/// least five; from fifteen minutes on it is let through, and the name's
/// failures are forgotten.
pub proof fn lockout_on_the_clock(
    states: Seq<(Map<Seq<u8>, (usize, u128)>, u128)>,
    key: Seq<u8>,
    now: u128,
)
    requires
        states.len() >= 2,
        failures_on_the_clock(states, key),
        !states[0].0.contains_key(key) || !within_window(states[1].1, states[0].0[key].1),
        within_window(states.last().1, states[1].1),
        states.last().1 <= now,
    ensures
        within_window(now, states[1].1) ==> (is_rate_limited(states.last().0, key, now) <==> states.len()
            - 1 >= MAX_FAILED_ATTEMPTS),
        !within_window(now, states[1].1) ==> {
            &&& !is_rate_limited(states.last().0, key, now)
            &&& !after_check(states.last().0, key, now).contains_key(key)
        },
{
    let k = (states.len() - 1) as nat;
    let times = failure_times(states, k);
    lemma_failures_on_the_clock(states, key, k);
    lemma_clock_is_monotone(states, key);
    assert forall|i: int| 0 <= i < times.len() implies within_window(
        #[trigger] times[i],
        times[0],
    ) by {
        assert(times[i] == states[i + 1].1);
        assert(states[1].1 <= states[i + 1].1 <= states[k as int].1);
    }
    lockout_after_failures(states[0].0, key, times, now);
}

/// The clock of a run of failures never goes back: a later state reads no
/// earlier than an earlier one.
proof fn lemma_clock_is_monotone(
    states: Seq<(Map<Seq<u8>, (usize, u128)>, u128)>,
    key: Seq<u8>,
)
    requires
        failures_on_the_clock(states, key),
    ensures
        forall|i: int, j: int| 0 <= i <= j < states.len() ==> states[i].1 <= states[j].1,
{
    assert forall|i: int, j: int| 0 <= i <= j < states.len() implies states[i].1
        <= states[j].1 by {
        lemma_clock_step(states, key, i, j);
    }
}

/// Between two states of a run of failures, the clock reads no earlier at
/// the later one.
proof fn lemma_clock_step(
    states: Seq<(Map<Seq<u8>, (usize, u128)>, u128)>,
    key: Seq<u8>,
    i: int,
    j: int,
)
    requires
        failures_on_the_clock(states, key),
        0 <= i <= j < states.len(),
    ensures
        states[i].1 <= states[j].1,
    decreases j - i,
{
    if i < j {
        lemma_clock_step(states, key, i, j - 1);
        assert(states[j - 1].1 <= states[(j - 1) + 1].1);
    }
}

/// Once the window of a name has passed, a check lets it through and forgets
/// its failures, however many there were.
pub proof fn expired_window_is_forgotten(t: Map<Seq<u8>, (usize, u128)>, key: Seq<u8>, now: u128)
    requires
        t.contains_key(key),
        !within_window(now, t[key].1),
    ensures
        !is_rate_limited(t, key, now),
        !after_check(t, key, now).contains_key(key),
{
}

/// A check changes nothing for a name that is locked out, and never touches
/// the entries of other names.
pub proof fn check_keeps_other_names(
    t: Map<Seq<u8>, (usize, u128)>,
    key: Seq<u8>,
    other: Seq<u8>,
    now: u128,
)
    requires
        other != key,
    ensures
        is_rate_limited(t, key, now) ==> after_check(t, key, now) == t,
        after_check(t, key, now).contains_key(other) == t.contains_key(other),
        t.contains_key(other) ==> after_check(t, key, now)[other] == t[other],
{
}

/// Calls `std::time::Instant::now`.  Nothing is stated of the instant it
/// returns: it depends on the machine's clock.
#[verifier::external_body]
fn instant_now() -> std::time::Instant {
    std::time::Instant::now()
}

/// Calls `Instant::elapsed` and gives the time in nanoseconds.  Nothing is
/// stated of the result: it depends on the machine's clock.
#[verifier::external_body]
fn nanos_since(origin: &std::time::Instant) -> u128 {
    origin.elapsed().as_nanos()
}

} // verus!
