//! The rules of the store that keeps sessions in a database with hashed
//! tokens: what a new session stores, and when a downloader's token is
//! accepted.  Reading and writing the database is left to the caller.
use vstd::prelude::*;
use crate::error::Error;
use crate::rate_limit::{
    after_check, after_failure, is_rate_limited, within_window, RateLimiter, MAX_FAILED_ATTEMPTS,
};
use crate::token::{
    argon2_accepts, hash_token_bytes, phc_parses, token_verdict, validate_token,
    verify_outcome, verify_token_bytes,
};
use crate::{SessionName, Token};

verus! {

/// The token of an optional reference to a token.
pub open spec fn token_ref_view(t: Option<&Token>) -> Option<Seq<u8>> {
    match t {
        Some(t) => Some(t@),
        None => None,
    }
}

/// The text of an optional stored hash.
pub open spec fn hash_view(h: Option<&str>) -> Option<Seq<char>> {
    match h {
        Some(h) => Some(h@),
        None => None,
    }
}

/// Whether a token is accepted for a session that stores `stored`: a
/// session without a hash accepts only the absence of a token, a session
/// with a hash only a token that verifies against it.
pub open spec fn stored_accepts(stored: Option<Seq<char>>, token: Option<Seq<u8>>) -> bool {
    match (stored, token) {
        (Some(h), Some(t)) => verify_outcome(t, h) == Some(true),
        (None, None) => true,
        _ => false,
    }
}

/// What a new session stores for its token.  A given token is validated
/// first; then a taken name fails with `SessionExists`; then the token, if
/// any, is hashed.
pub fn new_session_record(token: Option<&Token>, name_taken: bool) -> (r: Result<
    Option<String>,
    Error,
>)
    ensures
        match token {
            Some(t) => if token_verdict(t@) is Some {
                r == Err::<Option<String>, Error>(token_verdict(t@)->Some_0)
            } else if name_taken {
                r matches Err(Error::SessionExists)
            } else {
                r matches Ok(Some(h)) && phc_parses(h@) && argon2_accepts(t@, h@)
            },
            None => if name_taken {
                r matches Err(Error::SessionExists)
            } else {
                r == Ok::<Option<String>, Error>(None)
            },
        },
{
    if let Some(t) = token {
        validate_token(t)?;
    }
    if name_taken {
        return Err(Error::SessionExists);
    }
    match token {
        Some(t) => {
            let bytes = t.as_slice();
            let hash = hash_token_bytes(bytes)?;
            Ok(Some(hash))
        },
        None => Ok(None),
    }
}

/// Whether a session that stores `stored_hash` accepts `token`.  A hash
/// that does not parse accepts nothing.
pub fn stored_token_matches(stored_hash: Option<&str>, token: Option<&Token>) -> (r: bool)
    ensures
        r == stored_accepts(hash_view(stored_hash), token_ref_view(token)),
{
    match (stored_hash, token) {
        (Some(_), None) => false,
        (Some(stored), Some(provided)) => {
            match verify_token_bytes(provided.as_slice(), stored) {
                Ok(matches) => matches,
                Err(_) => false,
            }
        },
        (None, provided) => provided.is_none(),
    }
}

/// How the confirmation of a downloader's token ends.
pub enum Verdict {
    /// Too many failed attempts on the name.
    Limited,
    /// No session of the name is stored.
    Unknown,
    /// The token is accepted; the session is to be removed.
    Accepted,
    /// The token is refused and counted as a failed attempt.
    Refused,
}

/// The verdict for a downloader, given the rate limiter's table at `now`
/// and what the store holds under the name.
pub open spec fn confirm_verdict(
    t: Map<Seq<u8>, (usize, u128)>,
    key: Seq<u8>,
    token: Option<Seq<u8>>,
    stored: Option<Option<Seq<char>>>,
    now: u128,
) -> Verdict {
    if is_rate_limited(t, key, now) {
        Verdict::Limited
    } else {
        match stored {
            None => Verdict::Unknown,
            Some(h) => if stored_accepts(h, token) {
                Verdict::Accepted
            } else {
                Verdict::Refused
            },
        }
    }
}

/// The rate limiter's table after a confirmation: checked at `checked`,
/// and with a failed attempt at `failed` when the token was refused.
pub open spec fn confirm_table(
    t: Map<Seq<u8>, (usize, u128)>,
    key: Seq<u8>,
    v: Verdict,
    checked: u128,
    failed: u128,
) -> Map<Seq<u8>, (usize, u128)> {
    match v {
        Verdict::Refused => after_failure(after_check(t, key, checked), key, failed),
        _ => after_check(t, key, checked),
    }
}

/// The result for each verdict.
pub open spec fn result_for(r: Result<(), Error>, v: Verdict, name: Seq<u8>) -> bool {
    match v {
        Verdict::Limited => r matches Err(Error::RateLimited),
        Verdict::Unknown => r matches Err(Error::UnknownSession(n)) && n@ == name,
        Verdict::Accepted => r is Ok,
        Verdict::Refused => r matches Err(Error::FailedAuthSession),
    }
}

/// The view of what the store holds under a name: nothing, or a session
/// with or without a hash.
pub open spec fn stored_view(stored: Option<Option<&str>>) -> Option<Option<Seq<char>>> {
    match stored {
        Some(h) => Some(hash_view(h)),
        None => None,
    }
}

/// The rate limiter's table and clock reading.
pub type LimiterState = (Map<Seq<u8>, (usize, u128)>, u128);

/// One confirmation of `key`, as `confirm_session_token` states it: the
/// check reads the limiter's clock at `checked`, no earlier than before; a
/// refused token is counted at `failed`, no earlier than the check, which
/// is the clock's reading afterwards.
pub open spec fn confirmation(
    before: LimiterState,
    after: LimiterState,
    key: Seq<u8>,
    token: Option<Seq<u8>>,
    stored: Option<Option<Seq<char>>>,
    r: Result<(), Error>,
) -> bool {
    exists|checked: u128, failed: u128|
        #![trigger confirm_table(before.0, key, confirm_verdict(before.0, key, token, stored, checked), checked, failed)]
        {
            &&& before.1 <= checked
            &&& checked <= failed
            &&& failed == after.1
            &&& result_for(r, confirm_verdict(before.0, key, token, stored, checked), key)
            &&& after.0 == confirm_table(
                before.0,
                key,
                confirm_verdict(before.0, key, token, stored, checked),
                checked,
                failed,
            )
        }
}

/// Confirms a downloader's token for a session: first the rate limit of the
/// name is checked; then an absent session fails with `UnknownSession`; a
/// refused token fails with `FailedAuthSession` and is counted as a failed
/// attempt.  `Ok` means the token is accepted and the session is to be
/// removed from the store.
pub fn confirm_session_token(
    limiter: &mut RateLimiter,
    session_name: SessionName,
    token: Option<&Token>,
    stored: Option<Option<&str>>,
) -> (r: Result<(), Error>)
    ensures
        exists|checked: u128, failed: u128|
            #![trigger confirm_table(old(limiter)@, session_name@, confirm_verdict(old(limiter)@, session_name@, token_ref_view(token), stored_view(stored), checked), checked, failed)]
            {
                &&& result_for(
                    r,
                    confirm_verdict(
                        old(limiter)@,
                        session_name@,
                        token_ref_view(token),
                        stored_view(stored),
                        checked,
                    ),
                    session_name@,
                )
                &&& final(limiter)@ == confirm_table(
                    old(limiter)@,
                    session_name@,
                    confirm_verdict(
                        old(limiter)@,
                        session_name@,
                        token_ref_view(token),
                        stored_view(stored),
                        checked,
                    ),
                    checked,
                    failed,
                )
                &&& old(limiter).clock() <= checked
                &&& checked <= failed
                &&& failed == final(limiter).clock()
            },
        confirmation(
            (old(limiter)@, old(limiter).clock()),
            (final(limiter)@, final(limiter).clock()),
            session_name@,
            token_ref_view(token),
            stored_view(stored),
            r,
        ),
{
    let checked = limiter.now();
    let ghost before = limiter@;
    let ghost v = confirm_verdict(
        before,
        session_name@,
        token_ref_view(token),
        stored_view(stored),
        checked,
    );
    let limit = limiter.check_rate_limit_at(session_name.as_slice(), checked);
    if limit.is_err() {
        assert(limiter@ == confirm_table(before, session_name@, v, checked, checked));
        return Err(Error::RateLimited);
    }
    match stored {
        None => {
            assert(limiter@ == confirm_table(before, session_name@, v, checked, checked));
            Err(Error::UnknownSession(session_name))
        },
        Some(stored_hash) => {
            if stored_token_matches(stored_hash, token) {
                assert(limiter@ == confirm_table(before, session_name@, v, checked, checked));
                Ok(())
            } else {
                let failed = limiter.now();
                limiter.record_failed_attempt_at(session_name.as_slice(), failed);
                assert(limiter@ == confirm_table(before, session_name@, v, checked, failed));
                Err(Error::FailedAuthSession)
            }
        },
    }
}

/// A session made with a token accepts that token: whatever hash
/// `new_session_record` stored for it, the token verifies against it.
pub proof fn created_token_is_accepted(token: Seq<u8>, hash: Seq<char>)
    requires
        phc_parses(hash),
        argon2_accepts(token, hash),
    ensures
        stored_accepts(Some(hash), Some(token)),
{
}

/// A session made without a token accepts exactly the absence of a token,
/// and a session made with one refuses the absence of a token.
pub proof fn tokenless_sessions_want_no_token(token: Option<Seq<u8>>, hash: Seq<char>)
    ensures
        stored_accepts(None, token) <==> token is None,
        !stored_accepts(Some(hash), None),
{
}

/// A run of confirmations of one name against one stored session, each as
/// `confirm_session_token` states it: `tokens[i]` is offered at step `i`,
/// which answers `results[i]` and takes the limiter from `states[i]` to
/// `states[i + 1]`.
pub open spec fn confirmation_run(
    states: Seq<LimiterState>,
    results: Seq<Result<(), Error>>,
    key: Seq<u8>,
    tokens: Seq<Option<Seq<u8>>>,
    hash: Option<Seq<char>>,
) -> bool {
    &&& states.len() == results.len() + 1
    &&& tokens.len() == results.len()
    &&& forall|i: int|
        0 <= i < results.len() ==> #[trigger] confirmation(
            states[i],
            states[i + 1],
            key,
            tokens[i],
            Some(hash),
            results[i],
        )
}

/// Five refused tokens lock a name out, on the limiter's own clock.  A name
/// that the limiter does not hold is confirmed again and again against a
/// stored session, the first five times with a token that the session
/// refuses, and all within fifteen minutes of the first refusal.  Each of
/// the first five answers `FailedAuthSession`; every later confirmation
/// answers `RateLimited`, whatever its token, the right one too.
pub proof fn refused_confirmations_lock_out(
    states: Seq<LimiterState>,
    results: Seq<Result<(), Error>>,
    key: Seq<u8>,
    tokens: Seq<Option<Seq<u8>>>,
    hash: Option<Seq<char>>,
)
    requires
        results.len() >= 1,
        confirmation_run(states, results, key, tokens, hash),
        !states[0].0.contains_key(key),
        forall|i: int| 0 <= i < results.len() && i < MAX_FAILED_ATTEMPTS ==> !stored_accepts(
            hash,
            #[trigger] tokens[i],
        ),
        within_window(states.last().1, states[1].1),
    ensures
        forall|i: int|
            0 <= i < results.len() && i < MAX_FAILED_ATTEMPTS ==> #[trigger] results[i] matches Err(
                Error::FailedAuthSession,
            ),
        forall|i: int|
            MAX_FAILED_ATTEMPTS <= i < results.len() ==> #[trigger] results[i] matches Err(
                Error::RateLimited,
            ),
{
    assert forall|i: int| 0 <= i < results.len() implies (i < MAX_FAILED_ATTEMPTS ==> #[trigger] results[i] matches Err(Error::FailedAuthSession))
        && (i >= MAX_FAILED_ATTEMPTS ==> results[i] matches Err(Error::RateLimited)) by {
        lemma_refused_run(states, results, key, tokens, hash, i + 1);
    }
}

/// The readings of a confirmation run never go back.
proof fn lemma_run_clock(
    states: Seq<LimiterState>,
    results: Seq<Result<(), Error>>,
    key: Seq<u8>,
    tokens: Seq<Option<Seq<u8>>>,
    hash: Option<Seq<char>>,
    i: int,
    j: int,
)
    requires
        confirmation_run(states, results, key, tokens, hash),
        0 <= i <= j < states.len(),
    ensures
        states[i].1 <= states[j].1,
    decreases j - i,
{
    if i < j {
        lemma_run_clock(states, results, key, tokens, hash, i, j - 1);
        let p = j - 1;
        assert(confirmation(states[p], states[p + 1], key, tokens[p], Some(hash), results[p]));
    }
}

/// After `i` steps of the run, the name holds `i` failures, at most five,
/// in the window that the first refusal opened, and step `i - 1` answered
/// as the lockout law says.
proof fn lemma_refused_run(
    states: Seq<LimiterState>,
    results: Seq<Result<(), Error>>,
    key: Seq<u8>,
    tokens: Seq<Option<Seq<u8>>>,
    hash: Option<Seq<char>>,
    i: int,
)
    requires
        1 <= i < states.len(),
        confirmation_run(states, results, key, tokens, hash),
        !states[0].0.contains_key(key),
        forall|j: int| 0 <= j < results.len() && j < MAX_FAILED_ATTEMPTS ==> !stored_accepts(
            hash,
            #[trigger] tokens[j],
        ),
        within_window(states.last().1, states[1].1),
    ensures
        states[i].0.contains_key(key),
        states[i].0[key] == (
            if i < MAX_FAILED_ATTEMPTS {
                i as usize
            } else {
                MAX_FAILED_ATTEMPTS
            },
            states[1].1,
        ),
        i - 1 < MAX_FAILED_ATTEMPTS ==> results[i - 1] matches Err(Error::FailedAuthSession),
        i - 1 >= MAX_FAILED_ATTEMPTS ==> results[i - 1] matches Err(Error::RateLimited),
    decreases i,
{
    let last = states.len() - 1;
    let k = i - 1;
    assert(confirmation(states[k], states[k + 1], key, tokens[k], Some(hash), results[k]));
    let (checked, failed) = choose|checked: u128, failed: u128|
        #![trigger confirm_table(states[k].0, key, confirm_verdict(states[k].0, key, tokens[k], Some(hash), checked), checked, failed)]
        {
            &&& states[k].1 <= checked
            &&& checked <= failed
            &&& failed == states[k + 1].1
            &&& result_for(results[k], confirm_verdict(states[k].0, key, tokens[k], Some(hash), checked), key)
            &&& states[k + 1].0 == confirm_table(
                states[k].0,
                key,
                confirm_verdict(states[k].0, key, tokens[k], Some(hash), checked),
                checked,
                failed,
            )
        };
    lemma_run_clock(states, results, key, tokens, hash, k + 1, last);
    if k == 0 {
        assert(!is_rate_limited(states[0].0, key, checked));
        assert(after_check(states[0].0, key, checked) == states[0].0);
    } else {
        lemma_refused_run(states, results, key, tokens, hash, k);
        lemma_run_clock(states, results, key, tokens, hash, 1, k);
        let since = states[1].1;
        assert(since <= checked <= failed <= states[last].1);
        assert(within_window(checked, since));
        assert(within_window(failed, since));
        assert(after_check(states[k].0, key, checked) == states[k].0);
    }
}

} // verus!
