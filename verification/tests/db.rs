use conduit::bridge::{handover_outcome, WaitingSenders};
use conduit::db::{confirm_session_token, new_session_record, stored_token_matches};
use conduit::error::Error;
use conduit::rate_limit::RateLimiter;
use conduit::{SessionName, Token};

fn name(text: &str) -> SessionName {
    SessionName::parse_str(text).unwrap()
}

fn token(text: &str) -> Token {
    Token::parse_str(text).unwrap()
}

#[test]
fn new_session_validates_then_hashes() {
    assert!(matches!(
        new_session_record(Some(&token("weak_token_1")), false),
        Err(Error::WeakToken)
    ));
    // validation comes before the name check
    assert!(matches!(
        new_session_record(Some(&token("shorty12")), true),
        Err(Error::TokenLength)
    ));
    assert!(matches!(new_session_record(None, true), Err(Error::SessionExists)));
    assert!(matches!(new_session_record(None, false), Ok(None)));
    let stored = new_session_record(Some(&token("P@ssw0rd_S3cur3!X9z")), false)
        .unwrap()
        .unwrap();
    assert!(stored_token_matches(Some(&stored), Some(&token("P@ssw0rd_S3cur3!X9z"))));
    assert!(!stored_token_matches(Some(&stored), Some(&token("P@ssw0rd_S3cur3!X9y"))));
    assert!(!stored_token_matches(Some(&stored), None));
}

#[test]
fn tokenless_sessions_accept_only_no_token() {
    assert!(stored_token_matches(None, None));
    assert!(!stored_token_matches(None, Some(&token("any-token-at-all"))));
    assert!(!stored_token_matches(Some("garbage"), Some(&token("any-token-at-all"))));
}

#[test]
fn confirmation_counts_failures_and_locks_out() {
    let mut limiter = RateLimiter::new();
    let stored = new_session_record(Some(&token("P@ssw0rd_S3cur3!X9z")), false)
        .unwrap()
        .unwrap();
    for _ in 0..5 {
        assert!(matches!(
            confirm_session_token(
                &mut limiter,
                name("guarded-session"),
                Some(&token("not-the-token")),
                Some(Some(&stored))
            ),
            Err(Error::FailedAuthSession)
        ));
    }
    // even the right token is refused now
    assert!(matches!(
        confirm_session_token(
            &mut limiter,
            name("guarded-session"),
            Some(&token("P@ssw0rd_S3cur3!X9z")),
            Some(Some(&stored))
        ),
        Err(Error::RateLimited)
    ));
    assert!(confirm_session_token(
        &mut limiter,
        name("another-session"),
        Some(&token("P@ssw0rd_S3cur3!X9z")),
        Some(Some(&stored))
    )
    .is_ok());
    assert!(matches!(
        confirm_session_token(&mut limiter, name("missing-session"), None, None),
        Err(Error::UnknownSession(_))
    ));
}

#[test]
fn waiting_sender_is_notified_once() {
    let mut waiting = WaitingSenders::new();
    let mut receiver = waiting.wait_for_receiver(name("waiting-upload"));
    let (bytes_sender, _bytes_receiver) = tokio::sync::mpsc::channel(8);
    assert!(waiting.notify_sender(name("waiting-upload"), bytes_sender.clone()).is_ok());
    assert!(receiver.try_recv().is_ok());
    match waiting.notify_sender(name("waiting-upload"), bytes_sender) {
        Err(Error::BadConduit(message)) => assert_eq!(
            message,
            "No WAITING_SENDER for waiting-upload even though confirm_session_token was Ok(true)"
        ),
        _ => panic!("expected BadConduit"),
    }
}

#[test]
fn notifying_a_gone_uploader_is_reported() {
    let mut waiting = WaitingSenders::new();
    let receiver = waiting.wait_for_receiver(name("waiting-upload"));
    drop(receiver);
    let (bytes_sender, _bytes_receiver) = tokio::sync::mpsc::channel(8);
    match waiting.notify_sender(name("waiting-upload"), bytes_sender) {
        Err(Error::BadConduit(message)) => assert_eq!(
            message,
            "Receiver for waiting-upload has dropped by the time of `send`"
        ),
        _ => panic!("expected BadConduit"),
    }
}

#[test]
fn handover_outcome_reports_a_gone_uploader() {
    assert!(handover_outcome(true, &name("waiting-upload")).is_ok());
    match handover_outcome(false, &name("waiting-upload")) {
        Err(Error::BadConduit(message)) => assert_eq!(
            message,
            "Receiver for waiting-upload has dropped by the time of `send`"
        ),
        _ => panic!("expected BadConduit"),
    }
}
