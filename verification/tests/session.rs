use conduit::error::Error;
use conduit::session::{delivery_outcome, wait_outcome, PendingSession, SessionRegistry};
use conduit::{SessionName, Token};

fn name(text: &str) -> SessionName {
    SessionName::parse_str(text).unwrap()
}

fn token(text: &str) -> Token {
    Token::parse_str(text).unwrap()
}

fn byte_channel() -> (
    conduit::session::ByteSender,
    tokio::sync::mpsc::Receiver<
        Result<actix_web::web::Bytes, actix_web::error::PayloadError>,
    >,
) {
    tokio::sync::mpsc::channel(8)
}

#[test]
fn session_names_have_bounds() {
    assert!(SessionName::parse_str("short").is_err());
    assert!(SessionName::parse_str("exactly-10").is_ok());
    assert!(SessionName::parse_str("a-name-of-thirty-one-characters").is_err());
}

#[test]
fn taken_names_are_refused() {
    let mut registry = SessionRegistry::new();
    let _waiting = registry.create(name("my-vacation-photos"), None).unwrap();
    assert!(matches!(
        registry.create(name("my-vacation-photos"), None),
        Err(Error::SessionExists)
    ));
}

#[test]
fn claim_hands_over_the_byte_channel() {
    let mut registry = SessionRegistry::new();
    let mut waiting = registry
        .create(name("my-vacation-photos"), Some(token("secret-token")))
        .unwrap();
    let (sender, _receiver) = byte_channel();
    assert!(registry
        .claim(name("my-vacation-photos"), Some(token("secret-token")), sender)
        .is_ok());
    assert!(waiting.try_recv().is_ok());
    assert!(!registry.contains(&name("my-vacation-photos")));
}

#[test]
fn wrong_token_is_refused_and_session_kept() {
    let mut registry = SessionRegistry::new();
    let _waiting = registry
        .create(name("my-vacation-photos"), Some(token("valid_token")))
        .unwrap();
    let (sender, _receiver) = byte_channel();
    assert!(matches!(
        registry.claim(name("my-vacation-photos"), Some(token("invalid_token")), sender.clone()),
        Err(Error::FailedAuthSession)
    ));
    assert!(matches!(
        registry.claim(name("my-vacation-photos"), None, sender.clone()),
        Err(Error::FailedAuthSession)
    ));
    assert!(registry.contains(&name("my-vacation-photos")));
    assert!(registry
        .claim(name("my-vacation-photos"), Some(token("valid_token")), sender)
        .is_ok());
}

#[test]
fn unknown_sessions_are_reported_by_name() {
    let mut registry = SessionRegistry::new();
    let (sender, _receiver) = byte_channel();
    match registry.claim(name("nobody-uploads-here"), None, sender) {
        Err(Error::UnknownSession(n)) => assert_eq!(n.as_str(), "nobody-uploads-here"),
        _ => panic!("expected UnknownSession"),
    }
}

#[test]
fn a_claimed_session_cannot_be_claimed_again() {
    let mut registry = SessionRegistry::new();
    let _waiting = registry.create(name("my-vacation-photos"), None).unwrap();
    let (sender, _receiver) = byte_channel();
    assert!(registry.claim(name("my-vacation-photos"), None, sender.clone()).is_ok());
    assert!(matches!(
        registry.claim(name("my-vacation-photos"), None, sender),
        Err(Error::UnknownSession(_))
    ));
}

#[test]
fn gone_uploader_is_reported() {
    let mut registry = SessionRegistry::new();
    let waiting = registry.create(name("my-vacation-photos"), None).unwrap();
    drop(waiting);
    let (sender, _receiver) = byte_channel();
    match registry.claim(name("my-vacation-photos"), None, sender) {
        Err(Error::BadConduit(message)) => assert_eq!(
            message,
            "Sender for my-vacation-photos dropped before receiver could claim it"
        ),
        _ => panic!("expected BadConduit"),
    }
    assert!(!registry.contains(&name("my-vacation-photos")));
}

#[test]
fn delivery_outcome_messages() {
    assert!(delivery_outcome(true, &name("some-session")).is_ok());
    assert!(matches!(
        delivery_outcome(false, &name("some-session")),
        Err(Error::BadConduit(_))
    ));
}

#[test]
fn pending_session_removes_unless_disarmed() {
    let mut registry = SessionRegistry::new();
    let _a = registry.create(name("first-session"), None).unwrap();
    let _b = registry.create(name("second-session"), None).unwrap();
    let first = PendingSession::new(name("first-session"));
    let mut second = PendingSession::new(name("second-session"));
    second.disarm();
    first.release(&mut registry);
    second.release(&mut registry);
    assert!(!registry.contains(&name("first-session")));
    assert!(registry.contains(&name("second-session")));
}

#[test]
fn removing_frees_the_name() {
    let mut registry = SessionRegistry::new();
    let _a = registry.create(name("my-vacation-photos"), None).unwrap();
    registry.remove(&name("my-vacation-photos"));
    assert!(registry.create(name("my-vacation-photos"), None).is_ok());
}

#[test]
fn status_codes() {
    assert_eq!(Error::FailedAuthSession.status_code(), 403);
    assert_eq!(Error::UnknownSession(name("some-session")).status_code(), 404);
    assert_eq!(Error::SessionExists.status_code(), 409);
    assert_eq!(Error::WeakToken.status_code(), 400);
    assert_eq!(Error::TokenLength.status_code(), 400);
    assert_eq!(Error::RateLimited.status_code(), 500);
    assert_eq!(Error::SenderTimeout.status_code(), 500);
}

#[test]
fn wait_outcomes_map_to_errors() {
    assert!(matches!(wait_outcome(None), Err(Error::SenderTimeout)));
    assert!(matches!(wait_outcome(Some(None)), Err(Error::ReceiverDisconnected)));
    let (bytes_sender, _bytes_receiver) = tokio::sync::mpsc::channel(8);
    assert!(wait_outcome(Some(Some(bytes_sender))).is_ok());
}
