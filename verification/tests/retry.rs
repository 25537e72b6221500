use conduit::error::Error;
use conduit::retry::{Backoff, RetryStep};
use conduit::SessionName;

fn unknown() -> Result<(), Error> {
    Err(Error::UnknownSession(SessionName::parse_str("missing-session").unwrap()))
}

#[test]
fn waits_double_then_give_up() {
    let mut backoff = Backoff::new();
    let mut waits = Vec::new();
    loop {
        match backoff.step(unknown()) {
            RetryStep::Wait(ms) => waits.push(ms),
            RetryStep::Done(result) => {
                assert!(matches!(result, Err(Error::UnknownSession(_))));
                break;
            }
        }
    }
    assert_eq!(waits, vec![100, 200, 400, 800, 1600]);
    // the downloader gives up well within six seconds
    assert_eq!(waits.iter().sum::<u64>(), 3100);
}

#[test]
fn success_and_other_errors_end_at_once() {
    let mut backoff = Backoff::new();
    assert!(matches!(backoff.step(Ok(())), RetryStep::Done(Ok(()))));
    let mut backoff = Backoff::new();
    assert!(matches!(backoff.step(unknown()), RetryStep::Wait(100)));
    assert!(matches!(
        backoff.step(Err(Error::FailedAuthSession)),
        RetryStep::Done(Err(Error::FailedAuthSession))
    ));
}
