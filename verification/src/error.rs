//! The errors of Conduit and their HTTP status codes.
use vstd::prelude::*;
use crate::SessionName;

verus! {

/// `std::io::Error`, carried by `Error::Io`.
#[verifier::external_type_specification]
#[verifier::external_body]
pub struct ExIoError(std::io::Error);

/// `actix_web::rt::task::JoinError`, carried by `Error::Join`.
#[verifier::external_type_specification]
#[verifier::external_body]
pub struct ExJoinError(actix_web::rt::task::JoinError);

/// `actix_web::error::PayloadError`, carried by `Error::Payload` and by
/// the byte channel.
#[verifier::external_type_specification]
#[verifier::external_body]
pub struct ExPayloadError(actix_web::error::PayloadError);

/// Everything that can go wrong while setting up or running a transfer.
#[derive(Debug)]
pub enum Error {
    /// An I/O failure of the server.
    Io(std::io::Error),
    /// A blocking task could not be joined.
    Join(actix_web::rt::task::JoinError),
    /// An uploader asked for a session name that is already taken.
    SessionExists,
    /// No session of this name is waiting.
    UnknownSession(SessionName),
    /// The token does not match the session's token.
    FailedAuthSession,
    /// No downloader connected in time.
    SenderTimeout,
    /// The downloader went away during the transfer.
    ReceiverDisconnected,
    /// An internal inconsistency, described by the message.
    BadConduit(String),
    /// Reading the uploaded body failed.
    Payload(actix_web::error::PayloadError),
    /// Session names must have a minimum length of 10.
    MinimumSessionLength,
    /// Tokens must have a minimum length.
    TokenLength,
    /// The token lacks one of the required kinds of characters.
    WeakToken,
    /// Too many failed attempts on this session in the current window.
    RateLimited,
    /// Hashing or checking a token failed, as the message says.
    TokenValidation(String),
}

/// The HTTP status code of an error, as the API promises it: 400 for an
/// invalid session name or token, 403 for a wrong token, 404 for an unknown
/// session, 409 for a session name already in use, 500 for everything else.
pub open spec fn status_of(e: &Error) -> u16 {
    match e {
        Error::MinimumSessionLength | Error::TokenLength | Error::WeakToken => 400,
        Error::FailedAuthSession => 403,
        Error::UnknownSession(_) => 404,
        Error::SessionExists => 409,
        _ => 500,
    }
}

impl Error {
    /// The HTTP status code of this error.
    pub fn status_code(&self) -> (code: u16)
        ensures
            code == status_of(self),
    {
        match self {
            Error::MinimumSessionLength | Error::TokenLength | Error::WeakToken => 400,
            Error::FailedAuthSession => 403,
            Error::UnknownSession(_) => 404,
            Error::SessionExists => 409,
            _ => 500,
        }
    }
}

} // verus!
