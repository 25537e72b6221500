//! Uploaders waiting for their downloader, by session name, for the store
//! that keeps sessions in a database: once a downloader's token is
//! confirmed, it hands the waiting uploader its byte channel.
use vstd::prelude::*;
use vstd::string::*;
use dashmap::DashMap;
use crate::error::Error;
use crate::session::{oneshot_channel, oneshot_send, ByteSender};
use crate::small_string::lossy_utf8;
use crate::SessionName;

verus! {

/// The waiting uploaders' handles, by session name.
pub type WaitingMap = DashMap<SessionName, tokio::sync::oneshot::Sender<ByteSender>>;

/// What the table of waiting uploaders holds: their session names.
pub uninterp spec fn waiting_names(m: WaitingMap) -> Set<Seq<u8>>;

/// The message when no uploader waits under a name whose token checked out.
pub open spec fn no_waiting_sender_message(name: Seq<u8>) -> Seq<char> {
    "No WAITING_SENDER for "@ + lossy_utf8(name) + " even though confirm_session_token was Ok(true)"@
}

/// The message when the waiting uploader is gone at the time of the handover.
pub open spec fn receiver_dropped_message(name: Seq<u8>) -> Seq<char> {
    "Receiver for "@ + lossy_utf8(name) + " has dropped by the time of `send`"@
}

/// The uploaders waiting for a downloader.
pub struct WaitingSenders {
    senders: WaitingMap,
}

impl View for WaitingSenders {
    type V = Set<Seq<u8>>;

    closed spec fn view(&self) -> Set<Seq<u8>> {
        waiting_names(self.senders)
    }
}

impl WaitingSenders {
    /// No uploader waits.
    pub fn new() -> (w: WaitingSenders)
        ensures
            w@ == Set::<Seq<u8>>::empty(),
    {
        WaitingSenders { senders: waiting_new() }
    }

    /// Registers this uploader as waiting for a receiver, replacing any
    /// uploader that waited under the same name, and returns the handle on
    /// which it will be notified.
    pub fn wait_for_receiver(&mut self, session_name: SessionName) -> (r:
        tokio::sync::oneshot::Receiver<ByteSender>)
        ensures
            final(self)@ == old(self)@.insert(session_name@),
    {
        let (sender, receiver) = oneshot_channel();
        waiting_insert(&mut self.senders, session_name, sender);
        receiver
    }

    /// A downloader notifies the uploader waiting under this name that it is
    /// available, handing it `bytes_sender` for the transfer.  Whether the
    /// handle reached the uploader is up to the channel, and
    /// `handover_outcome` says what is answered either way.
    pub fn notify_sender(&mut self, session_name: SessionName, bytes_sender: ByteSender) -> (r:
        Result<(), Error>)
        ensures
            final(self)@ == old(self)@.remove(session_name@),
            !old(self)@.contains(session_name@) ==> (r matches Err(Error::BadConduit(m)) && m@
                == no_waiting_sender_message(session_name@)),
            old(self)@.contains(session_name@) && r is Err ==> (r matches Err(Error::BadConduit(m))
                && m@ == receiver_dropped_message(session_name@)),
    {
        match waiting_remove(&mut self.senders, &session_name) {
            None => {
                let mut message = "No WAITING_SENDER for ".to_owned();
                message.append(session_name.to_string().as_str());
                message.append(" even though confirm_session_token was Ok(true)");
                Err(Error::BadConduit(message))
            },
            Some(sender) => {
                let delivered = oneshot_send(sender, bytes_sender);
                handover_outcome(delivered, &session_name)
            },
        }
    }
}

/// What a handover answers once the waiting uploader's handle is taken:
/// `Ok` when the uploader got the byte channel, otherwise the error that
/// says it was gone.
pub fn handover_outcome(delivered: bool, session_name: &SessionName) -> (r: Result<(), Error>)
    ensures
        delivered ==> r is Ok,
        !delivered ==> (r matches Err(Error::BadConduit(m)) && m@ == receiver_dropped_message(
            session_name@,
        )),
{
    if delivered {
        Ok(())
    } else {
        let mut message = "Receiver for ".to_owned();
        message.append(session_name.to_string().as_str());
        message.append(" has dropped by the time of `send`");
        Err(Error::BadConduit(message))
    }
}

/// Calls `DashMap::new`: no names at first.
#[verifier::external_body]
fn waiting_new() -> (m: WaitingMap)
    ensures
        waiting_names(m) == Set::<Seq<u8>>::empty(),
{
    DashMap::new()
}

/// Calls `DashMap::insert`, which replaces the value of a name already
/// there.  Keys are compared by the `Eq` of `SessionName`, equality of the
/// bytes.
#[verifier::external_body]
fn waiting_insert(
    m: &mut WaitingMap,
    name: SessionName,
    sender: tokio::sync::oneshot::Sender<ByteSender>,
)
    ensures
        waiting_names(*final(m)) == waiting_names(*old(m)).insert(name@),
{
    m.insert(name, sender);
}

/// Calls `DashMap::remove`: it returns the handle exactly when the name was
/// there, and the name is gone afterwards.
#[verifier::external_body]
fn waiting_remove(m: &mut WaitingMap, name: &SessionName) -> (r: Option<
    tokio::sync::oneshot::Sender<ByteSender>,
>)
    ensures
        r is Some <==> waiting_names(*old(m)).contains(name@),
        waiting_names(*final(m)) == waiting_names(*old(m)).remove(name@),
{
    match m.remove(name) {
        Some((_, sender)) => Some(sender),
        None => None,
    }
}

} // verus!
