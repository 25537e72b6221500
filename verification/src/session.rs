//! The registry of upload sessions waiting for a downloader.  An uploader
//! creates a session under a name, with an optional token; a downloader that
//! names the session and brings the same token claims it and hands the
//! uploader the channel to stream into.
use vstd::prelude::*;
use vstd::string::*;
use dashmap::mapref::entry::Entry;
use dashmap::DashMap;
use crate::error::Error;
use crate::small_string::lossy_utf8;
use crate::{SessionName, Token};

verus! {

/// `dashmap::DashMap`: the table of waiting sessions and of waiting
/// uploaders.
#[verifier::external_type_specification]
#[verifier::external_body]
#[verifier::reject_recursive_types(K)]
#[verifier::reject_recursive_types(V)]
#[verifier::reject_recursive_types(S)]
pub struct ExDashMap<K, V, S>(DashMap<K, V, S>);

/// `tokio::sync::oneshot::Sender`: how a waiting uploader is handed its
/// byte channel.
#[verifier::external_type_specification]
#[verifier::external_body]
#[verifier::reject_recursive_types(T)]
pub struct ExOneshotSender<T>(tokio::sync::oneshot::Sender<T>);

/// `tokio::sync::oneshot::Receiver`: where a waiting uploader gets its
/// byte channel.
#[verifier::external_type_specification]
#[verifier::external_body]
#[verifier::reject_recursive_types(T)]
pub struct ExOneshotReceiver<T>(tokio::sync::oneshot::Receiver<T>);

/// `tokio::sync::oneshot::error::RecvError`, which the receiver yields
/// when the sending side is gone.
#[verifier::external_type_specification]
#[verifier::external_body]
pub struct ExRecvError(tokio::sync::oneshot::error::RecvError);

/// `tokio::sync::mpsc::Sender`: the downloader's byte channel.
#[verifier::external_type_specification]
#[verifier::external_body]
#[verifier::reject_recursive_types(T)]
pub struct ExMpscSender<T>(tokio::sync::mpsc::Sender<T>);

/// `actix_web::web::Bytes`: a chunk of the uploaded body.
#[verifier::external_type_specification]
#[verifier::external_body]
pub struct ExBytes(actix_web::web::Bytes);

/// What the uploader streams into: chunks of the uploaded body, or the
/// error that reading it met.
pub type ByteSender = tokio::sync::mpsc::Sender<
    std::result::Result<actix_web::web::Bytes, actix_web::error::PayloadError>,
>;

/// The table of waiting sessions, by name.
pub type SessionMap = DashMap<SessionName, Session>;

/// A waiting upload: the token it was created with, and the handle that
/// gives the uploader the downloader's byte channel.
pub struct Session {
    token: Option<Token>,
    sender: tokio::sync::oneshot::Sender<ByteSender>,
}

/// The bytes of an optional token.
pub open spec fn token_view(t: Option<Token>) -> Option<Seq<u8>> {
    match t {
        Some(t) => Some(t@),
        None => None,
    }
}

/// For each session name, the token its session was created with.
pub type SessionTable = Map<Seq<u8>, Option<Seq<u8>>>;

/// What the session table holds: for each session name, the token it was
/// created with.
pub uninterp spec fn session_table(sessions: SessionMap) -> SessionTable;

/// The message of the error when an uploader is gone by the time a
/// downloader claims its session.
pub open spec fn dropped_sender_message(name: Seq<u8>) -> Seq<char> {
    "Sender for "@ + lossy_utf8(name) + " dropped before receiver could claim it"@
}

/// Whether two optional tokens are equal: both absent, or both present with
/// the same bytes.
pub fn tokens_match(a: &Option<Token>, b: &Option<Token>) -> (r: bool)
    ensures
        r == (token_view(*a) == token_view(*b)),
{
    match (a, b) {
        (Some(x), Some(y)) => x == y,
        (None, None) => true,
        _ => false,
    }
}

/// The sessions waiting for a downloader, by name.
pub struct SessionRegistry {
    sessions: SessionMap,
}

impl View for SessionRegistry {
    type V = Map<Seq<u8>, Option<Seq<u8>>>;

    closed spec fn view(&self) -> Map<Seq<u8>, Option<Seq<u8>>> {
        session_table(self.sessions)
    }
}

impl SessionRegistry {
    /// A registry with no sessions.
    pub fn new() -> (r: SessionRegistry)
        ensures
            r@ == Map::<Seq<u8>, Option<Seq<u8>>>::empty(),
    {
        SessionRegistry { sessions: sessions_new() }
    }

    /// Whether a session of this name is waiting.
    pub fn contains(&self, session_name: &SessionName) -> (b: bool)
        ensures
            b == self@.contains_key(session_name@),
    {
        sessions_contains(&self.sessions, session_name)
    }

    /// Registers an uploader as waiting for a receiver.  Fails with
    /// `SessionExists` when the name is taken; otherwise returns the handle
    /// on which the uploader will get the downloader's byte channel.
    pub fn create(&mut self, session_name: SessionName, token: Option<Token>) -> (r: Result<
        tokio::sync::oneshot::Receiver<ByteSender>,
        Error,
    >)
        ensures
            old(self)@.contains_key(session_name@) ==> (r matches Err(Error::SessionExists)
                && final(self)@ == old(self)@),
            !old(self)@.contains_key(session_name@) ==> (r is Ok && final(self)@ == old(
                self,
            )@.insert(session_name@, token_view(token))),
    {
        let (sender, receiver) = oneshot_channel();
        if sessions_insert_vacant(&mut self.sessions, session_name, Session { token, sender }) {
            Ok(receiver)
        } else {
            Err(Error::SessionExists)
        }
    }

    /// Removes a session if it is still waiting to be claimed.
    pub fn remove(&mut self, session_name: &SessionName)
        ensures
            final(self)@ == old(self)@.remove(session_name@),
    {
        sessions_remove(&mut self.sessions, session_name);
    }

    /// Claims a waiting session for a downloader.  With the session's own
    /// token the session is taken out of the registry and the uploader is
    /// handed `bytes_sender`; with another token the claim fails with
    /// `FailedAuthSession`; for a name with no session it fails with
    /// `UnknownSession`.
    pub fn claim(
        &mut self,
        session_name: SessionName,
        token: Option<Token>,
        bytes_sender: ByteSender,
    ) -> (r: Result<(), Error>)
        ensures
            ({
                let before = old(self)@;
                let name = session_name@;
                &&& before.contains_key(name) && before[name] == token_view(token) ==> {
                    &&& final(self)@ == before.remove(name)
                    &&& r is Err ==> (r matches Err(Error::BadConduit(m)) && m@
                        == dropped_sender_message(name))
                }
                &&& before.contains_key(name) && before[name] != token_view(token) ==> {
                    &&& r matches Err(Error::FailedAuthSession)
                    &&& final(self)@ == before
                }
                &&& !before.contains_key(name) ==> {
                    &&& (r matches Err(Error::UnknownSession(n)) && n@ == name)
                    &&& final(self)@ == before
                }
            }),
    {
        match sessions_remove_if_token(&mut self.sessions, &session_name, &token) {
            Some(session) => {
                let delivered = oneshot_send(session.sender, bytes_sender);
                delivery_outcome(delivered, &session_name)
            },
            None => {
                if sessions_contains(&self.sessions, &session_name) {
                    Err(Error::FailedAuthSession)
                } else {
                    Err(Error::UnknownSession(session_name))
                }
            },
        }
    }
}

/// What a claim answers once the session is taken: `Ok` when the uploader
/// got the byte channel, otherwise the error that says its handle was gone.
pub fn delivery_outcome(delivered: bool, session_name: &SessionName) -> (r: Result<(), Error>)
    ensures
        delivered ==> r is Ok,
        !delivered ==> (r matches Err(Error::BadConduit(m)) && m@ == dropped_sender_message(
            session_name@,
        )),
{
    if delivered {
        Ok(())
    } else {
        let mut message = "Sender for ".to_owned();
        message.append(session_name.to_string().as_str());
        message.append(" dropped before receiver could claim it");
        Err(Error::BadConduit(message))
    }
}

/// What an upload makes of its wait for a downloader: `None` when the wait
/// timed out, `Some(None)` when the session's handle was dropped unanswered,
/// `Some(Some(s))` when a downloader handed over the byte channel `s`.
pub fn wait_outcome(outcome: Option<Option<ByteSender>>) -> (r: Result<ByteSender, Error>)
    ensures
        outcome is None ==> r matches Err(Error::SenderTimeout),
        outcome == Some(None::<ByteSender>) ==> r matches Err(Error::ReceiverDisconnected),
        outcome matches Some(Some(s)) ==> r == Ok::<ByteSender, Error>(s),
{
    match outcome {
        None => Err(Error::SenderTimeout),
        Some(None) => Err(Error::ReceiverDisconnected),
        Some(Some(sender)) => Ok(sender),
    }
}

/// A session name whose session is removed when its upload gives up before
/// a downloader has claimed it.
pub struct PendingSession {
    session_name: SessionName,
    active: bool,
}

impl View for PendingSession {
    type V = (Seq<u8>, bool);

    /// The session name, and whether the session is still to be removed.
    closed spec fn view(&self) -> (Seq<u8>, bool) {
        (self.session_name@, self.active)
    }
}

impl PendingSession {
    /// A pending session that will be removed unless disarmed.
    pub fn new(session_name: SessionName) -> (p: PendingSession)
        ensures
            p@ == (session_name@, true),
    {
        PendingSession { session_name, active: true }
    }

    /// The session has been claimed: it is no longer to be removed.
    pub fn disarm(&mut self)
        ensures
            final(self)@ == (old(self)@.0, false),
    {
        self.active = false;
    }

    /// Removes the session from the registry unless the pending session was
    /// disarmed.
    pub fn release(&self, registry: &mut SessionRegistry)
        ensures
            self@.1 ==> final(registry)@ == old(registry)@.remove(self@.0),
            !self@.1 ==> final(registry)@ == old(registry)@,
    {
        if self.active {
            registry.remove(&self.session_name);
        }
    }
}

/// A session created under a free name is claimed by the token it was
/// created with and by no other, and the claim leaves the registry as it was
/// before the creation; a second claim finds no session.
pub proof fn create_then_claim_round_trip(
    t: SessionTable,
    name: Seq<u8>,
    token: Option<Seq<u8>>,
    other: Option<Seq<u8>>,
)
    requires
        !t.contains_key(name),
        other != token,
    ensures
        t.insert(name, token).contains_key(name),
        t.insert(name, token)[name] == token,
        t.insert(name, token)[name] != other,
        t.insert(name, token).remove(name) == t,
        !t.insert(name, token).remove(name).contains_key(name),
{
    assert(t.insert(name, token).remove(name) =~= t);
}

/// Creating a session on a name that is taken changes nothing, and a
/// session that is removed before any claim leaves no trace.
pub proof fn create_then_remove_restores(t: SessionTable, name: Seq<u8>, token: Option<Seq<u8>>)
    requires
        !t.contains_key(name),
    ensures
        t.insert(name, token).remove(name) == t,
        t.remove(name) == t,
{
    assert(t.insert(name, token).remove(name) =~= t);
    assert(t.remove(name) =~= t);
}

/// Calls `DashMap::new`: the map starts empty.
#[verifier::external_body]
fn sessions_new() -> (m: SessionMap)
    ensures
        session_table(m) == SessionTable::empty(),
{
    DashMap::new()
}

/// Calls `DashMap::contains_key`.  Keys are compared by the `Eq` of
/// `SessionName`, which is equality of the bytes, and hashed by its derived
/// `Hash`, which agrees with it.
#[verifier::external_body]
fn sessions_contains(m: &SessionMap, name: &SessionName) -> (b: bool)
    ensures
        b == session_table(*m).contains_key(name@),
{
    m.contains_key(name)
}

/// Calls `DashMap::entry` and inserts through the vacant entry: the session
/// goes in exactly when the name was absent, and nothing changes otherwise.
#[verifier::external_body]
fn sessions_insert_vacant(
    m: &mut SessionMap,
    name: SessionName,
    session: Session,
) -> (inserted: bool)
    ensures
        inserted == !session_table(*old(m)).contains_key(name@),
        inserted ==> session_table(*final(m)) == session_table(*old(m)).insert(
            name@,
            token_view(session.token),
        ),
        !inserted ==> session_table(*final(m)) == session_table(*old(m)),
{
    match m.entry(name) {
        Entry::Occupied(_) => false,
        Entry::Vacant(entry) => {
            entry.insert(session);
            true
        },
    }
}

/// Calls `DashMap::remove`: the name is gone afterwards.
#[verifier::external_body]
fn sessions_remove(m: &mut SessionMap, name: &SessionName)
    ensures
        session_table(*final(m)) == session_table(*old(m)).remove(name@),
{
    m.remove(name);
}

/// Calls `DashMap::remove_if` with a condition that compares the given token
/// with the session's token by `tokens_match`.  The session is removed and
/// returned exactly when it is there with that token.
#[verifier::external_body]
fn sessions_remove_if_token(
    m: &mut SessionMap,
    name: &SessionName,
    token: &Option<Token>,
) -> (r: Option<Session>)
    ensures
        r is Some <==> (session_table(*old(m)).contains_key(name@) && session_table(*old(m))[name@]
            == token_view(*token)),
        r is Some ==> session_table(*final(m)) == session_table(*old(m)).remove(name@),
        r is None ==> session_table(*final(m)) == session_table(*old(m)),
{
    match m.remove_if(name, |_, session| tokens_match(token, &session.token)) {
        Some((_, session)) => Some(session),
        None => None,
    }
}

/// Calls `tokio::sync::oneshot::channel`.
#[verifier::external_body]
pub(crate) fn oneshot_channel() -> (tokio::sync::oneshot::Sender<ByteSender>, tokio::sync::oneshot::Receiver<
    ByteSender,
>) {
    tokio::sync::oneshot::channel()
}

/// Calls `oneshot::Sender::send` and tells whether the value was delivered.
/// That depends on whether the receiving side is still there: nothing is
/// stated of it.
#[verifier::external_body]
pub(crate) fn oneshot_send(sender: tokio::sync::oneshot::Sender<ByteSender>, value: ByteSender) -> bool {
    sender.send(value).is_ok()
}

} // verus!
