//! Synchronising the cache store with a remote one: where to connect, how to
//! sign in, what to send, and what to say when it did not work.

use crate::database::{entry_views, DatabaseManager, HashEntry};
use crate::text::{chars_of, decimal_text, matches_at, push_decimal, same_text, string_of_range};
use vstd::prelude::*;
use vstd::string::StringExecFns;

verus! {

/// Seconds after which an operation on the remote store is given up.
pub const REMOTE_TIMEOUT_SECS: u64 = 15;

/// The namespace of the store on the remote side.
pub const REMOTE_NAMESPACE: &'static str = "tapi";

/// The database of the store on the remote side.
pub const REMOTE_DATABASE: &'static str = "main";

/// The table of the store on the remote side.
pub const REMOTE_TABLE: &'static str = "file_hashes";

/// The statement that writes entries into a store: each is inserted, and where
/// its digest is already there, name, folder and time are overwritten.
pub const UPSERT_STATEMENT: &'static str =
    "INSERT INTO file_hashes $entries ON DUPLICATE KEY UPDATE name = $after.name, folder = $after.folder, created_at = $after.created_at";

/// How the remote store is talked to.
#[derive(Clone, Copy, Debug, PartialEq, Eq, Structural)]
pub enum Transport {
    /// Over a socket that stays open.
    Socket,
    /// By one request and one response at a time.
    Request,
}

/// How the session signs in.
#[derive(Debug)]
pub enum Credentials {
    /// With a bearer token.
    Token { token: String },
    /// With a user name and a password.
    Password { user: String, pass: String },
    /// Not at all.
    Anonymous,
}

/// A `Credentials` as plain text.
pub ghost enum CredentialsView {
    Token { token: Seq<char> },
    Password { user: Seq<char>, pass: Seq<char> },
    Anonymous,
}

impl View for Credentials {
    type V = CredentialsView;

    open spec fn view(&self) -> CredentialsView {
        match self {
            Credentials::Token { token } => CredentialsView::Token { token: token@ },
            Credentials::Password { user, pass } => CredentialsView::Password {
                user: user@,
                pass: pass@,
            },
            Credentials::Anonymous => CredentialsView::Anonymous,
        }
    }
}

/// One operation on the remote store.
#[derive(Debug)]
pub struct SyncSession {
    pub transport: Transport,
    /// The address to connect to: the URL without its scheme.
    pub endpoint: String,
    pub credentials: Credentials,
    pub timeout_secs: u64,
}

/// `s` without the copies of `prefix` that stand at its start.
pub open spec fn without_leading(s: Seq<char>, prefix: Seq<char>) -> Seq<char>
    decreases s.len(),
{
    if prefix.len() > 0 && prefix.is_prefix_of(s) {
        without_leading(s.skip(prefix.len() as int), prefix)
    } else {
        s
    }
}

/// The transport that a URL asks for: the socket where it begins with `ws`.
pub open spec fn transport_of(url: Seq<char>) -> Transport {
    if "ws"@.is_prefix_of(url) {
        Transport::Socket
    } else {
        Transport::Request
    }
}

/// The address that a URL names: the URL without the scheme of its transport.
pub open spec fn endpoint_of(url: Seq<char>) -> Seq<char> {
    if "ws"@.is_prefix_of(url) {
        without_leading(without_leading(url, "ws://"@), "wss://"@)
    } else {
        without_leading(without_leading(url, "http://"@), "https://"@)
    }
}

/// How to sign in: with the token where there is one, else with user name and
/// password where there are both, else not at all.
pub open spec fn credentials_of(token: Seq<char>, user: Seq<char>, pass: Seq<char>)
    -> CredentialsView {
    if token.len() > 0 {
        CredentialsView::Token { token }
    } else if user.len() > 0 && pass.len() > 0 {
        CredentialsView::Password { user, pass }
    } else {
        CredentialsView::Anonymous
    }
}

/// The position behind the copies of `prefix` that stand in `s` from `from` on.
fn skip_leading(s: &Vec<char>, from: usize, prefix: &Vec<char>) -> (to: usize)
    requires
        from <= s.len(),
    ensures
        from <= to <= s.len(),
        s@.skip(to as int) == without_leading(s@.skip(from as int), prefix@),
{
    if prefix.len() == 0 {
        return from;
    }
    let mut to: usize = from;
    while matches_at(s, prefix, to)
        invariant
            from <= to <= s.len(),
            prefix@.len() > 0,
            without_leading(s@.skip(from as int), prefix@) == without_leading(
                s@.skip(to as int),
                prefix@,
            ),
        decreases s.len() - to,
    {
        assert(s@.skip(to as int).subrange(0, prefix@.len() as int) =~= s@.subrange(
            to as int,
            to + prefix@.len(),
        ));
        assert(s@.skip(to as int).skip(prefix@.len() as int) =~= s@.skip(to + prefix@.len()));
        to = to + prefix.len();
    }
    assert(!prefix@.is_prefix_of(s@.skip(to as int))) by {
        if prefix@.is_prefix_of(s@.skip(to as int)) {
            assert(s@.skip(to as int).subrange(0, prefix@.len() as int) =~= s@.subrange(
                to as int,
                to + prefix@.len(),
            ));
        }
    }
    to
}

impl SyncSession {
    /// The session for an operation on the store at `url`.
    pub fn new(url: &str, token: &str, user: &str, pass: &str) -> (session: Self)
        ensures
            session.transport == transport_of(url@),
            session.endpoint@ == endpoint_of(url@),
            session.credentials@ == credentials_of(token@, user@, pass@),
            session.timeout_secs == REMOTE_TIMEOUT_SECS,
    {
        let chars = chars_of(url);
        let socket = matches_at(&chars, &chars_of("ws"), 0);
        let (first, second) = if socket {
            (chars_of("ws://"), chars_of("wss://"))
        } else {
            (chars_of("http://"), chars_of("https://"))
        };
        assert(chars@.skip(0) =~= chars@);
        let a = skip_leading(&chars, 0, &first);
        let b = skip_leading(&chars, a, &second);
        assert(chars@.skip(b as int) =~= chars@.subrange(b as int, chars@.len() as int));
        let endpoint = string_of_range(&chars, b, chars.len());
        let credentials = if token.unicode_len() > 0 {
            Credentials::Token { token: token.to_owned() }
        } else if user.unicode_len() > 0 && pass.unicode_len() > 0 {
            Credentials::Password { user: user.to_owned(), pass: pass.to_owned() }
        } else {
            Credentials::Anonymous
        };
        SyncSession {
            transport: if socket {
                Transport::Socket
            } else {
                Transport::Request
            },
            endpoint,
            credentials,
            timeout_secs: REMOTE_TIMEOUT_SECS,
        }
    }
}

/// The operations on the remote store.
#[derive(Clone, Copy, Debug, PartialEq, Eq, Structural)]
pub enum SyncOperation {
    TestConnection,
    Push,
    Pull,
}

/// The word for an operation in a message.
pub open spec fn operation_word(operation: SyncOperation) -> Seq<char> {
    match operation {
        SyncOperation::TestConnection => "Connection"@,
        SyncOperation::Push => "Push"@,
        SyncOperation::Pull => "Pull"@,
    }
}

/// The message for an operation that was given up after the timeout.
pub open spec fn timeout_text(operation: SyncOperation) -> Seq<char> {
    operation_word(operation) + " timeout ("@ + decimal_text(REMOTE_TIMEOUT_SECS as nat) + "s)"@
}

/// The message for an operation that was given up after the timeout.
pub fn timeout_message(operation: SyncOperation) -> (message: String)
    ensures
        message@ == timeout_text(operation),
{
    let mut message = match operation {
        SyncOperation::TestConnection => "Connection".to_owned(),
        SyncOperation::Push => "Push".to_owned(),
        SyncOperation::Pull => "Pull".to_owned(),
    };
    message.append(" timeout (");
    push_decimal(&mut message, REMOTE_TIMEOUT_SECS);
    message.append("s)");
    message
}

/// How an operation on the remote store ended.
#[derive(Debug)]
pub enum SyncOutcome {
    /// It was carried out.
    Completed,
    /// It took longer than the timeout.
    TimedOut,
    /// Connecting, signing in or the transfer failed, with this message.
    Failed { message: String },
}

/// What is reported of an operation: nothing where it was carried out, else a
/// message, which for a timeout differs from that of any other failure.
pub fn sync_result(operation: SyncOperation, outcome: SyncOutcome) -> (result: Result<
    (),
    String,
>)
    ensures
        result is Ok <==> outcome is Completed,
        outcome is TimedOut ==> result is Err && result->Err_0@ == timeout_text(operation),
        outcome matches SyncOutcome::Failed { message } ==> result is Err && result->Err_0@
            == message@,
{
    match outcome {
        SyncOutcome::Completed => Ok(()),
        SyncOutcome::TimedOut => Err(timeout_message(operation)),
        SyncOutcome::Failed { message } => Err(message),
    }
}

impl DatabaseManager {
    /// The session that a test of the connection to the store at `url` opens. It
    /// connects and signs in, and transfers nothing.
    pub fn test_remote_connection(url: &str, token: &str, user: &str, pass: &str) -> (session:
        SyncSession)
        ensures
            session.transport == transport_of(url@),
            session.endpoint@ == endpoint_of(url@),
            session.credentials@ == credentials_of(token@, user@, pass@),
            session.timeout_secs == REMOTE_TIMEOUT_SECS,
    {
        SyncSession::new(url, token, user, pass)
    }

    /// What a push sends: all entries, or nothing at all where the store is
    /// empty, in which case no connection is opened.
    pub fn entries_to_push(&self) -> (entries: Option<Vec<HashEntry>>)
        ensures
            entries is Some <==> self.rows().len() > 0,
            entries matches Some(list) ==> entry_views(list@) == self.rows(),
    {
        if self.len() == 0 {
            None
        } else {
            Some(self.select_all())
        }
    }
}

/// Why a request to the store is refused before anything is done.
#[derive(Clone, Copy, Debug, PartialEq, Eq, Structural)]
pub enum StoreRefusal {
    /// The profile does not ask for the remote store.
    NotRemote,
    /// The profile names no remote store.
    NoUrl,
}

/// The message of a refusal.
pub fn refusal_message(refusal: StoreRefusal) -> (message: String)
    ensures
        message@ == match refusal {
            StoreRefusal::NotRemote => "Not in remote mode"@,
            StoreRefusal::NoUrl => "Remote URL not set"@,
        },
{
    match refusal {
        StoreRefusal::NotRemote => "Not in remote mode".to_owned(),
        StoreRefusal::NoUrl => "Remote URL not set".to_owned(),
    }
}

/// Whether entries are written to the store at all: not in the mode `off`.
pub fn store_enabled(database_mode: &str) -> (enabled: bool)
    ensures
        enabled == (database_mode@ != "off"@),
{
    !same_text(database_mode, "off")
}

/// Whether a push or a pull may go ahead: only in the mode `remote`, and only
/// with a URL.
pub fn check_remote(database_mode: &str, url: &str) -> (checked: Result<(), StoreRefusal>)
    ensures
        checked == if database_mode@ != "remote"@ {
            Err::<(), StoreRefusal>(StoreRefusal::NotRemote)
        } else if url@.len() == 0 {
            Err(StoreRefusal::NoUrl)
        } else {
            Ok(())
        },
{
    if !same_text(database_mode, "remote") {
        Err(StoreRefusal::NotRemote)
    } else if url.unicode_len() == 0 {
        Err(StoreRefusal::NoUrl)
    } else {
        Ok(())
    }
}

/// Whether a test of the connection may go ahead: only with a URL.
pub fn check_remote_url(url: &str) -> (checked: Result<(), StoreRefusal>)
    ensures
        checked == if url@.len() == 0 {
            Err::<(), StoreRefusal>(StoreRefusal::NoUrl)
        } else {
            Ok(())
        },
{
    if url.unicode_len() == 0 {
        Err(StoreRefusal::NoUrl)
    } else {
        Ok(())
    }
}

/// What a test of the connection reports: a word of success, or the failure's
/// message behind `Connection failed: `.
pub fn connection_report(result: Result<(), String>) -> (report: Result<String, String>)
    ensures
        match result {
            Ok(_) => report is Ok && report->Ok_0@ == "Connection successful!"@,
            Err(e) => report is Err && report->Err_0@ == "Connection failed: "@ + e@,
        },
{
    match result {
        Ok(_) => Ok("Connection successful!".to_owned()),
        Err(e) => {
            let mut message = "Connection failed: ".to_owned();
            message.append(e.as_str());
            Err(message)
        },
    }
}

} // verus!
