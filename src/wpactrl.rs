//! Client of a local control-socket protocol: one request outstanding at a
//! time, replies told apart from unsolicited event messages that arrive on
//! the same channel.
//!
//! The types here hold the session's decisions and queue; the socket and its
//! readiness waits belong to the caller, which hands every received datagram
//! to the session and sends what the session returns.

use vstd::prelude::*;
use vstd::utf8::{decode_utf8, encode_utf8, valid_utf8};
use crate::text::{decimal, decimal_text};
use crate::wifi::{is_message_unsolicited, unsolicited};

verus! {

#[verifier::external_type_specification]
#[verifier::external_body]
pub struct ExIoError(std::io::Error);

#[verifier::external_type_specification]
#[verifier::external_body]
pub struct ExUtf8Error(core::str::Utf8Error);

/// The errors of a control-socket session.
pub enum Error {
    /// The socket failed.
    Io(std::io::Error),
    /// A datagram is not valid UTF-8.
    Utf8ToStr(core::str::Utf8Error),
    /// The daemon did not answer `ATTACH` with `OK`.
    Attach,
    /// Waiting for the socket failed.
    Wait,
}

/// Size of the buffer a datagram is received into.
pub const BUF_SIZE: usize = 10240;

/// Directory of the client's socket when none is chosen.
pub const PATH_DEFAULT_CLIENT: &'static str = "/tmp";

/// Path of the daemon's socket when none is chosen.
pub const PATH_DEFAULT_SERVER: &'static str = "/var/run/wpa_supplicant/wlan0";

/// The command that registers the client for unsolicited events.
pub const ATTACH_COMMAND: &'static str = "ATTACH";

/// The daemon's reply to a command that succeeded.
pub const OK_REPLY: &'static str = "OK\n";

/// Relies on `std::str::from_utf8`: it succeeds exactly on valid UTF-8 and
/// then yields the decoded text.
#[verifier::external_body]
fn from_utf8(bytes: &[u8]) -> (r: Result<&str, core::str::Utf8Error>)
    ensures
        r is Ok <==> valid_utf8(bytes@),
        r is Ok ==> r->Ok_0@ == decode_utf8(bytes@),
{
    core::str::from_utf8(bytes)
}

/// Decodes one received datagram into a protocol message.
pub fn decode_message(bytes: &[u8]) -> (r: Result<String, Error>)
    ensures
        r is Ok <==> valid_utf8(bytes@),
        r is Ok ==> r->Ok_0@ == decode_utf8(bytes@),
        r is Err ==> r->Err_0 is Utf8ToStr,
{
    match from_utf8(bytes) {
        Ok(s) => Ok(String::from_str(s)),
        Err(e) => Err(Error::Utf8ToStr(e)),
    }
}

/// Interprets the result of waiting for the socket with `select`: a negative
/// count is a failed wait, otherwise whether a message is ready.
pub fn select_outcome(count: i32) -> (r: Result<bool, Error>)
    ensures
        count >= 0 ==> r == Ok::<bool, Error>(count > 0),
        count < 0 ==> r is Err && r->Err_0 is Wait,
{
    if count >= 0 {
        Ok(count > 0)
    } else {
        Err(Error::Wait)
    }
}

/// The paths a builder has been given.
pub struct BuilderView {
    pub cli_path: Option<Seq<char>>,
    pub ctrl_path: Option<Seq<char>>,
}

/// The view of an optional text.
pub open spec fn opt_view(p: Option<String>) -> Option<Seq<char>> {
    match p {
        Some(s) => Some(s@),
        None => None,
    }
}

/// Chooses where a session's sockets live.
pub struct ClientBuilder {
    cli_path: Option<String>,
    ctrl_path: Option<String>,
}

impl View for ClientBuilder {
    type V = BuilderView;

    closed spec fn view(&self) -> BuilderView {
        BuilderView { cli_path: opt_view(self.cli_path), ctrl_path: opt_view(self.ctrl_path) }
    }
}

/// The name of the client's socket file for process `pid` at attempt
/// `counter`: `wpa_ctrl_<pid>-<counter>`.
pub open spec fn bind_name(pid: nat, counter: nat) -> Seq<char> {
    "wpa_ctrl_"@ + decimal(pid) + "-"@ + decimal(counter)
}

impl ClientBuilder {
    /// A builder with no path chosen.
    pub fn new() -> (r: ClientBuilder)
        ensures
            r@ == (BuilderView { cli_path: None, ctrl_path: None }),
    {
        ClientBuilder { cli_path: None, ctrl_path: None }
    }

    /// Sets the path of the daemon's socket; `None` restores the default.
    pub fn ctrl_path(self, ctrl_path: Option<String>) -> (r: ClientBuilder)
        ensures
            r@ == (BuilderView { ctrl_path: opt_view(ctrl_path), ..self@ }),
    {
        ClientBuilder { ctrl_path, ..self }
    }

    /// Sets the directory of the client's socket; `None` restores the default.
    pub fn cli_path(self, cli_path: Option<String>) -> (r: ClientBuilder)
        ensures
            r@ == (BuilderView { cli_path: opt_view(cli_path), ..self@ }),
    {
        ClientBuilder { cli_path, ..self }
    }

    /// The directory in which the client binds its socket.
    pub fn client_dir(&self) -> (r: String)
        ensures
            r@ == match self@.cli_path {
                Some(p) => p,
                None => PATH_DEFAULT_CLIENT@,
            },
    {
        match &self.cli_path {
            Some(p) => p.clone(),
            None => String::from_str(PATH_DEFAULT_CLIENT),
        }
    }

    /// The path of the daemon's socket.
    pub fn server_path(&self) -> (r: String)
        ensures
            r@ == match self@.ctrl_path {
                Some(p) => p,
                None => PATH_DEFAULT_SERVER@,
            },
    {
        match &self.ctrl_path {
            Some(p) => p.clone(),
            None => String::from_str(PATH_DEFAULT_SERVER),
        }
    }

    /// The file name of the client's socket for process `pid` at attempt
    /// `counter`.
    pub fn bind_filename(pid: u32, counter: u32) -> (r: String)
        ensures
            r@ == bind_name(pid as nat, counter as nat),
    {
        let mut name = String::from_str("wpa_ctrl_");
        let p = decimal_text(pid as u64);
        name.append(p.as_str());
        name.append("-");
        let c = decimal_text(counter as u64);
        name.append(c.as_str());
        name
    }

    /// After attempt `counter` (counted from 1) failed to bind, whether to
    /// remove the stale file and try once more: only when the path was in
    /// use, and only after the first attempt.
    pub fn retry_bind(counter: u32, addr_in_use: bool) -> (r: bool)
        ensures
            r == (counter < 2 && addr_in_use),
    {
        counter < 2 && addr_in_use
    }
}

/// The state of a session's demultiplexer.
pub struct SessionView {
    /// A request has been sent and its reply has not arrived.
    pub outstanding: bool,
    /// Messages received and not yet taken, oldest first.
    pub queue: Seq<Seq<char>>,
}

/// The views of a sequence of texts.
pub open spec fn texts(v: Seq<String>) -> Seq<Seq<char>> {
    v.map_values(|s: String| s@)
}

/// Where a received message goes: while a request is outstanding, the first
/// message that is not unsolicited is its reply; every other message joins
/// the queue.
pub open spec fn deliver(s: SessionView, msg: Seq<char>) -> (SessionView, Option<Seq<char>>) {
    if s.outstanding && !unsolicited(msg) {
        (SessionView { outstanding: false, ..s }, Some(msg))
    } else {
        (SessionView { queue: s.queue.push(msg), ..s }, None)
    }
}

/// The request/reply demultiplexer shared by both states of a session.
pub struct ClientInternal {
    outstanding: bool,
    queue: Vec<String>,
}

impl View for ClientInternal {
    type V = SessionView;

    closed spec fn view(&self) -> SessionView {
        SessionView { outstanding: self.outstanding, queue: texts(self.queue@) }
    }
}

impl ClientInternal {
    /// A demultiplexer with nothing outstanding and nothing queued.
    pub fn new() -> (r: ClientInternal)
        ensures
            r@ == (SessionView { outstanding: false, queue: Seq::empty() }),
    {
        let r = ClientInternal { outstanding: false, queue: Vec::new() };
        assert(texts(r.queue@) =~= Seq::<Seq<char>>::empty());
        r
    }

    /// Whether a message waits in the queue.
    pub fn pending(&self) -> (r: bool)
        ensures
            r == (self@.queue.len() > 0),
    {
        self.queue.len() > 0
    }

    /// Whether a request awaits its reply.
    pub fn awaiting_reply(&self) -> (r: bool)
        ensures
            r == self@.outstanding,
    {
        self.outstanding
    }

    /// Takes the oldest queued message.
    pub fn recv(&mut self) -> (r: Option<String>)
        ensures
            old(self)@.queue.len() == 0 ==> r is None && final(self)@ == old(self)@,
            old(self)@.queue.len() > 0 ==> r is Some && r->0@ == old(self)@.queue[0]
                && final(self)@ == (SessionView { queue: old(self)@.queue.drop_first(), ..old(self)@ }),
    {
        if self.queue.len() == 0 {
            None
        } else {
            let m = self.queue.remove(0);
            assert(texts(self.queue@) =~= old(self)@.queue.drop_first());
            Some(m)
        }
    }

    /// Issues a request: returns the datagram to send and marks the request
    /// outstanding.
    pub fn send_request(&mut self, cmd: &str) -> (r: Vec<u8>)
        requires
            !old(self)@.outstanding,
        ensures
            r@ == encode_utf8(cmd@),
            final(self)@ == (SessionView { outstanding: true, ..old(self)@ }),
    {
        self.outstanding = true;
        cmd.as_bytes_vec()
    }

    /// Handles one received message: the reply of the outstanding request is
    /// returned, anything else is queued.
    pub fn on_message(&mut self, msg: String) -> (r: Option<String>)
        ensures
            (final(self)@, match r {
                Some(m) => Some(m@),
                None => None,
            }) == deliver(old(self)@, msg@),
    {
        if self.outstanding && !is_message_unsolicited(msg.as_str()) {
            self.outstanding = false;
            Some(msg)
        } else {
            self.queue.push(msg);
            assert(texts(self.queue@) =~= old(self)@.queue.push(msg@));
            None
        }
    }
}

/// A session that is not attached: it can issue requests, and attach.
pub struct Client(ClientInternal);

impl View for Client {
    type V = SessionView;

    closed spec fn view(&self) -> SessionView {
        self.0@
    }
}

impl Client {
    /// A builder for the paths of a session.
    pub fn builder() -> (r: ClientBuilder)
        ensures
            r@ == (BuilderView { cli_path: None, ctrl_path: None }),
    {
        ClientBuilder::new()
    }

    /// A session whose socket has just been opened.
    pub fn new() -> (r: Client)
        ensures
            r@ == (SessionView { outstanding: false, queue: Seq::empty() }),
    {
        Client(ClientInternal::new())
    }

    /// Whether a request awaits its reply.
    pub fn awaiting_reply(&self) -> (r: bool)
        ensures
            r == self@.outstanding,
    {
        self.0.awaiting_reply()
    }

    /// Issues a request: returns the datagram to send.
    pub fn send_request(&mut self, cmd: &str) -> (r: Vec<u8>)
        requires
            !old(self)@.outstanding,
        ensures
            r@ == encode_utf8(cmd@),
            final(self)@ == (SessionView { outstanding: true, ..old(self)@ }),
    {
        self.0.send_request(cmd)
    }

    /// Handles one received message, as [`ClientInternal::on_message`].
    pub fn on_message(&mut self, msg: String) -> (r: Option<String>)
        ensures
            (final(self)@, match r {
                Some(m) => Some(m@),
                None => None,
            }) == deliver(old(self)@, msg@),
    {
        self.0.on_message(msg)
    }

    /// Concludes the `ATTACH` request from its reply: attached exactly when
    /// the reply is `OK\n`.
    pub fn attach(self, reply: &str) -> (r: Result<ClientAttached, Error>)
        requires
            !self@.outstanding,
        ensures
            r is Ok <==> reply@ == OK_REPLY@,
            r is Ok ==> r->Ok_0@ == self@,
            r is Err ==> r->Err_0 is Attach,
    {
        let ok = String::from_str(OK_REPLY);
        if String::from_str(reply) == ok {
            Ok(ClientAttached(self.0))
        } else {
            Err(Error::Attach)
        }
    }
}

/// An attached session: it receives unsolicited events besides replies.
pub struct ClientAttached(ClientInternal);

impl View for ClientAttached {
    type V = SessionView;

    closed spec fn view(&self) -> SessionView {
        self.0@
    }
}

impl ClientAttached {
    /// Takes the oldest queued message; `None` means the socket is next.
    pub fn recv(&mut self) -> (r: Option<String>)
        ensures
            old(self)@.queue.len() == 0 ==> r is None && final(self)@ == old(self)@,
            old(self)@.queue.len() > 0 ==> r is Some && r->0@ == old(self)@.queue[0]
                && final(self)@ == (SessionView { queue: old(self)@.queue.drop_first(), ..old(self)@ }),
    {
        self.0.recv()
    }

    /// Whether a message waits in the queue.
    pub fn pending(&self) -> (r: bool)
        ensures
            r == (self@.queue.len() > 0),
    {
        self.0.pending()
    }

    /// Whether a request awaits its reply.
    pub fn awaiting_reply(&self) -> (r: bool)
        ensures
            r == self@.outstanding,
    {
        self.0.awaiting_reply()
    }

    /// Issues a request: returns the datagram to send.
    pub fn send_request(&mut self, cmd: &str) -> (r: Vec<u8>)
        requires
            !old(self)@.outstanding,
        ensures
            r@ == encode_utf8(cmd@),
            final(self)@ == (SessionView { outstanding: true, ..old(self)@ }),
    {
        self.0.send_request(cmd)
    }

    /// Handles one received message, as [`ClientInternal::on_message`].
    pub fn on_message(&mut self, msg: String) -> (r: Option<String>)
        ensures
            (final(self)@, match r {
                Some(m) => Some(m@),
                None => None,
            }) == deliver(old(self)@, msg@),
    {
        self.0.on_message(msg)
    }
}

/// Delivers `msgs` in order: the final state, and the reply among them (the
/// first one, if several).
pub open spec fn deliver_all(s: SessionView, msgs: Seq<Seq<char>>) -> (SessionView, Option<
    Seq<char>,
>)
    decreases msgs.len(),
{
    if msgs.len() == 0 {
        (s, None)
    } else {
        let (next, reply) = deliver(s, msgs[0]);
        let (last, later) = deliver_all(next, msgs.drop_first());
        (last, if reply is Some {
            reply
        } else {
            later
        })
    }
}

/// With a request outstanding, unsolicited `events` followed by a `reply`
/// yield that reply, and leave exactly the events queued after what was
/// already there, in their order of arrival.
pub proof fn lemma_reply_after_events(s: SessionView, events: Seq<Seq<char>>, reply: Seq<char>)
    requires
        s.outstanding,
        forall|i: int| 0 <= i < events.len() ==> unsolicited(#[trigger] events[i]),
        !unsolicited(reply),
    ensures
        deliver_all(s, events.push(reply)) == (SessionView {
            outstanding: false,
            queue: s.queue + events,
        }, Some(reply)),
    decreases events.len(),
{
    let msgs = events.push(reply);
    if events.len() == 0 {
        assert(msgs[0] == reply);
        assert(msgs.drop_first() =~= Seq::<Seq<char>>::empty());
        assert(s.queue + events =~= s.queue);
        let (n1, r1) = deliver(s, msgs[0]);
        assert(r1 == Some(reply));
        assert(n1 == SessionView { outstanding: false, queue: s.queue + events });
        assert(deliver_all(n1, msgs.drop_first()) == (n1, None::<Seq<char>>));
    } else {
        let next = SessionView { queue: s.queue.push(events[0]), ..s };
        let rest = events.drop_first();
        assert(msgs[0] == events[0]);
        assert(unsolicited(events[0]));
        assert(deliver(s, msgs[0]) == (next, None::<Seq<char>>));
        assert(msgs.drop_first() =~= rest.push(reply));
        assert forall|i: int| 0 <= i < rest.len() implies unsolicited(#[trigger] rest[i]) by {
            assert(rest[i] == events[i + 1]);
        }
        lemma_reply_after_events(next, rest, reply);
        assert(next.queue + rest =~= s.queue + events);
        assert(deliver_all(next, rest.push(reply)).1 == Some(reply));
    }
}

} // verus!
