//! The server's side of a client's control connection: which clients are
//! connected, what a new session is sent, and how its message loop reacts
//! to each event. The program that owns the sockets runs the loop.
use vstd::prelude::*;

use crate::api::assign_request;
use crate::config::{proxy_type_name, ProxyRule};
use crate::proto::message::{AuthRequest, ControlMessage, Message, NewWorkConnResponse, ServerAssignProxyRequest};
use crate::proxy_manager::ProxyEntry;
use crate::table::NameTable;
use crate::text::string_views;

verus! {

/// How long a session may stay silent before it is dropped: three heartbeat
/// intervals, in nanoseconds.
pub const HEARTBEAT_TIMEOUT_NANOS: u64 = 90_000_000_000;

/// The connected clients, each with the handle that reaches its session.
pub struct ClientSessionManager<T> {
    sessions: NameTable<T>,
}

impl<T> Default for ClientSessionManager<T> {
    /// No client is connected.
    fn default() -> (m: Self)
        ensures
            m.wf(),
            m@ == Map::<Seq<char>, T>::empty(),
    {
        ClientSessionManager::new()
    }
}

impl<T> ClientSessionManager<T> {
    /// The handle per connected client id.
    pub closed spec fn view(&self) -> Map<Seq<char>, T> {
        self.sessions@
    }

    /// The table is well formed.
    pub closed spec fn wf(&self) -> bool {
        self.sessions.wf()
    }

    /// No client is connected.
    pub fn new() -> (m: Self)
        ensures
            m.wf(),
            m@ == Map::<Seq<char>, T>::empty(),
    {
        ClientSessionManager { sessions: NameTable::new() }
    }

    /// Registers the session of `client_id`; a session it had before is
    /// replaced and given back (it is told to go with a `Ping`).
    pub fn register(&mut self, client_id: &str, tx: T) -> (replaced: Option<T>)
        requires
            old(self).wf(),
        ensures
            final(self).wf(),
            final(self)@ == old(self)@.insert(client_id@, tx),
            old(self)@.contains_key(client_id@) ==> replaced == Some(old(self)@[client_id@]),
            !old(self)@.contains_key(client_id@) ==> replaced is None,
    {
        self.sessions.set(client_id, tx)
    }

    /// Forgets the session of `client_id`.
    pub fn unregister(&mut self, client_id: &str) -> (removed: Option<T>)
        requires
            old(self).wf(),
        ensures
            final(self).wf(),
            final(self)@ == old(self)@.remove(client_id@),
            old(self)@.contains_key(client_id@) ==> removed == Some(old(self)@[client_id@]),
            !old(self)@.contains_key(client_id@) ==> removed is None,
    {
        self.sessions.remove(client_id)
    }

    /// Where a message to `client_id` goes: the handle of its session, when
    /// it is connected.
    pub fn send_to(&self, client_id: &str) -> (r: Option<&T>)
        requires
            self.wf(),
        ensures
            match r {
                Some(t) => self@.contains_key(client_id@) && self@[client_id@] == *t,
                None => !self@.contains_key(client_id@),
            },
    {
        self.sessions.get(client_id)
    }

    /// The ids of the connected clients, each once.
    pub fn connected_clients(&self) -> (ids: Vec<String>)
        requires
            self.wf(),
        ensures
            string_views(ids@).to_set() == self@.dom(),
            string_views(ids@).no_duplicates(),
    {
        proof {
            self.sessions.lemma_names();
        }
        let ids = self.sessions.name_list();
        assert(string_views(ids@) =~= self.sessions.names());
        ids
    }

    /// Whether `client_id` is connected.
    pub fn is_online(&self, client_id: &str) -> (r: bool)
        requires
            self.wf(),
        ensures
            r == self@.contains_key(client_id@),
    {
        self.sessions.contains(client_id)
    }
}

/// The sessions after `calls`, made in order from `m`: each call is a
/// client id with the handle it registers (`Some`), or none when it
/// unregisters.
pub open spec fn sessions_after<T>(m: Map<Seq<char>, T>, calls: Seq<(Seq<char>, Option<T>)>) -> Map<
    Seq<char>,
    T,
>
    decreases calls.len(),
{
    if calls.len() == 0 {
        m
    } else {
        let prev = sessions_after(m, calls.drop_last());
        let c = calls.last();
        match c.1 {
            Some(t) => prev.insert(c.0, t),
            None => prev.remove(c.0),
        }
    }
}

/// The index of the last call of `calls` about client `id`; -1 when none is.
pub open spec fn last_call<T>(calls: Seq<(Seq<char>, Option<T>)>, id: Seq<char>) -> int
    decreases calls.len(),
{
    if calls.len() == 0 {
        -1
    } else if calls.last().0 == id {
        calls.len() - 1
    } else {
        last_call(calls.drop_last(), id)
    }
}

/// The session table follows the last call about each client: starting
/// with no client, a client is connected after a run of registrations and
/// unregistrations exactly when the last call about it registered it, and
/// then its handle is the one that call registered.
pub proof fn lemma_sessions_follow_last_call<T>(calls: Seq<(Seq<char>, Option<T>)>, id: Seq<char>)
    ensures
        -1 <= last_call(calls, id) < calls.len(),
        last_call(calls, id) == -1 ==> !sessions_after(Map::<Seq<char>, T>::empty(), calls).contains_key(id),
        last_call(calls, id) >= 0 ==> (sessions_after(Map::<Seq<char>, T>::empty(), calls).contains_key(id)
            <==> calls[last_call(calls, id)].1 is Some),
        last_call(calls, id) >= 0 ==> (calls[last_call(calls, id)].1 matches Some(t) ==> sessions_after(
            Map::<Seq<char>, T>::empty(),
            calls,
        )[id] == t),
    decreases calls.len(),
{
    if calls.len() > 0 {
        let prev = calls.drop_last();
        lemma_sessions_follow_last_call(prev, id);
        if calls.last().0 != id {
            if last_call(prev, id) >= 0 {
                assert(calls[last_call(prev, id)] == prev[last_call(prev, id)]);
            }
        }
    }
}

/// What a new tunnel connection is, by its first message.
pub enum TunnelDispatch {
    /// A client's control connection, opened by its authentication request.
    Session(AuthRequest),
    /// A client's work connection for user connection `conn_id`.
    WorkConn(NewWorkConnResponse),
    /// Anything else: the connection is closed.
    Reject,
}

/// Sorts a new tunnel connection by its first message: an authentication
/// request opens a session, a work connection announcement joins a waiting
/// user connection, anything else is refused.
pub fn tunnel_dispatch(first: Message) -> (d: TunnelDispatch)
    ensures
        match first {
            Message::Control(ControlMessage::Auth(req)) => d == TunnelDispatch::Session(req),
            Message::Control(ControlMessage::NewWorkConnResp(resp)) => d == TunnelDispatch::WorkConn(resp),
            _ => d is Reject,
        },
{
    match first {
        Message::Control(ControlMessage::Auth(req)) => TunnelDispatch::Session(req),
        Message::Control(ControlMessage::NewWorkConnResp(resp)) => TunnelDispatch::WorkConn(resp),
        _ => TunnelDispatch::Reject,
    }
}

/// The assignments a newly authenticated client receives: one per rule of
/// that client, in order.
pub fn session_assignments(entries: &Vec<ProxyEntry>) -> (out: Vec<ServerAssignProxyRequest>)
    ensures
        out@.len() == entries@.len(),
        forall|i: int|
            #![trigger out@[i]]
            0 <= i < out@.len() ==> out@[i].name@ == entries@[i].rule.name@ && out@[i].proxy_type@
                == proxy_type_name(entries@[i].rule.proxy_type) && out@[i].local_ip@
                == entries@[i].rule.local_ip@ && out@[i].local_port == entries@[i].rule.local_port
                && out@[i].remote_port == entries@[i].rule.remote_port && string_views(
                out@[i].custom_domains@,
            ) == string_views(entries@[i].rule.custom_domains@) && out@[i].proxy_protocol@
                == entries@[i].rule.proxy_protocol@,
{
    let mut out: Vec<ServerAssignProxyRequest> = Vec::new();
    let mut i: usize = 0;
    while i < entries.len()
        invariant
            i <= entries@.len(),
            out@.len() == i,
            forall|j: int|
                #![trigger out@[j]]
                0 <= j < i ==> out@[j].name@ == entries@[j].rule.name@ && out@[j].proxy_type@
                    == proxy_type_name(entries@[j].rule.proxy_type) && out@[j].local_ip@
                    == entries@[j].rule.local_ip@ && out@[j].local_port
                    == entries@[j].rule.local_port && out@[j].remote_port
                    == entries@[j].rule.remote_port && string_views(out@[j].custom_domains@)
                    == string_views(entries@[j].rule.custom_domains@) && out@[j].proxy_protocol@
                    == entries@[j].rule.proxy_protocol@,
        decreases entries@.len() - i,
    {
        out.push(assign_request(&entries[i].rule));
        i = i + 1;
    }
    out
}

/// What happens on an authenticated control connection.
pub enum SessionEvent {
    /// A message arrived from the client at `now` (monotonic nanoseconds).
    Received { message: Message, now: u64 },
    /// A frame from the client could not be decoded.
    ReadError,
    /// The client closed the connection.
    Closed,
    /// The server has a message for this client.
    Outbound(Message),
    /// Nothing can reach this session from the server any more.
    OutboundClosed,
    /// The heartbeat timer fired at `now`.
    Tick { now: u64 },
    /// Writing to the client failed.
    SendFailed,
}

/// What the loop does next.
pub enum SessionAction {
    /// Keep going.
    Continue,
    /// Answer a heartbeat with `Pong`.
    SendPong,
    /// Send this message to the client.
    Send(Message),
    /// Close the session.
    Disconnect,
}

/// The kind of event, as plain values.
pub enum SessionEventKind {
    Ping,
    RepeatedAuth,
    OtherMessage,
    ReadError,
    Closed,
    Outbound,
    OutboundClosed,
    Tick,
    SendFailed,
}

/// The kind of a session event.
pub open spec fn session_event_kind(e: SessionEvent) -> SessionEventKind {
    match e {
        SessionEvent::Received { message, now } => match message {
            Message::Control(ControlMessage::Ping) => SessionEventKind::Ping,
            Message::Control(ControlMessage::Auth(_)) => SessionEventKind::RepeatedAuth,
            _ => SessionEventKind::OtherMessage,
        },
        SessionEvent::ReadError => SessionEventKind::ReadError,
        SessionEvent::Closed => SessionEventKind::Closed,
        SessionEvent::Outbound(_) => SessionEventKind::Outbound,
        SessionEvent::OutboundClosed => SessionEventKind::OutboundClosed,
        SessionEvent::Tick { now } => SessionEventKind::Tick,
        SessionEvent::SendFailed => SessionEventKind::SendFailed,
    }
}

/// Whether more than the heartbeat timeout has passed from `last` to `now`.
pub open spec fn heartbeat_expired(last: u64, now: u64) -> bool {
    now > last && now - last > HEARTBEAT_TIMEOUT_NANOS
}

/// One step of a session's message loop, from the time of the last
/// heartbeat: a `Ping` is answered and renews the heartbeat, a repeated
/// authentication and other client messages are ignored, messages for the
/// client are sent on, a silent client is dropped at the next tick after
/// the timeout, and any failure or close ends the session. Gives the new
/// heartbeat time and the action.
pub fn session_step(last_heartbeat: u64, event: SessionEvent) -> (r: (u64, SessionAction))
    ensures
        match session_event_kind(event) {
            SessionEventKind::Ping => r.1 is SendPong && r.0 == event->Received_now,
            SessionEventKind::RepeatedAuth | SessionEventKind::OtherMessage => r.1 is Continue
                && r.0 == last_heartbeat,
            SessionEventKind::Outbound => (r.1 matches SessionAction::Send(m) && m == event->Outbound_0)
                && r.0 == last_heartbeat,
            SessionEventKind::Tick => r.0 == last_heartbeat && (if heartbeat_expired(
                last_heartbeat,
                event->Tick_now,
            ) {
                r.1 is Disconnect
            } else {
                r.1 is Continue
            }),
            _ => r.1 is Disconnect && r.0 == last_heartbeat,
        },
{
    match event {
        SessionEvent::Received { message, now } => match message {
            Message::Control(ControlMessage::Ping) => (now, SessionAction::SendPong),
            Message::Control(ControlMessage::Auth(_)) => (last_heartbeat, SessionAction::Continue),
            _ => (last_heartbeat, SessionAction::Continue),
        },
        SessionEvent::ReadError => (last_heartbeat, SessionAction::Disconnect),
        SessionEvent::Closed => (last_heartbeat, SessionAction::Disconnect),
        SessionEvent::Outbound(m) => (last_heartbeat, SessionAction::Send(m)),
        SessionEvent::OutboundClosed => (last_heartbeat, SessionAction::Disconnect),
        SessionEvent::Tick { now } => {
            if now > last_heartbeat && now - last_heartbeat > HEARTBEAT_TIMEOUT_NANOS {
                (last_heartbeat, SessionAction::Disconnect)
            } else {
                (last_heartbeat, SessionAction::Continue)
            }
        },
        SessionEvent::SendFailed => (last_heartbeat, SessionAction::Disconnect),
    }
}

/// A client that sends a heartbeat at least every
/// `HEARTBEAT_TIMEOUT_NANOS` is never dropped by the heartbeat check: after
/// a `Ping` at `t`, no tick up to the timeout later ends the session.
pub proof fn lemma_ping_keeps_session(last: u64, t: u64, tick: u64)
    requires
        t <= tick,
        tick - t <= HEARTBEAT_TIMEOUT_NANOS,
    ensures
        !heartbeat_expired(t, tick),
{
}

/// A client that stays silent past the timeout is dropped at the next
/// tick.
pub proof fn lemma_silence_ends_session(last: u64, tick: u64)
    requires
        last <= tick,
        tick - last > HEARTBEAT_TIMEOUT_NANOS,
    ensures
        heartbeat_expired(last, tick),
{
}

} // verus!
