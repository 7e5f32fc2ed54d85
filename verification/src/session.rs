//! The metadata WebSocket proxy: a client logs in with an access token, the proxy logs in
//! to musikcubed with the real password on the client's behalf, then relays frames both
//! ways. This module holds the decisions; the caller performs the I/O each action asks for
//! and reports what happened as the next event.
use vstd::prelude::*;
use crate::api::{get_entry, lookup, option_str, take_entry, set_entry, JsonNumber, JsonValue, WsApiMessage, WsApiMessageType};
use crate::error::AppError;
use crate::token::{check_token, Tokens};

verus! {

/// Where a metadata session stands.
#[derive(Debug, PartialEq, Eq, Structural)]
pub enum SessionPhase {
    /// Waiting for the client's login message.
    AwaitClientAuth,
    /// The login was forwarded to musikcubed; waiting to hear whether it was sent.
    AwaitServerSend,
    /// Waiting for musikcubed's reply to the login.
    AwaitServerReply,
    /// The reply was forwarded to the client; waiting to hear whether it was sent.
    AwaitClientSend,
    /// Logged in: frames are relayed both ways.
    Proxying,
    /// Both sockets are being closed.
    Closed,
}

/// The client's first frame.
#[derive(Debug)]
pub enum ClientAuthInput {
    /// A text frame, parsed as an API message (`None` where it does not parse).
    Text(Option<WsApiMessage>),
    /// Anything else, or no frame at all.
    NotText,
}

/// musikcubed's answer to the login.
#[derive(Debug)]
pub enum ServerReplyInput {
    /// A text frame, parsed as an API message (`None` where it does not parse).
    Text(Option<WsApiMessage>),
    /// A close frame, with its code and reason if it carried them.
    Close(Option<(u16, String)>),
    /// Anything else, an error, or no frame at all.
    Other,
}

/// What happened since the last action.
#[derive(Debug)]
pub enum SessionEvent {
    ClientAuth(ClientAuthInput),
    ServerSent(bool),
    ServerReply(ServerReplyInput),
    ClientSent(bool),
}

/// Why a session was closed.
#[derive(Debug)]
pub enum CloseReason {
    NoAuthMessage,
    InvalidAuthMessage,
    NoToken,
    InvalidToken,
    TokenCheckFailed(AppError),
    ServerSendFailed,
    InvalidServerReply,
    Unauthorized,
    ServerClosed(Option<(u16, String)>),
    UnexpectedServerMessage,
    ClientSendFailed,
    OutOfOrder,
}

/// What the caller is to do next.
#[derive(Debug)]
pub enum SessionAction {
    /// Read the client's next frame.
    ReadClient,
    /// Send this message to musikcubed.
    SendToServer(WsApiMessage),
    /// Read musikcubed's next frame.
    ReadServer,
    /// Send this message to the client.
    SendToClient(WsApiMessage),
    /// Start relaying frames both ways.
    StartProxy,
    /// Close both sockets.
    Close(CloseReason),
}

/// `authenticated`, the option of musikcubed's login reply.
pub open spec fn authenticated_key() -> Seq<char> {
    "authenticated"@
}

/// The login request sent to musikcubed for a client's login `client`: the real password,
/// and the client's id and device id (empty where it sent none).
pub open spec fn is_forwarded_login(out: WsApiMessage, client: WsApiMessage, password: Seq<char>) -> bool {
    &&& out.name@ == "authenticate"@
    &&& out.kind == WsApiMessageType::Request
    &&& out.id == client.id
    &&& out.device_id matches Some(d) && d@ == match client.device_id {
        Some(c) => c@,
        None => Seq::<char>::empty(),
    }
    &&& out.options@.len() == 1
    &&& out.options@[0].0@ == "password"@
    &&& out.options@[0].1 matches JsonValue::Str(p) && p@ == password
}

/// The reply forwarded to the client for musikcubed's reply `server`: the same message,
/// except that where its `environment` option is an object, that object's
/// `http_server_port` is the proxy's public port.
pub open spec fn is_forwarded_reply(out: WsApiMessage, server: WsApiMessage, port: u16) -> bool {
    &&& out.name == server.name
    &&& out.kind == server.kind
    &&& out.id == server.id
    &&& out.device_id == server.device_id
    &&& match lookup(server.options@, "environment"@) {
        Some(JsonValue::Object(env)) => {
            &&& forall|k: Seq<char>| k != "environment"@ ==> #[trigger] lookup(out.options@, k)
                == lookup(server.options@, k)
            &&& lookup(out.options@, "environment"@) matches Some(JsonValue::Object(env2))
                && forall|k: Seq<char>| #[trigger] lookup(env2@, k) == if k == "http_server_port"@ {
                Some(JsonValue::Number(JsonNumber::PosInt(port as u64)))
            } else {
                lookup(env@, k)
            }
        },
        _ => out.options == server.options,
    }
}

/// The step of a session: from `phase`, on `event`, to the next phase and action. Tokens
/// are checked against `tokens`; musikcubed is logged in to with `password`; the reply to
/// the client advertises `public_port`.
pub fn step(
    phase: SessionPhase,
    event: SessionEvent,
    tokens: &Tokens,
    password: &str,
    public_port: u16,
) -> (res: (SessionPhase, SessionAction))
    ensures
        res.0 == next_phase(phase, event, tokens@),
        match (phase, event) {
            (SessionPhase::AwaitClientAuth, SessionEvent::ClientAuth(input)) => match input {
                ClientAuthInput::NotText => res == (SessionPhase::Closed, SessionAction::Close(CloseReason::NoAuthMessage)),
                ClientAuthInput::Text(None) => res == (SessionPhase::Closed, SessionAction::Close(CloseReason::InvalidAuthMessage)),
                ClientAuthInput::Text(Some(m)) => match option_str(m.options@, "password"@) {
                    None => res == (SessionPhase::Closed, SessionAction::Close(CloseReason::NoToken)),
                    Some(token) => match check_token(tokens@, token) {
                        Some(true) => res.0 == SessionPhase::AwaitServerSend && (res.1 matches SessionAction::SendToServer(out) && is_forwarded_login(out, m, password@)),
                        Some(false) => res == (SessionPhase::Closed, SessionAction::Close(CloseReason::InvalidToken)),
                        None => res.0 == SessionPhase::Closed && res.1 matches SessionAction::Close(CloseReason::TokenCheckFailed(_)),
                    },
                },
            },
            (SessionPhase::AwaitServerSend, SessionEvent::ServerSent(ok)) => res == if ok {
                (SessionPhase::AwaitServerReply, SessionAction::ReadServer)
            } else {
                (SessionPhase::Closed, SessionAction::Close(CloseReason::ServerSendFailed))
            },
            (SessionPhase::AwaitServerReply, SessionEvent::ServerReply(input)) => match input {
                ServerReplyInput::Text(None) => res == (SessionPhase::Closed, SessionAction::Close(CloseReason::InvalidServerReply)),
                ServerReplyInput::Text(Some(m)) => if option_bool_true(m) {
                    res.0 == SessionPhase::AwaitClientSend && (res.1 matches SessionAction::SendToClient(out) && is_forwarded_reply(out, m, public_port))
                } else {
                    res == (SessionPhase::Closed, SessionAction::Close(CloseReason::Unauthorized))
                },
                ServerReplyInput::Close(frame) => res == (SessionPhase::Closed, SessionAction::Close(CloseReason::ServerClosed(frame))),
                ServerReplyInput::Other => res == (SessionPhase::Closed, SessionAction::Close(CloseReason::UnexpectedServerMessage)),
            },
            (SessionPhase::AwaitClientSend, SessionEvent::ClientSent(ok)) => res == if ok {
                (SessionPhase::Proxying, SessionAction::StartProxy)
            } else {
                (SessionPhase::Closed, SessionAction::Close(CloseReason::ClientSendFailed))
            },
            _ => res == (SessionPhase::Closed, SessionAction::Close(CloseReason::OutOfOrder)),
        },
{
    match (phase, event) {
        (SessionPhase::AwaitClientAuth, SessionEvent::ClientAuth(input)) => match input {
            ClientAuthInput::NotText => (SessionPhase::Closed, SessionAction::Close(CloseReason::NoAuthMessage)),
            ClientAuthInput::Text(None) => (SessionPhase::Closed, SessionAction::Close(CloseReason::InvalidAuthMessage)),
            ClientAuthInput::Text(Some(m)) => match m.option_str("password") {
                None => (SessionPhase::Closed, SessionAction::Close(CloseReason::NoToken)),
                Some(token) => match tokens.verify(token.as_str()) {
                    Ok(true) => (SessionPhase::AwaitServerSend, SessionAction::SendToServer(forwarded_login(m, password))),
                    Ok(false) => (SessionPhase::Closed, SessionAction::Close(CloseReason::InvalidToken)),
                    Err(e) => (SessionPhase::Closed, SessionAction::Close(CloseReason::TokenCheckFailed(e))),
                },
            },
        },
        (SessionPhase::AwaitServerSend, SessionEvent::ServerSent(ok)) => if ok {
            (SessionPhase::AwaitServerReply, SessionAction::ReadServer)
        } else {
            (SessionPhase::Closed, SessionAction::Close(CloseReason::ServerSendFailed))
        },
        (SessionPhase::AwaitServerReply, SessionEvent::ServerReply(input)) => match input {
            ServerReplyInput::Text(None) => (SessionPhase::Closed, SessionAction::Close(CloseReason::InvalidServerReply)),
            ServerReplyInput::Text(Some(m)) => if m.option_bool("authenticated") == Some(true) {
                (SessionPhase::AwaitClientSend, SessionAction::SendToClient(forwarded_reply(m, public_port)))
            } else {
                (SessionPhase::Closed, SessionAction::Close(CloseReason::Unauthorized))
            },
            ServerReplyInput::Close(frame) => (SessionPhase::Closed, SessionAction::Close(CloseReason::ServerClosed(frame))),
            ServerReplyInput::Other => (SessionPhase::Closed, SessionAction::Close(CloseReason::UnexpectedServerMessage)),
        },
        (SessionPhase::AwaitClientSend, SessionEvent::ClientSent(ok)) => if ok {
            (SessionPhase::Proxying, SessionAction::StartProxy)
        } else {
            (SessionPhase::Closed, SessionAction::Close(CloseReason::ClientSendFailed))
        },
        _ => (SessionPhase::Closed, SessionAction::Close(CloseReason::OutOfOrder)),
    }
}

/// Whether musikcubed's reply says `authenticated: true`.
pub open spec fn option_bool_true(m: WsApiMessage) -> bool {
    crate::api::option_bool(m.options@, authenticated_key()) == Some(true)
}

/// The login request forwarded to musikcubed for the client's login `client`.
pub fn forwarded_login(client: WsApiMessage, password: &str) -> (res: WsApiMessage)
    ensures
        is_forwarded_login(res, client, password@),
{
    broadcast use vstd::string::group_string_axioms;
    proof {
        reveal_strlit("authenticate");
        reveal_strlit("password");
        assert("authenticate"@ =~= crate::api::authenticate_name());
        assert("password"@ =~= crate::api::password_key());
    }
    let WsApiMessage { id, device_id, .. } = client;
    let device = match device_id {
        Some(d) => d,
        None => String::new(),
    };
    WsApiMessage::authenticate(password.to_string()).id(id).device_id(device)
}

/// musikcubed's login reply `server` as forwarded to the client: where its `environment`
/// option is an object, that object's `http_server_port` becomes `public_port`.
pub fn forwarded_reply(server: WsApiMessage, public_port: u16) -> (res: WsApiMessage)
    ensures
        is_forwarded_reply(res, server, public_port),
{
    broadcast use vstd::string::group_string_axioms;
    let ghost incoming = server;
    let is_object = match get_entry(&server.options, "environment") {
        Some(JsonValue::Object(_)) => true,
        _ => false,
    };
    if !is_object {
        return server;
    }
    let WsApiMessage { name, kind, id, device_id, options } = server;
    let (rest, env) = take_entry(options, "environment");
    match env {
        Some(JsonValue::Object(entries)) => {
            let patched = set_entry(
                entries,
                "http_server_port".to_string(),
                JsonValue::Number(JsonNumber::PosInt(public_port as u64)),
            );
            let ghost before_rest = rest@;
            let mut options = rest;
            options.push(("environment".to_string(), JsonValue::Object(patched)));
            proof {
                assert(options@.drop_last() == before_rest);
                assert forall|k: Seq<char>| k != "environment"@ implies #[trigger] lookup(options@, k)
                    == lookup(incoming.options@, k) by {
                    crate::api::lemma_lookup_without(incoming.options@, "environment"@, k);
                }
            }
            WsApiMessage { name, kind, id, device_id, options }
        },
        _ => WsApiMessage { name, kind, id, device_id, options: rest },
    }
}

/// The phase a session moves to from `phase` on `event`, with `hashes` the stored token
/// hashes.
pub open spec fn next_phase(phase: SessionPhase, event: SessionEvent, hashes: Set<Seq<char>>) -> SessionPhase {
    match (phase, event) {
        (SessionPhase::AwaitClientAuth, SessionEvent::ClientAuth(ClientAuthInput::Text(Some(m)))) => {
            if is_valid_login(m, hashes) {
                SessionPhase::AwaitServerSend
            } else {
                SessionPhase::Closed
            }
        },
        (SessionPhase::AwaitServerSend, SessionEvent::ServerSent(ok)) => if ok {
            SessionPhase::AwaitServerReply
        } else {
            SessionPhase::Closed
        },
        (SessionPhase::AwaitServerReply, SessionEvent::ServerReply(ServerReplyInput::Text(Some(m)))) => {
            if option_bool_true(m) {
                SessionPhase::AwaitClientSend
            } else {
                SessionPhase::Closed
            }
        },
        (SessionPhase::AwaitClientSend, SessionEvent::ClientSent(ok)) => if ok {
            SessionPhase::Proxying
        } else {
            SessionPhase::Closed
        },
        _ => SessionPhase::Closed,
    }
}

/// A client login whose `password` option is a stored access token.
pub open spec fn is_valid_login(m: WsApiMessage, hashes: Set<Seq<char>>) -> bool {
    option_str(m.options@, "password"@) matches Some(t) && check_token(hashes, t) == Some(true)
}

/// The phase a session reaches from `phase` through `events`.
pub open spec fn run_phases(phase: SessionPhase, events: Seq<SessionEvent>, hashes: Set<Seq<char>>) -> SessionPhase
    decreases events.len(),
{
    if events.len() == 0 {
        phase
    } else {
        run_phases(next_phase(phase, events[0], hashes), events.drop_first(), hashes)
    }
}

proof fn lemma_closed_stays_closed(events: Seq<SessionEvent>, hashes: Set<Seq<char>>)
    ensures
        run_phases(SessionPhase::Closed, events, hashes) == SessionPhase::Closed,
    decreases events.len(),
{
    if events.len() > 0 {
        lemma_closed_stays_closed(events.drop_first(), hashes);
    }
}

proof fn lemma_proxying_is_final(events: Seq<SessionEvent>, hashes: Set<Seq<char>>)
    ensures
        run_phases(SessionPhase::Proxying, events, hashes) == SessionPhase::Proxying <==> events.len() == 0,
    decreases events.len(),
{
    if events.len() > 0 {
        lemma_closed_stays_closed(events.drop_first(), hashes);
    }
}

/// A session relays frames only after exactly four events: a client login with a stored
/// access token, the login sent on to musikcubed, musikcubed's reply that it is
/// authenticated, and that reply sent on to the client.
pub proof fn law_proxying_requires_login(events: Seq<SessionEvent>, hashes: Set<Seq<char>>)
    requires
        run_phases(SessionPhase::AwaitClientAuth, events, hashes) == SessionPhase::Proxying,
    ensures
        events.len() == 4,
        events[0] matches SessionEvent::ClientAuth(ClientAuthInput::Text(Some(m))) && is_valid_login(m, hashes),
        events[1] == SessionEvent::ServerSent(true),
        events[2] matches SessionEvent::ServerReply(ServerReplyInput::Text(Some(r))) && option_bool_true(r),
        events[3] == SessionEvent::ClientSent(true),
{
    let e = events;
    if e.len() == 0 {
        assert(false);
    }
    let p1 = next_phase(SessionPhase::AwaitClientAuth, e[0], hashes);
    if p1 == SessionPhase::Closed {
        lemma_closed_stays_closed(e.drop_first(), hashes);
        assert(false);
    }
    let e1 = e.drop_first();
    assert(run_phases(p1, e1, hashes) == SessionPhase::Proxying);
    if e1.len() == 0 {
        assert(false);
    }
    let p2 = next_phase(p1, e1[0], hashes);
    if p2 == SessionPhase::Closed {
        lemma_closed_stays_closed(e1.drop_first(), hashes);
        assert(false);
    }
    let e2 = e1.drop_first();
    assert(run_phases(p2, e2, hashes) == SessionPhase::Proxying);
    if e2.len() == 0 {
        assert(false);
    }
    let p3 = next_phase(p2, e2[0], hashes);
    if p3 == SessionPhase::Closed {
        lemma_closed_stays_closed(e2.drop_first(), hashes);
        assert(false);
    }
    let e3 = e2.drop_first();
    assert(run_phases(p3, e3, hashes) == SessionPhase::Proxying);
    if e3.len() == 0 {
        assert(false);
    }
    let p4 = next_phase(p3, e3[0], hashes);
    if p4 == SessionPhase::Closed {
        lemma_closed_stays_closed(e3.drop_first(), hashes);
        assert(false);
    }
    let e4 = e3.drop_first();
    assert(run_phases(p4, e4, hashes) == SessionPhase::Proxying);
    lemma_proxying_is_final(e4, hashes);
    assert(e4.len() == 0);
    assert(e1[0] == e[1] && e2[0] == e[2] && e3[0] == e[3]);
}

} // verus!
