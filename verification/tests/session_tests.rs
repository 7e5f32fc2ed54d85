use musikquadrupled::api::{JsonNumber, JsonValue, WsApiMessage, WsApiMessageType};
use musikquadrupled::session::{step, ClientAuthInput, CloseReason, ServerReplyInput, SessionAction, SessionEvent, SessionPhase};
use musikquadrupled::token::Tokens;

fn tokens_with(token: &str) -> Tokens {
    let mut t = Tokens::read("");
    t.generate_with(token.to_string()).unwrap();
    t
}

fn client_login(token: &str) -> WsApiMessage {
    WsApiMessage::authenticate(token.to_string()).id("42".to_string()).device_id("phone".to_string())
}

#[test]
fn valid_client_login_is_forwarded_with_real_password() {
    let tokens = tokens_with("tok");
    let (phase, action) = step(
        SessionPhase::AwaitClientAuth,
        SessionEvent::ClientAuth(ClientAuthInput::Text(Some(client_login("tok")))),
        &tokens,
        "real",
        8443,
    );
    assert_eq!(phase, SessionPhase::AwaitServerSend);
    match action {
        SessionAction::SendToServer(m) => {
            assert_eq!(m.name, "authenticate");
            assert_eq!(m.id, "42");
            assert_eq!(m.device_id, Some("phone".to_string()));
            assert_eq!(m.options, vec![("password".to_string(), JsonValue::Str("real".to_string()))]);
        }
        other => panic!("unexpected {other:?}"),
    }
}

#[test]
fn bad_client_logins_close_the_session() {
    let tokens = tokens_with("tok");
    let (p, a) = step(SessionPhase::AwaitClientAuth, SessionEvent::ClientAuth(ClientAuthInput::Text(Some(client_login("nope")))), &tokens, "real", 1);
    assert_eq!(p, SessionPhase::Closed);
    assert!(matches!(a, SessionAction::Close(CloseReason::InvalidToken)));
    let (p, a) = step(SessionPhase::AwaitClientAuth, SessionEvent::ClientAuth(ClientAuthInput::NotText), &tokens, "real", 1);
    assert_eq!(p, SessionPhase::Closed);
    assert!(matches!(a, SessionAction::Close(CloseReason::NoAuthMessage)));
    let (_, a) = step(SessionPhase::AwaitClientAuth, SessionEvent::ClientAuth(ClientAuthInput::Text(None)), &tokens, "real", 1);
    assert!(matches!(a, SessionAction::Close(CloseReason::InvalidAuthMessage)));
    let no_password = WsApiMessage::request("authenticate".to_string());
    let (_, a) = step(SessionPhase::AwaitClientAuth, SessionEvent::ClientAuth(ClientAuthInput::Text(Some(no_password))), &tokens, "real", 1);
    assert!(matches!(a, SessionAction::Close(CloseReason::NoToken)));
}

#[test]
fn server_reply_is_patched_with_public_port() {
    let tokens = tokens_with("tok");
    let env = JsonValue::Object(vec![
        ("http_server_port".to_string(), JsonValue::Number(JsonNumber::PosInt(7905))),
        ("api_version".to_string(), JsonValue::Number(JsonNumber::PosInt(20))),
    ]);
    let reply = WsApiMessage::new("authenticate".to_string(), WsApiMessageType::Response)
        .id("42".to_string())
        .option("authenticated".to_string(), JsonValue::Bool(true))
        .option("environment".to_string(), env);
    let (p, a) = step(SessionPhase::AwaitServerReply, SessionEvent::ServerReply(ServerReplyInput::Text(Some(reply))), &tokens, "real", 8443);
    assert_eq!(p, SessionPhase::AwaitClientSend);
    match a {
        SessionAction::SendToClient(m) => {
            assert_eq!(m.id, "42");
            assert_eq!(m.option_bool("authenticated"), Some(true));
            match m.options.iter().find(|(k, _)| k == "environment") {
                Some((_, JsonValue::Object(entries))) => {
                    assert!(entries.contains(&("http_server_port".to_string(), JsonValue::Number(JsonNumber::PosInt(8443)))));
                    assert!(entries.contains(&("api_version".to_string(), JsonValue::Number(JsonNumber::PosInt(20)))));
                    assert_eq!(entries.len(), 2);
                }
                other => panic!("unexpected {other:?}"),
            }
        }
        other => panic!("unexpected {other:?}"),
    }
}

#[test]
fn reply_without_environment_is_unchanged() {
    let tokens = tokens_with("tok");
    let reply = WsApiMessage::new("authenticate".to_string(), WsApiMessageType::Response)
        .option("authenticated".to_string(), JsonValue::Bool(true))
        .option("environment".to_string(), JsonValue::Null);
    let expected = WsApiMessage::new("authenticate".to_string(), WsApiMessageType::Response)
        .option("authenticated".to_string(), JsonValue::Bool(true))
        .option("environment".to_string(), JsonValue::Null);
    let (_, a) = step(SessionPhase::AwaitServerReply, SessionEvent::ServerReply(ServerReplyInput::Text(Some(reply))), &tokens, "real", 8443);
    match a {
        SessionAction::SendToClient(m) => assert_eq!(m, expected),
        other => panic!("unexpected {other:?}"),
    }
}

#[test]
fn server_refusal_and_send_failures_close() {
    let tokens = tokens_with("tok");
    let refused = WsApiMessage::new("authenticate".to_string(), WsApiMessageType::Response)
        .option("authenticated".to_string(), JsonValue::Bool(false));
    let (_, a) = step(SessionPhase::AwaitServerReply, SessionEvent::ServerReply(ServerReplyInput::Text(Some(refused))), &tokens, "real", 1);
    assert!(matches!(a, SessionAction::Close(CloseReason::Unauthorized)));
    let (_, a) = step(SessionPhase::AwaitServerReply, SessionEvent::ServerReply(ServerReplyInput::Close(Some((1000, "bye".to_string())))), &tokens, "real", 1);
    assert!(matches!(a, SessionAction::Close(CloseReason::ServerClosed(Some((1000, _))))));
    let (_, a) = step(SessionPhase::AwaitServerReply, SessionEvent::ServerReply(ServerReplyInput::Other), &tokens, "real", 1);
    assert!(matches!(a, SessionAction::Close(CloseReason::UnexpectedServerMessage)));
    let (_, a) = step(SessionPhase::AwaitServerReply, SessionEvent::ServerReply(ServerReplyInput::Text(None)), &tokens, "real", 1);
    assert!(matches!(a, SessionAction::Close(CloseReason::InvalidServerReply)));
    let (p, a) = step(SessionPhase::AwaitServerSend, SessionEvent::ServerSent(true), &tokens, "real", 1);
    assert_eq!(p, SessionPhase::AwaitServerReply);
    assert!(matches!(a, SessionAction::ReadServer));
    let (_, a) = step(SessionPhase::AwaitServerSend, SessionEvent::ServerSent(false), &tokens, "real", 1);
    assert!(matches!(a, SessionAction::Close(CloseReason::ServerSendFailed)));
    let (p, a) = step(SessionPhase::AwaitClientSend, SessionEvent::ClientSent(true), &tokens, "real", 1);
    assert_eq!(p, SessionPhase::Proxying);
    assert!(matches!(a, SessionAction::StartProxy));
    let (_, a) = step(SessionPhase::AwaitClientSend, SessionEvent::ClientSent(false), &tokens, "real", 1);
    assert!(matches!(a, SessionAction::Close(CloseReason::ClientSendFailed)));
    let (p, a) = step(SessionPhase::Proxying, SessionEvent::ClientSent(true), &tokens, "real", 1);
    assert_eq!(p, SessionPhase::Closed);
    assert!(matches!(a, SessionAction::Close(CloseReason::OutOfOrder)));
}

#[test]
fn full_login_reaches_proxying() {
    let tokens = tokens_with("tok");
    let mut phase = SessionPhase::AwaitClientAuth;
    let reply = WsApiMessage::new("authenticate".to_string(), WsApiMessageType::Response)
        .option("authenticated".to_string(), JsonValue::Bool(true));
    let events = vec![
        SessionEvent::ClientAuth(ClientAuthInput::Text(Some(client_login("tok")))),
        SessionEvent::ServerSent(true),
        SessionEvent::ServerReply(ServerReplyInput::Text(Some(reply))),
        SessionEvent::ClientSent(true),
    ];
    let mut last = None;
    for event in events {
        let (p, a) = step(phase, event, &tokens, "real", 8443);
        phase = p;
        last = Some(a);
    }
    assert_eq!(phase, SessionPhase::Proxying);
    assert!(matches!(last, Some(SessionAction::StartProxy)));
}
