use musikquadrupled::relay::{frame_payload, relay_after_read, relay_after_write, Payload, ReadOutcome, RelayDirection, RelayStep, WsError, WsFrame};

#[test]
fn frames_to_payloads() {
    assert_eq!(frame_payload(Some(Ok(WsFrame::Text("{}".to_string())))), Ok(Payload::Text("{}".to_string())));
    assert_eq!(frame_payload(Some(Ok(WsFrame::Binary(vec![1, 2])))), Ok(Payload::Binary(vec![1, 2])));
    assert_eq!(frame_payload(None), Err(WsError::Closed("was already closed".to_string())));
    assert_eq!(frame_payload(Some(Ok(WsFrame::Close(None)))), Err(WsError::Closed("was closed".to_string())));
    assert_eq!(
        frame_payload(Some(Ok(WsFrame::Close(Some((1000, "bye".to_string())))))),
        Err(WsError::Closed("was closed, reason bye (code 1000)".to_string()))
    );
    assert_eq!(frame_payload(Some(Ok(WsFrame::Ping(vec![9])))), Err(WsError::Ping(vec![9])));
    assert_eq!(frame_payload(Some(Ok(WsFrame::Pong(vec![])))), Err(WsError::Pong(vec![])));
    assert_eq!(frame_payload(Some(Err(WsError::Other("x".to_string())))), Err(WsError::Other("x".to_string())));
}

#[test]
fn closed_errors() {
    assert!(WsError::Closed(String::new()).is_closed());
    assert!(!WsError::InvalidMessage("bad".to_string()).is_closed());
}

#[test]
fn relay_decisions() {
    assert_eq!(relay_after_read(&ReadOutcome::Frame), RelayStep::Forward);
    assert_eq!(relay_after_read(&ReadOutcome::Ended), RelayStep::Stop);
    assert_eq!(relay_after_read(&ReadOutcome::Failed(WsError::Closed("c".to_string()))), RelayStep::Stop);
    assert_eq!(relay_after_read(&ReadOutcome::Failed(WsError::Other("o".to_string()))), RelayStep::Continue);
    let other: Result<(), WsError> = Err(WsError::Other("o".to_string()));
    let closed: Result<(), WsError> = Err(WsError::Closed("c".to_string()));
    assert_eq!(relay_after_write(RelayDirection::ClientToServer, &Ok(())), RelayStep::Continue);
    assert_eq!(relay_after_write(RelayDirection::ClientToServer, &other), RelayStep::Continue);
    assert_eq!(relay_after_write(RelayDirection::ServerToClient, &other), RelayStep::Stop);
    assert_eq!(relay_after_write(RelayDirection::ClientToServer, &closed), RelayStep::Stop);
}
