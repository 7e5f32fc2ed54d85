//! WebSocket frames as the proxy sees them: classifying a received item, and deciding how
//! each relay loop goes on after a read or a write.
use vstd::prelude::*;
use crate::text::{push_decimal, push_str};
use crate::text::decimal;

verus! {

/// A WebSocket failure.
#[derive(Debug, PartialEq)]
pub enum WsError {
    /// The connection is closed; the text says how.
    Closed(String),
    /// A frame that did not hold the expected JSON; the text is the parser's message.
    InvalidMessage(String),
    /// Any other failure, described.
    Other(String),
    /// A ping frame where a message was expected.
    Ping(Vec<u8>),
    /// A pong frame where a message was expected.
    Pong(Vec<u8>),
}

impl WsError {
    /// Whether this is a closed connection.
    pub fn is_closed(&self) -> (res: bool)
        ensures
            res == self is Closed,
    {
        match self {
            WsError::Closed(_) => true,
            _ => false,
        }
    }
}

/// A received WebSocket frame.
#[derive(Debug, PartialEq)]
pub enum WsFrame {
    Text(String),
    Binary(Vec<u8>),
    /// A close frame, with its code and reason if it carried them.
    Close(Option<(u16, String)>),
    Ping(Vec<u8>),
    Pong(Vec<u8>),
}

/// The data of a message frame, to be parsed as JSON.
#[derive(Debug, PartialEq)]
pub enum Payload {
    Text(String),
    Binary(Vec<u8>),
}

/// The description of a close frame with `code` and `reason`.
pub open spec fn close_description(code: u16, reason: Seq<char>) -> Seq<char> {
    "was closed, reason "@ + reason + " (code "@ + decimal(code as nat) + ")"@
}

/// What a received item (`None` where the stream ended) yields: the data of a text or
/// binary frame, or the failure it stands for.
pub fn frame_payload(item: Option<Result<WsFrame, WsError>>) -> (res: Result<Payload, WsError>)
    ensures
        match item {
            None => res matches Err(WsError::Closed(s)) && s@ == "was already closed"@,
            Some(Err(e)) => res == Err::<Payload, WsError>(e),
            Some(Ok(WsFrame::Text(s))) => res == Ok::<Payload, WsError>(Payload::Text(s)),
            Some(Ok(WsFrame::Binary(d))) => res == Ok::<Payload, WsError>(Payload::Binary(d)),
            Some(Ok(WsFrame::Close(None))) => res matches Err(WsError::Closed(s)) && s@ == "was closed"@,
            Some(Ok(WsFrame::Close(Some((code, reason))))) => res matches Err(WsError::Closed(s))
                && s@ == close_description(code, reason@),
            Some(Ok(WsFrame::Ping(d))) => res == Err::<Payload, WsError>(WsError::Ping(d)),
            Some(Ok(WsFrame::Pong(d))) => res == Err::<Payload, WsError>(WsError::Pong(d)),
        },
{
    broadcast use vstd::string::group_string_axioms;
    match item {
        None => Err(WsError::Closed("was already closed".to_string())),
        Some(Err(e)) => Err(e),
        Some(Ok(frame)) => match frame {
            WsFrame::Text(s) => Ok(Payload::Text(s)),
            WsFrame::Binary(d) => Ok(Payload::Binary(d)),
            WsFrame::Close(None) => Err(WsError::Closed("was closed".to_string())),
            WsFrame::Close(Some((code, reason))) => {
                let mut s = "was closed, reason ".to_string();
                push_str(&mut s, reason.as_str());
                push_str(&mut s, " (code ");
                push_decimal(&mut s, code as u64);
                push_str(&mut s, ")");
                Err(WsError::Closed(s))
            },
            WsFrame::Ping(d) => Err(WsError::Ping(d)),
            WsFrame::Pong(d) => Err(WsError::Pong(d)),
        },
    }
}

/// Which way a relay loop carries frames.
#[derive(Debug, PartialEq, Eq, Structural)]
pub enum RelayDirection {
    ClientToServer,
    ServerToClient,
}

/// How a relay loop goes on.
#[derive(Debug, PartialEq, Eq, Structural)]
pub enum RelayStep {
    /// Send the frame just read to the other side.
    Forward,
    /// Read the next frame.
    Continue,
    /// Leave the loop and send a close frame to the other side.
    Stop,
}

/// What reading from one side gave.
#[derive(Debug)]
pub enum ReadOutcome {
    Frame,
    Ended,
    Failed(WsError),
}

/// How a relay loop goes on after a read: a frame is forwarded, the end of the stream or
/// a closed connection stops the loop, and any other failure is skipped.
pub fn relay_after_read(read: &ReadOutcome) -> (res: RelayStep)
    ensures
        res == match read {
            ReadOutcome::Frame => RelayStep::Forward,
            ReadOutcome::Ended => RelayStep::Stop,
            ReadOutcome::Failed(e) => if e is Closed {
                RelayStep::Stop
            } else {
                RelayStep::Continue
            },
        },
{
    match read {
        ReadOutcome::Frame => RelayStep::Forward,
        ReadOutcome::Ended => RelayStep::Stop,
        ReadOutcome::Failed(e) => if e.is_closed() {
            RelayStep::Stop
        } else {
            RelayStep::Continue
        },
    }
}

/// How a relay loop goes on after forwarding a frame: a closed connection stops it; any
/// other failure stops the server-to-client loop but not the client-to-server one.
pub fn relay_after_write(direction: RelayDirection, written: &Result<(), WsError>) -> (res: RelayStep)
    ensures
        res == match written {
            Ok(()) => RelayStep::Continue,
            Err(e) => if e is Closed || direction == RelayDirection::ServerToClient {
                RelayStep::Stop
            } else {
                RelayStep::Continue
            },
        },
{
    match written {
        Ok(()) => RelayStep::Continue,
        Err(e) => if e.is_closed() {
            RelayStep::Stop
        } else {
            match direction {
                RelayDirection::ServerToClient => RelayStep::Stop,
                RelayDirection::ClientToServer => RelayStep::Continue,
            }
        },
    }
}

} // verus!
