//! One connection's receive, dispatch and reply loop, as a state machine.
//!
//! The machine performs no I/O. Its driver carries out each action on the
//! stream, or on the device, and hands back the event that describes what
//! happened; `step` decides what comes next. A session owns no state but
//! its own `SessionState`, so sessions cannot affect one another.

use crate::codec::{parse_command, response_bytes};
use crate::device::{report_response, report_view};
use crate::dispatch::{device_response, dispatch, Dispatch};
use crate::endian::be_value_4;
use crate::error::WireError;
use crate::frame::{frame, framed, payload_length};
use crate::message::{BridgeCommand, BridgeResponse, ResponseView};
use vstd::prelude::*;

verus! {

/// Where a session stands between two events.
#[derive(Clone, Copy, Debug, PartialEq, Eq, Structural)]
pub enum SessionState {
    /// Waiting for the four bytes of a length prefix.
    AwaitingPrefix,
    /// Waiting for the payload that the prefix announced.
    AwaitingPayload { length: u32 },
    /// Waiting for the report of the device query.
    AwaitingDevice,
    /// Waiting for the response to be written out.
    Sending,
    /// The session is over.
    Finished,
}

/// How a session ended.
#[derive(Clone, Copy, Debug, PartialEq, Eq, Structural)]
pub enum SessionEnd {
    /// The peer closed the stream between two requests, before any byte of
    /// a further one. Not an error.
    PeerClosed,
    /// A frame or payload was refused.
    Wire(WireError),
    /// The response could not be written out.
    SendFailed,
    /// The driver handed in an event that the state does not expect.
    OutOfTurn,
}

/// What happened to the action that the session asked for.
#[derive(Debug, PartialEq, Eq)]
pub enum SessionEvent {
    /// The read completed with exactly the bytes asked for.
    Received(Vec<u8>),
    /// The stream ended, or failed, before the read was complete, after
    /// this many of the bytes asked for had arrived.
    StreamEnded { received: usize },
    /// The device query returned: name and driver version, or the reason
    /// for its failure.
    DeviceReported(Result<(String, String), String>),
    /// Every byte of the response was written.
    Sent,
    /// The stream failed before every byte was written.
    SendFailed,
}

/// What the driver is to do next.
#[derive(Debug, PartialEq, Eq)]
pub enum SessionAction {
    /// Read exactly this many bytes from the stream.
    Read(usize),
    /// Query the device.
    QueryDevice,
    /// Write all of these bytes to the stream.
    Send(Vec<u8>),
    /// Stop; the session has ended in this way.
    Close(SessionEnd),
}

/// An event with its data as mathematical sequences.
pub enum EventView {
    Received(Seq<u8>),
    StreamEnded { received: int },
    DeviceReported(Result<(Seq<char>, Seq<char>), Seq<char>>),
    Sent,
    SendFailed,
}

/// An action with its data as mathematical values.
pub enum ActionView {
    Read(int),
    QueryDevice,
    Send(Seq<u8>),
    Close(SessionEnd),
}

impl View for SessionEvent {
    type V = EventView;

    open spec fn view(&self) -> EventView {
        match self {
            SessionEvent::Received(bytes) => EventView::Received(bytes@),
            SessionEvent::StreamEnded { received } => EventView::StreamEnded {
                received: *received as int,
            },
            SessionEvent::DeviceReported(report) => EventView::DeviceReported(report_view(*report)),
            SessionEvent::Sent => EventView::Sent,
            SessionEvent::SendFailed => EventView::SendFailed,
        }
    }
}

impl View for SessionAction {
    type V = ActionView;

    open spec fn view(&self) -> ActionView {
        match self {
            SessionAction::Read(count) => ActionView::Read(*count as int),
            SessionAction::QueryDevice => ActionView::QueryDevice,
            SessionAction::Send(bytes) => ActionView::Send(bytes@),
            SessionAction::Close(end) => ActionView::Close(*end),
        }
    }
}

impl SessionEnd {
    /// Whether the session ended in an error. Only a peer that closes the
    /// stream between two requests ends a session without one.
    pub fn is_failure(&self) -> (failed: bool)
        ensures
            failed == (*self != SessionEnd::PeerClosed),
    {
        match self {
            SessionEnd::PeerClosed => false,
            _ => true,
        }
    }
}

/// The end of a session in the given way.
pub open spec fn closing(end: SessionEnd) -> (SessionState, ActionView) {
    (SessionState::Finished, ActionView::Close(end))
}

/// Sending `response`: its payload is framed and written, unless the
/// payload is too long for a frame, which ends the session.
pub open spec fn replying(response: ResponseView) -> (SessionState, ActionView) {
    if response_bytes(response).len() <= u32::MAX {
        (SessionState::Sending, ActionView::Send(framed(response_bytes(response))))
    } else {
        closing(SessionEnd::Wire(WireError::PayloadTooLarge))
    }
}

/// The session's rule: the state and action that follow `event` in `state`.
pub open spec fn transition(state: SessionState, event: EventView) -> (SessionState, ActionView) {
    match (state, event) {
        (SessionState::AwaitingPrefix, EventView::Received(prefix)) => if prefix.len() == 4 {
            (
                SessionState::AwaitingPayload { length: be_value_4(prefix) as u32 },
                ActionView::Read(be_value_4(prefix)),
            )
        } else {
            closing(SessionEnd::OutOfTurn)
        },
        (SessionState::AwaitingPrefix, EventView::StreamEnded { received }) => if received == 0 {
            closing(SessionEnd::PeerClosed)
        } else if received < 4 {
            closing(SessionEnd::Wire(WireError::ConnectionClosed))
        } else {
            closing(SessionEnd::OutOfTurn)
        },
        (SessionState::AwaitingPayload { length }, EventView::Received(payload)) => if payload.len()
            != length {
            closing(SessionEnd::OutOfTurn)
        } else {
            match parse_command(payload) {
                Some(BridgeCommand::Ping) => replying(ResponseView::Pong),
                Some(BridgeCommand::GetGpuInfo) => (
                    SessionState::AwaitingDevice,
                    ActionView::QueryDevice,
                ),
                None => closing(SessionEnd::Wire(WireError::MalformedPayload)),
            }
        },
        (SessionState::AwaitingPayload { length }, EventView::StreamEnded { received }) => if received
            < length {
            closing(SessionEnd::Wire(WireError::TruncatedPayload))
        } else {
            closing(SessionEnd::OutOfTurn)
        },
        (SessionState::AwaitingDevice, EventView::DeviceReported(report)) => replying(
            report_response(report),
        ),
        (SessionState::Sending, EventView::Sent) => (
            SessionState::AwaitingPrefix,
            ActionView::Read(4),
        ),
        (SessionState::Sending, EventView::SendFailed) => closing(SessionEnd::SendFailed),
        _ => closing(SessionEnd::OutOfTurn),
    }
}

/// A read is asked for only at the start of an exchange or in the middle of
/// receiving one request: once a request has been received, nothing is read
/// until its response has been written.
pub proof fn lemma_reads_wait_for_the_reply(state: SessionState, event: EventView)
    requires
        transition(state, event).1 is Read,
    ensures
        (state is Sending && event is Sent && transition(state, event).0 is AwaitingPrefix) || (
        state is AwaitingPrefix && transition(state, event).0 is AwaitingPayload),
{
}

/// A stream that ends between two requests, before any byte of a further
/// one, ends the session without error, and that is the only way for a
/// session to end without one.
pub proof fn lemma_clean_disconnect(state: SessionState, event: EventView)
    ensures
        transition(state, event).1 == ActionView::Close(SessionEnd::PeerClosed) <==> state
            is AwaitingPrefix && event == (EventView::StreamEnded { received: 0 }),
{
}

/// The state and action with which every session begins: the first prefix
/// is to be read.
pub fn start() -> (r: (SessionState, SessionAction))
    ensures
        r.0 == SessionState::AwaitingPrefix,
        r.1@ == ActionView::Read(4),
{
    (SessionState::AwaitingPrefix, SessionAction::Read(4))
}

fn close(end: SessionEnd) -> (r: (SessionState, SessionAction))
    ensures
        (r.0, r.1@) == closing(end),
{
    (SessionState::Finished, SessionAction::Close(end))
}

fn reply(response: BridgeResponse) -> (r: (SessionState, SessionAction))
    ensures
        (r.0, r.1@) == replying(response@),
{
    let payload = response.encode();
    match frame(payload.as_slice()) {
        Ok(bytes) => (SessionState::Sending, SessionAction::Send(bytes)),
        Err(e) => close(SessionEnd::Wire(e)),
    }
}

/// Advances the session by one event.
pub fn step(state: SessionState, event: SessionEvent) -> (r: (SessionState, SessionAction))
    ensures
        (r.0, r.1@) == transition(state, event@),
{
    match state {
        SessionState::AwaitingPrefix => match event {
            SessionEvent::Received(bytes) => {
                if bytes.len() != 4 {
                    return close(SessionEnd::OutOfTurn);
                }
                let prefix: [u8; 4] = [bytes[0], bytes[1], bytes[2], bytes[3]];
                let length = payload_length(&prefix);
                assert(be_value_4(prefix@) == be_value_4(bytes@));
                (SessionState::AwaitingPayload { length }, SessionAction::Read(length as usize))
            },
            SessionEvent::StreamEnded { received } => if received == 0 {
                close(SessionEnd::PeerClosed)
            } else if received < 4 {
                close(SessionEnd::Wire(WireError::ConnectionClosed))
            } else {
                close(SessionEnd::OutOfTurn)
            },
            _ => close(SessionEnd::OutOfTurn),
        },
        SessionState::AwaitingPayload { length } => match event {
            SessionEvent::Received(bytes) => {
                if bytes.len() != length as usize {
                    return close(SessionEnd::OutOfTurn);
                }
                match BridgeCommand::decode(bytes.as_slice()) {
                    Ok(command) => match dispatch(command) {
                        Dispatch::Reply(response) => reply(response),
                        Dispatch::QueryDevice => (
                            SessionState::AwaitingDevice,
                            SessionAction::QueryDevice,
                        ),
                    },
                    Err(e) => close(SessionEnd::Wire(e)),
                }
            },
            SessionEvent::StreamEnded { received } => if received < length as usize {
                close(SessionEnd::Wire(WireError::TruncatedPayload))
            } else {
                close(SessionEnd::OutOfTurn)
            },
            _ => close(SessionEnd::OutOfTurn),
        },
        SessionState::AwaitingDevice => match event {
            SessionEvent::DeviceReported(report) => reply(device_response(report)),
            _ => close(SessionEnd::OutOfTurn),
        },
        SessionState::Sending => match event {
            SessionEvent::Sent => (SessionState::AwaitingPrefix, SessionAction::Read(4)),
            SessionEvent::SendFailed => close(SessionEnd::SendFailed),
            _ => close(SessionEnd::OutOfTurn),
        },
        SessionState::Finished => close(SessionEnd::OutOfTurn),
    }
}

} // verus!
