//! A session as a whole: what it writes and how it ends, given everything
//! its peer sends.
//!
//! `transcript` states this directly, frame by frame. `serve` drives the
//! state machine of `crate::session` over a stream held in memory and is
//! proved to produce exactly that transcript.

use crate::codec::{command_bytes, lemma_command_round_trip, parse_command, response_bytes};
use crate::device::{report_response, report_view};
use crate::endian::{be_bytes_4, be_value_4, lemma_be_4_bytes_of_value, lemma_be_4_value_of_bytes};
use crate::error::WireError;
use crate::frame::{first_frame, framed, lemma_frame_read_back, ByteStream};
use crate::message::{BridgeCommand, ResponseView};
use crate::session::{
    start,
    step,
    transition,
    ActionView,
    EventView,
    SessionAction,
    SessionEnd,
    SessionEvent,
    SessionState,
};
use vstd::prelude::*;

verus! {

/// The response that `command` is owed when the device reports `report`.
pub open spec fn response_to(
    command: BridgeCommand,
    report: Result<(Seq<char>, Seq<char>), Seq<char>>,
) -> ResponseView {
    match command {
        BridgeCommand::Ping => ResponseView::Pong,
        BridgeCommand::GetGpuInfo => report_response(report),
    }
}

/// A whole session: the bytes it writes and the way it ends, on a stream
/// that yields `input` and then ends, with a device that gives `report` to
/// every query and a peer that accepts every write.
///
/// Frame after frame is read, decoded, answered; the first frame that cannot
/// be read, decoded or answered ends the session. A stream that ends where a
/// frame would begin ends it without error.
pub open spec fn transcript(
    input: Seq<u8>,
    report: Result<(Seq<char>, Seq<char>), Seq<char>>,
) -> (Seq<u8>, SessionEnd)
    decreases input.len(),
{
    match first_frame(input) {
        Err(e) => if input.len() == 0 {
            (Seq::empty(), SessionEnd::PeerClosed)
        } else {
            (Seq::empty(), SessionEnd::Wire(e))
        },
        Ok((payload, rest)) => match parse_command(payload) {
            None => (Seq::empty(), SessionEnd::Wire(WireError::MalformedPayload)),
            Some(command) => {
                let reply = response_bytes(response_to(command, report));
                if reply.len() > u32::MAX {
                    (Seq::empty(), SessionEnd::Wire(WireError::PayloadTooLarge))
                } else {
                    (framed(reply) + transcript(rest, report).0, transcript(rest, report).1)
                }
            },
        },
    }
}

/// The requests for `commands`, frame after frame.
pub open spec fn request_stream(commands: Seq<BridgeCommand>) -> Seq<u8>
    decreases commands.len(),
{
    if commands.len() == 0 {
        Seq::empty()
    } else {
        framed(command_bytes(commands[0])) + request_stream(commands.drop_first())
    }
}

/// The responses to `commands`, frame after frame.
pub open spec fn response_stream(
    commands: Seq<BridgeCommand>,
    report: Result<(Seq<char>, Seq<char>), Seq<char>>,
) -> Seq<u8>
    decreases commands.len(),
{
    if commands.len() == 0 {
        Seq::empty()
    } else {
        framed(response_bytes(response_to(commands[0], report))) + response_stream(
            commands.drop_first(),
            report,
        )
    }
}

/// One complete request at the head of the stream is answered with the
/// frame of its response, and the session goes on with what follows.
pub proof fn lemma_exchange(
    command: BridgeCommand,
    rest: Seq<u8>,
    report: Result<(Seq<char>, Seq<char>), Seq<char>>,
)
    requires
        response_bytes(response_to(command, report)).len() <= u32::MAX,
    ensures
        transcript(framed(command_bytes(command)) + rest, report) == (
            framed(response_bytes(response_to(command, report))) + transcript(rest, report).0,
            transcript(rest, report).1,
        ),
{
    lemma_command_round_trip(command);
    lemma_frame_read_back(command_bytes(command), rest);
}

/// A peer that sends any number of complete requests, none included, and
/// then closes the stream gets the response to each, in order, and the
/// session ends without error.
pub proof fn lemma_exchanges_then_close(
    commands: Seq<BridgeCommand>,
    report: Result<(Seq<char>, Seq<char>), Seq<char>>,
)
    requires
        response_bytes(report_response(report)).len() <= u32::MAX,
    ensures
        transcript(request_stream(commands), report) == (
            response_stream(commands, report),
            SessionEnd::PeerClosed,
        ),
    decreases commands.len(),
{
    if commands.len() == 0 {
        assert(response_stream(commands, report) =~= transcript(request_stream(commands), report).0);
    } else {
        let rest = commands.drop_first();
        lemma_exchanges_then_close(rest, report);
        lemma_exchange(commands[0], request_stream(rest), report);
    }
}

spec fn rank(state: SessionState) -> int {
    match state {
        SessionState::AwaitingPayload { .. } => 4,
        SessionState::AwaitingDevice => 3,
        SessionState::Sending => 2,
        SessionState::AwaitingPrefix => 1,
        SessionState::Finished => 0,
    }
}

// A session that has `response` to send and `remaining` still unread.
spec fn answering(
    response: ResponseView,
    remaining: Seq<u8>,
    report: Result<(Seq<char>, Seq<char>), Seq<char>>,
) -> (Seq<u8>, SessionEnd) {
    if response_bytes(response).len() > u32::MAX {
        (Seq::empty(), SessionEnd::Wire(WireError::PayloadTooLarge))
    } else {
        (
            framed(response_bytes(response)) + transcript(remaining, report).0,
            transcript(remaining, report).1,
        )
    }
}

// What is still to be written, and how the session will end, when the
// driver is about to carry out `action` in `state` with `remaining` unread.
spec fn pending(
    state: SessionState,
    action: ActionView,
    remaining: Seq<u8>,
    report: Result<(Seq<char>, Seq<char>), Seq<char>>,
) -> (Seq<u8>, SessionEnd) {
    match (state, action) {
        (SessionState::AwaitingPrefix, ActionView::Read(_)) => transcript(remaining, report),
        (SessionState::AwaitingPayload { length }, ActionView::Read(_)) => transcript(
            be_bytes_4(length as int) + remaining,
            report,
        ),
        (SessionState::AwaitingDevice, ActionView::QueryDevice) => answering(
            report_response(report),
            remaining,
            report,
        ),
        (SessionState::Sending, ActionView::Send(bytes)) => (
            bytes + transcript(remaining, report).0,
            transcript(remaining, report).1,
        ),
        (_, ActionView::Close(end)) => (Seq::empty(), end),
        _ => (Seq::empty(), SessionEnd::OutOfTurn),
    }
}

// Whether `action` is what `start` or `step` hands out together with `state`.
spec fn in_step(state: SessionState, action: ActionView) -> bool {
    match (state, action) {
        (SessionState::AwaitingPrefix, ActionView::Read(count)) => count == 4,
        (SessionState::AwaitingPayload { length }, ActionView::Read(count)) => count == length,
        (SessionState::AwaitingDevice, ActionView::QueryDevice) => true,
        (SessionState::Sending, ActionView::Send(_)) => true,
        (SessionState::Finished, ActionView::Close(_)) => true,
        _ => false,
    }
}

// Reading a prefix, or finding the stream ended, leaves unchanged what the
// session as a whole writes and how it ends.
proof fn lemma_prefix_step(
    before: Seq<u8>,
    event: EventView,
    after: Seq<u8>,
    report: Result<(Seq<char>, Seq<char>), Seq<char>>,
)
    requires
        if 4 <= before.len() {
            event == EventView::Received(before.take(4)) && after == before.skip(4)
        } else {
            event == (EventView::StreamEnded { received: before.len() as int }) && after.len()
                == 0
        },
    ensures
        in_step(
            transition(SessionState::AwaitingPrefix, event).0,
            transition(SessionState::AwaitingPrefix, event).1,
        ),
        transcript(before, report) == pending(
            transition(SessionState::AwaitingPrefix, event).0,
            transition(SessionState::AwaitingPrefix, event).1,
            after,
            report,
        ),
        4 <= before.len() ==> after.len() < before.len(),
        4 > before.len() ==> transition(SessionState::AwaitingPrefix, event).0 is Finished,
{
    if 4 <= before.len() {
        let prefix = before.take(4);
        lemma_be_4_bytes_of_value(prefix);
        assert(be_value_4(prefix) == be_value_4(before));
        assert(be_bytes_4(be_value_4(prefix)) + after =~= before);
    }
}

// Reading a payload, or finding the stream ended, leaves unchanged what the
// session as a whole writes and how it ends.
proof fn lemma_payload_step(
    length: u32,
    before: Seq<u8>,
    event: EventView,
    after: Seq<u8>,
    report: Result<(Seq<char>, Seq<char>), Seq<char>>,
)
    requires
        if length <= before.len() {
            event == EventView::Received(before.take(length as int)) && after == before.skip(
                length as int,
            )
        } else {
            event == (EventView::StreamEnded { received: before.len() as int }) && after.len()
                == 0
        },
    ensures
        in_step(
            transition(SessionState::AwaitingPayload { length }, event).0,
            transition(SessionState::AwaitingPayload { length }, event).1,
        ),
        transcript(be_bytes_4(length as int) + before, report) == pending(
            transition(SessionState::AwaitingPayload { length }, event).0,
            transition(SessionState::AwaitingPayload { length }, event).1,
            after,
            report,
        ),
        after.len() <= before.len(),
        !(transition(SessionState::AwaitingPayload { length }, event).0 is AwaitingPayload),
{
    let input = be_bytes_4(length as int) + before;
    lemma_be_4_value_of_bytes(length as int);
    assert(be_value_4(input) == be_value_4(be_bytes_4(length as int)));
    if length <= before.len() {
        let payload = before.take(length as int);
        assert(input.subrange(4, 4 + length as int) =~= payload);
        assert(input.skip(4 + length as int) =~= after);
        assert(first_frame(input) == Ok::<_, WireError>((payload, after)));
    } else {
        assert(first_frame(input) == Err::<(Seq<u8>, Seq<u8>), _>(WireError::TruncatedPayload));
    }
}

fn copy_report(report: &Result<(String, String), String>) -> (copy: Result<
    (String, String),
    String,
>)
    ensures
        report_view(copy) == report_view(*report),
{
    match report {
        Ok((name, version)) => Ok((name.clone(), version.clone())),
        Err(reason) => Err(reason.clone()),
    }
}

/// Runs a whole session on a stream held in memory: carries out every
/// action that the state machine asks for, until the session closes. Reads
/// come from `stream`, the device gives `report` to every query, and every
/// write succeeds. Returns the bytes written and the way the session ended.
pub fn serve(stream: ByteStream, report: &Result<(String, String), String>) -> (r: (
    Vec<u8>,
    SessionEnd,
))
    ensures
        (r.0@, r.1) == transcript(stream@, report_view(*report)),
{
    let ghost view = report_view(*report);
    let ghost whole = transcript(stream@, view);
    let mut unread = stream;
    let mut written: Vec<u8> = Vec::new();
    let (mut state, mut action) = start();
    assert(written@ + pending(state, action@, unread@, view).0 =~= whole.0);
    loop
        invariant
            view == report_view(*report),
            whole == transcript(stream@, view),
            in_step(state, action@),
            written@ + pending(state, action@, unread@, view).0 == whole.0,
            pending(state, action@, unread@, view).1 == whole.1,
        decreases unread@.len(), rank(state),
    {
        let ghost before = unread@;
        let ghost had = written@;
        match action {
            SessionAction::Read(count) => {
                let received = unread.remaining();
                let event = match unread.read_exact(count) {
                    Some(bytes) => SessionEvent::Received(bytes),
                    None => SessionEvent::StreamEnded { received },
                };
                proof {
                    match state {
                        SessionState::AwaitingPrefix => {
                            lemma_prefix_step(before, event@, unread@, view);
                        },
                        SessionState::AwaitingPayload { length } => {
                            lemma_payload_step(length, before, event@, unread@, view);
                        },
                        _ => {},
                    }
                }
                let next = step(state, event);
                state = next.0;
                action = next.1;
            },
            SessionAction::QueryDevice => {
                let next = step(state, SessionEvent::DeviceReported(copy_report(report)));
                state = next.0;
                action = next.1;
            },
            SessionAction::Send(mut bytes) => {
                let ghost sent = bytes@;
                written.append(&mut bytes);
                let next = step(state, SessionEvent::Sent);
                state = next.0;
                action = next.1;
                assert(written@ + pending(state, action@, unread@, view).0 =~= had + (sent
                    + transcript(unread@, view).0));
            },
            SessionAction::Close(end) => {
                assert(written@ =~= whole.0);
                return (written, end);
            },
        }
    }
}

} // verus!
