//! The client's side of an exchange: the bytes of a request, and what to
//! show for the response that comes back.

use crate::codec::command_bytes;
use crate::frame::{frame, framed};
use crate::message::{BridgeCommand, BridgeResponse, ResponseView};
use vstd::pervasive::unreached;
use vstd::prelude::*;
use vstd::string::StringExecFns;

verus! {

/// Where a rendered response is to be printed.
#[derive(Clone, Copy, Debug, PartialEq, Eq, Structural)]
pub enum Channel {
    /// The normal output.
    Output,
    /// The error stream.
    Error,
}

/// A response as the user sees it.
#[derive(Debug, PartialEq, Eq)]
pub struct Rendering {
    /// The stream that the lines go to.
    pub channel: Channel,
    /// The lines, in the order in which they are printed.
    pub lines: Vec<String>,
}

/// The stream on which a response is shown: the error stream for `Error`,
/// the normal output for every other response.
pub open spec fn rendered_channel(v: ResponseView) -> Channel {
    match v {
        ResponseView::Error { .. } => Channel::Error,
        _ => Channel::Output,
    }
}

/// The lines that show a response.
pub open spec fn rendered_lines(v: ResponseView) -> Seq<Seq<char>> {
    match v {
        ResponseView::Pong => seq!["Pong! Server is alive."@],
        ResponseView::GpuInfo { device_name, driver_version } => seq![
            "GPU Detected via Bridge!"@,
            "   Device: "@ + device_name,
            "   Driver: "@ + driver_version,
        ],
        ResponseView::Error { message } => seq!["Server Error: "@ + message],
        ResponseView::Ack => seq!["Received: Ack"@],
    }
}

/// The bytes that a client writes to send `command`: the frame of its
/// payload.
pub fn request(command: BridgeCommand) -> (bytes: Vec<u8>)
    ensures
        bytes@ == framed(command_bytes(command)),
{
    let payload = command.encode();
    match frame(payload.as_slice()) {
        Ok(bytes) => bytes,
        Err(_) => unreached(),
    }
}

/// Renders a response for the user: a liveness line for `Pong`, the device
/// and driver for `GpuInfo`, and the server's failure text, on the error
/// stream, for `Error`.
pub fn render(response: &BridgeResponse) -> (r: Rendering)
    ensures
        r.channel == rendered_channel(response@),
        r.lines.deep_view() == rendered_lines(response@),
{
    let mut lines: Vec<String> = Vec::new();
    let channel = match response {
        BridgeResponse::Pong => {
            lines.push(String::from_str("Pong! Server is alive."));
            Channel::Output
        },
        BridgeResponse::GpuInfo { device_name, driver_version } => {
            lines.push(String::from_str("GPU Detected via Bridge!"));
            lines.push(String::from_str("   Device: ").concat(device_name.as_str()));
            lines.push(String::from_str("   Driver: ").concat(driver_version.as_str()));
            Channel::Output
        },
        BridgeResponse::Error(message) => {
            lines.push(String::from_str("Server Error: ").concat(message.as_str()));
            Channel::Error
        },
        BridgeResponse::Ack => {
            lines.push(String::from_str("Received: Ack"));
            Channel::Output
        },
    };
    assert(lines.deep_view() =~= rendered_lines(response@));
    Rendering { channel, lines }
}

} // verus!
