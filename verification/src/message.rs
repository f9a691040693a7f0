//! The commands a client may send and the responses a server may return.

use vstd::prelude::*;

verus! {

/// A request from the client to the server.
#[derive(Clone, Copy, Debug, PartialEq, Eq, Structural)]
pub enum BridgeCommand {
    /// Asks whether the server is alive.
    Ping,
    /// Asks for the GPU that the server can see.
    GetGpuInfo,
}

/// The server's answer to one command.
#[derive(Debug, PartialEq, Eq)]
pub enum BridgeResponse {
    /// Answer to `Ping`.
    Pong,
    /// Answer to `GetGpuInfo` when the device query succeeded.
    GpuInfo {
        /// The name of the GPU device.
        device_name: String,
        /// The version of the GPU driver.
        driver_version: String,
    },
    /// A failure on the server's side, with its description.
    Error(String),
    /// Acknowledgement without data; no command produces it yet.
    Ack,
}

/// What a response says, with each text as its sequence of characters.
pub enum ResponseView {
    Pong,
    GpuInfo { device_name: Seq<char>, driver_version: Seq<char> },
    Error { message: Seq<char> },
    Ack,
}

impl View for BridgeResponse {
    type V = ResponseView;

    open spec fn view(&self) -> ResponseView {
        match self {
            BridgeResponse::Pong => ResponseView::Pong,
            BridgeResponse::GpuInfo { device_name, driver_version } => ResponseView::GpuInfo {
                device_name: device_name@,
                driver_version: driver_version@,
            },
            BridgeResponse::Error(message) => ResponseView::Error { message: message@ },
            BridgeResponse::Ack => ResponseView::Ack,
        }
    }
}

impl Clone for BridgeResponse {
    fn clone(&self) -> (copy: BridgeResponse)
        ensures
            copy@ == self@,
    {
        match self {
            BridgeResponse::Pong => BridgeResponse::Pong,
            BridgeResponse::GpuInfo { device_name, driver_version } => BridgeResponse::GpuInfo {
                device_name: device_name.clone(),
                driver_version: driver_version.clone(),
            },
            BridgeResponse::Error(message) => BridgeResponse::Error(message.clone()),
            BridgeResponse::Ack => BridgeResponse::Ack,
        }
    }
}

} // verus!
