//! From a command to its response.
//!
//! `Ping` is answered at once. `GetGpuInfo` needs the device query, which
//! the caller runs; its report then becomes the response.

use crate::device::{report_response, report_view};
use crate::message::{BridgeCommand, BridgeResponse, ResponseView};
use vstd::prelude::*;

verus! {

/// What the dispatcher decides for a command.
#[derive(Debug, PartialEq, Eq)]
pub enum Dispatch {
    /// The response is known without any outside work.
    Reply(BridgeResponse),
    /// The device has to be queried; its report gives the response.
    QueryDevice,
}

/// Decides how a command is answered: `Ping` with `Pong`, `GetGpuInfo` by
/// querying the device.
pub fn dispatch(command: BridgeCommand) -> (decision: Dispatch)
    ensures
        match command {
            BridgeCommand::Ping => decision matches Dispatch::Reply(response) && response@
                == ResponseView::Pong,
            BridgeCommand::GetGpuInfo => decision is QueryDevice,
        },
{
    match command {
        BridgeCommand::Ping => Dispatch::Reply(BridgeResponse::Pong),
        BridgeCommand::GetGpuInfo => Dispatch::QueryDevice,
    }
}

/// Turns the report of the device query into the response to `GetGpuInfo`:
/// `GpuInfo` with the reported name and version, or `Error` with the
/// reported failure text.
pub fn device_response(report: Result<(String, String), String>) -> (response: BridgeResponse)
    ensures
        response@ == report_response(report_view(report)),
{
    match report {
        Ok((device_name, driver_version)) => BridgeResponse::GpuInfo { device_name, driver_version },
        Err(reason) => BridgeResponse::Error(reason),
    }
}

} // verus!
