//! The payload of a frame: one command or one response as bytes.
//!
//! A payload starts with a 32-bit little-endian tag that names the variant;
//! the variant's texts follow in the order of their fields. Decoding is the
//! exact inverse of encoding: it accepts the bytes that encoding produces
//! and no others.

use crate::endian::{le_bytes_4, le_value_4, lemma_le_4_bytes_of_value, lemma_le_4_value_of_bytes};
use crate::error::WireError;
use crate::message::{BridgeCommand, BridgeResponse, ResponseView};
use crate::primitive::{
    deserialize_string,
    deserialize_u32,
    leading_text,
    lemma_text_read_back,
    lemma_text_written_back,
    serialize_str,
    serialize_u32,
    text_bytes,
    text_extent,
    text_fits,
};
use vstd::pervasive::unreached;
use vstd::prelude::*;
use vstd::slice::slice_subrange;
use vstd::utf8::encode_utf8;

verus! {

/// The tag that stands for a command on the wire.
pub open spec fn command_tag(command: BridgeCommand) -> int {
    match command {
        BridgeCommand::Ping => 0,
        BridgeCommand::GetGpuInfo => 1,
    }
}

/// The payload that carries `command`.
pub open spec fn command_bytes(command: BridgeCommand) -> Seq<u8> {
    le_bytes_4(command_tag(command))
}

/// The command that the payload `b` carries, if it carries one.
pub open spec fn parse_command(b: Seq<u8>) -> Option<BridgeCommand> {
    if b.len() != 4 {
        None
    } else if le_value_4(b) == 0 {
        Some(BridgeCommand::Ping)
    } else if le_value_4(b) == 1 {
        Some(BridgeCommand::GetGpuInfo)
    } else {
        None
    }
}

/// The payload that carries the response `v`.
pub open spec fn response_bytes(v: ResponseView) -> Seq<u8> {
    match v {
        ResponseView::Pong => le_bytes_4(0),
        ResponseView::GpuInfo { device_name, driver_version } => le_bytes_4(1) + text_bytes(
            device_name,
        ) + text_bytes(driver_version),
        ResponseView::Error { message } => le_bytes_4(2) + text_bytes(message),
        ResponseView::Ack => le_bytes_4(3),
    }
}

/// Whether every text of `v` is short enough to be written. Every response
/// held in memory is.
pub open spec fn response_fits(v: ResponseView) -> bool {
    match v {
        ResponseView::GpuInfo { device_name, driver_version } => text_fits(device_name)
            && text_fits(driver_version),
        ResponseView::Error { message } => text_fits(message),
        _ => true,
    }
}

/// The response that the payload `b` carries, if it carries one.
pub open spec fn parse_response(b: Seq<u8>) -> Option<ResponseView> {
    if b.len() < 4 {
        None
    } else {
        let tag = le_value_4(b);
        let body = b.skip(4);
        if tag == 0 && body.len() == 0 {
            Some(ResponseView::Pong)
        } else if tag == 1 && text_extent(body) is Some && text_extent(
            body.skip(text_extent(body)->0),
        ) == Some(body.len() - text_extent(body)->0) {
            Some(
                ResponseView::GpuInfo {
                    device_name: leading_text(body),
                    driver_version: leading_text(body.skip(text_extent(body)->0)),
                },
            )
        } else if tag == 2 && text_extent(body) == Some(body.len() as int) {
            Some(ResponseView::Error { message: leading_text(body) })
        } else if tag == 3 && body.len() == 0 {
            Some(ResponseView::Ack)
        } else {
            None
        }
    }
}

/// Decoding the encoding of a command gives the command back.
pub proof fn lemma_command_round_trip(command: BridgeCommand)
    ensures
        parse_command(command_bytes(command)) == Some(command),
{
    lemma_le_4_value_of_bytes(command_tag(command));
}

/// Only the encoding of a command decodes to that command.
pub proof fn lemma_command_parse_exact(b: Seq<u8>, command: BridgeCommand)
    requires
        parse_command(b) == Some(command),
    ensures
        command_bytes(command) == b,
{
    lemma_le_4_bytes_of_value(b);
}

/// Decoding the encoding of a response gives the response back.
pub proof fn lemma_response_round_trip(v: ResponseView)
    requires
        response_fits(v),
    ensures
        parse_response(response_bytes(v)) == Some(v),
{
    let b = response_bytes(v);
    match v {
        ResponseView::Pong => {
            lemma_le_4_value_of_bytes(0);
        },
        ResponseView::GpuInfo { device_name, driver_version } => {
            lemma_le_4_value_of_bytes(1);
            let first = text_bytes(device_name);
            let second = text_bytes(driver_version);
            assert(b.skip(4) =~= first + second);
            lemma_text_read_back(device_name, second);
            assert(second =~= second + Seq::<u8>::empty());
            lemma_text_read_back(driver_version, Seq::<u8>::empty());
        },
        ResponseView::Error { message } => {
            lemma_le_4_value_of_bytes(2);
            let text = text_bytes(message);
            assert(b.skip(4) =~= text);
            assert(text =~= text + Seq::<u8>::empty());
            lemma_text_read_back(message, Seq::<u8>::empty());
        },
        ResponseView::Ack => {
            lemma_le_4_value_of_bytes(3);
        },
    }
}

/// Only the encoding of a response decodes to that response.
pub proof fn lemma_response_parse_exact(b: Seq<u8>, v: ResponseView)
    requires
        parse_response(b) == Some(v),
    ensures
        response_fits(v),
        response_bytes(v) == b,
{
    let head = b.subrange(0, 4);
    let body = b.skip(4);
    lemma_le_4_bytes_of_value(head);
    assert(le_value_4(head) == le_value_4(b));
    assert(b =~= head + body);
    match v {
        ResponseView::Pong => {
            assert(b =~= head);
        },
        ResponseView::GpuInfo { device_name, driver_version } => {
            let n = text_extent(body)->0;
            let tail = body.skip(n);
            lemma_text_written_back(body);
            lemma_text_written_back(tail);
            assert(tail.subrange(0, tail.len() as int) =~= tail);
            assert(body =~= body.subrange(0, n) + tail);
        },
        ResponseView::Error { message } => {
            lemma_text_written_back(body);
            assert(body.subrange(0, body.len() as int) =~= body);
        },
        ResponseView::Ack => {
            assert(b =~= head);
        },
    }
}

fn tag_to_bytes(tag: u32) -> (bytes: Vec<u8>)
    ensures
        bytes@ == le_bytes_4(tag as int),
{
    match serialize_u32(tag) {
        Ok(bytes) => bytes,
        Err(_) => unreached(),
    }
}

fn text_to_bytes(text: &String) -> (bytes: Vec<u8>)
    ensures
        bytes@ == text_bytes(text@),
        text_fits(text@),
{
    // The UTF-8 form is held in memory, so its length fits in `usize`.
    let length = text.as_str().as_bytes().len();
    assert(encode_utf8(text@).len() == length);
    match serialize_str(text.as_str()) {
        Ok(bytes) => bytes,
        Err(_) => unreached(),
    }
}

impl BridgeCommand {
    /// Encodes the command as a payload.
    pub fn encode(&self) -> (bytes: Vec<u8>)
        ensures
            bytes@ == command_bytes(*self),
            parse_command(bytes@) == Some(*self),
    {
        proof {
            lemma_command_round_trip(*self);
        }
        match self {
            BridgeCommand::Ping => tag_to_bytes(0),
            BridgeCommand::GetGpuInfo => tag_to_bytes(1),
        }
    }

    /// Decodes a payload as a command. Succeeds exactly on the four bytes
    /// that `encode` produces for some command.
    pub fn decode(bytes: &[u8]) -> (r: Result<BridgeCommand, WireError>)
        ensures
            match r {
                Ok(command) => parse_command(bytes@) == Some(command),
                Err(e) => e == WireError::MalformedPayload && parse_command(bytes@) is None,
            },
    {
        if bytes.len() != 4 {
            return Err(WireError::MalformedPayload);
        }
        match deserialize_u32(bytes) {
            Ok(0) => Ok(BridgeCommand::Ping),
            Ok(1) => Ok(BridgeCommand::GetGpuInfo),
            _ => Err(WireError::MalformedPayload),
        }
    }
}

impl BridgeResponse {
    /// Encodes the response as a payload.
    pub fn encode(&self) -> (bytes: Vec<u8>)
        ensures
            bytes@ == response_bytes(self@),
            parse_response(bytes@) == Some(self@),
    {
        let bytes = match self {
            BridgeResponse::Pong => tag_to_bytes(0),
            BridgeResponse::GpuInfo { device_name, driver_version } => {
                let mut bytes = tag_to_bytes(1);
                let mut first = text_to_bytes(device_name);
                let mut second = text_to_bytes(driver_version);
                bytes.append(&mut first);
                bytes.append(&mut second);
                bytes
            },
            BridgeResponse::Error(message) => {
                let mut bytes = tag_to_bytes(2);
                let mut text = text_to_bytes(message);
                bytes.append(&mut text);
                bytes
            },
            BridgeResponse::Ack => tag_to_bytes(3),
        };
        proof {
            lemma_response_round_trip(self@);
        }
        bytes
    }

    /// Decodes a payload as a response. Succeeds exactly on the bytes that
    /// `encode` produces for some response.
    pub fn decode(bytes: &[u8]) -> (r: Result<BridgeResponse, WireError>)
        ensures
            match r {
                Ok(response) => parse_response(bytes@) == Some(response@),
                Err(e) => e == WireError::MalformedPayload && parse_response(bytes@) is None,
            },
    {
        let tag = match deserialize_u32(bytes) {
            Ok(tag) => tag,
            Err(_) => {
                return Err(WireError::MalformedPayload);
            },
        };
        let body = slice_subrange(bytes, 4, bytes.len());
        if tag == 0 && body.len() == 0 {
            Ok(BridgeResponse::Pong)
        } else if tag == 1 {
            let device_name = match deserialize_string(body) {
                Ok(text) => text,
                Err(_) => {
                    return Err(WireError::MalformedPayload);
                },
            };
            proof {
                lemma_text_written_back(body@);
            }
            let first: usize = 8 + device_name.as_str().len();
            let tail = slice_subrange(body, first, body.len());
            let driver_version = match deserialize_string(tail) {
                Ok(text) => text,
                Err(_) => {
                    return Err(WireError::MalformedPayload);
                },
            };
            proof {
                lemma_text_written_back(tail@);
            }
            let second: usize = 8 + driver_version.as_str().len();
            if second == tail.len() {
                Ok(BridgeResponse::GpuInfo { device_name, driver_version })
            } else {
                Err(WireError::MalformedPayload)
            }
        } else if tag == 2 {
            let message = match deserialize_string(body) {
                Ok(text) => text,
                Err(_) => {
                    return Err(WireError::MalformedPayload);
                },
            };
            proof {
                lemma_text_written_back(body@);
            }
            let extent: usize = 8 + message.as_str().len();
            if extent == body.len() {
                Ok(BridgeResponse::Error(message))
            } else {
                Err(WireError::MalformedPayload)
            }
        } else if tag == 3 && body.len() == 0 {
            Ok(BridgeResponse::Ack)
        } else {
            Err(WireError::MalformedPayload)
        }
    }
}

} // verus!
