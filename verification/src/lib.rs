//! A local request/response bridge: the messages, their byte encoding, the
//! length-prefixed framing, the command dispatcher and the per-connection
//! session, each verified against a mathematical model of the wire.
//!
//! - `message`: the commands and responses.
//! - `codec`, `primitive`, `endian`: a message as the payload of a frame.
//! - `frame`: frames on a byte stream.
//! - `dispatch`, `device`: from a command to its response.
//! - `session`: one connection as a state machine without I/O.
//! - `transcript`: a whole session on a stream held in memory.
//! - `client`: the client's request and what it shows of the response.
//!
//! The library performs no I/O. The calls into `bincode` in `primitive` are
//! the only code of this crate whose contracts are taken on trust.

pub mod client;
pub mod codec;
pub mod device;
pub mod dispatch;
pub mod endian;
pub mod error;
pub mod frame;
pub mod message;
pub mod primitive;
pub mod session;
pub mod transcript;

pub use client::{render, request, Channel, Rendering};
pub use device::{decimal, describe};
pub use dispatch::{device_response, dispatch, Dispatch};
pub use error::WireError;
pub use frame::{frame, length_prefix, payload_length, read_frame, ByteStream};
pub use message::{BridgeCommand, BridgeResponse};
pub use session::{start, step, SessionAction, SessionEnd, SessionEvent, SessionState};
pub use transcript::serve;
