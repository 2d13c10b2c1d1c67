//! Error taxonomy of the transport layer.
//!
//! Only the call path returns typed errors; handshake and loop failures are
//! local to their tasks and never surface here.  Variants carrying types of
//! other subsystems that this crate does not model are out of its scope.

use vstd::prelude::*;

use crate::rpc_model::HashValue;

verus! {

/// Result alias used across the system.
pub type WSResult<T> = Result<T, WSError>;

/// A node was addressed in a role it does not have.
#[derive(Debug)]
pub enum NotMatchNodeErr {
    /// The node is not the raft leader the caller assumed.
    NotRaft(String),
}

/// Declares `std::io::Error` so a value of it can be carried inside the
/// error taxonomy; nothing is assumed about what such a value holds.
#[verifier::external_type_specification]
#[verifier::external_body]
pub struct ExIoError(std::io::Error);

/// A low-level I/O failure.
#[derive(Debug)]
pub enum WsIoErr {
    /// Carries the underlying I/O error.
    Io(std::io::Error),
}

/// A malformed configuration string.
#[derive(Debug)]
pub enum WsFormatErr {
    /// Braces in a key pattern must pair up, and only underscores may
    /// appear as symbols.
    KeyPatternFormatErr { key_pattern: String },
}

/// An access outside the caller's granted keys.
#[derive(Debug)]
pub enum WsPermissionErr {
    /// The function of an app touched a key it was not granted.
    AccessKeyPermissionDenied { app: String, func: String, access_key: Vec<u8> },
}

/// A typed failure of the call path.
#[derive(Debug)]
pub enum WsRpcErr {
    /// No registry entry exists for the target identity.
    ConnectionNotEstablished(HashValue),
    /// No response arrived within the caller's deadline.
    RPCTimout(HashValue),
    /// The reply's payload did not decode as the expected response type;
    /// carries the protocol-wide id of the request message.
    InvalidMsgData { msg_id: u16 },
}

/// The system-wide error type.
#[derive(Debug)]
pub enum WSError {
    /// Low-level I/O failure.
    WsIoErr(WsIoErr),
    /// Permission failure.
    WsPermissionErr(WsPermissionErr),
    /// Format failure.
    WsFormatErr(WsFormatErr),
    /// Call-path failure.
    WsRpcErr(WsRpcErr),
    /// Reached an unimplemented path.
    NotImplemented,
}

impl From<WsIoErr> for WSError {
    fn from(e: WsIoErr) -> (r: WSError) {
        WSError::WsIoErr(e)
    }
}

impl vstd::std_specs::convert::FromSpecImpl<WsIoErr> for WSError {
    open spec fn obeys_from_spec() -> bool {
        true
    }

    open spec fn from_spec(e: WsIoErr) -> WSError {
        WSError::WsIoErr(e)
    }
}

impl From<WsPermissionErr> for WSError {
    fn from(e: WsPermissionErr) -> (r: WSError) {
        WSError::WsPermissionErr(e)
    }
}

impl vstd::std_specs::convert::FromSpecImpl<WsPermissionErr> for WSError {
    open spec fn obeys_from_spec() -> bool {
        true
    }

    open spec fn from_spec(e: WsPermissionErr) -> WSError {
        WSError::WsPermissionErr(e)
    }
}

impl From<WsFormatErr> for WSError {
    fn from(e: WsFormatErr) -> (r: WSError) {
        WSError::WsFormatErr(e)
    }
}

impl vstd::std_specs::convert::FromSpecImpl<WsFormatErr> for WSError {
    open spec fn obeys_from_spec() -> bool {
        true
    }

    open spec fn from_spec(e: WsFormatErr) -> WSError {
        WSError::WsFormatErr(e)
    }
}

impl From<WsRpcErr> for WSError {
    fn from(e: WsRpcErr) -> (r: WSError) {
        WSError::WsRpcErr(e)
    }
}

impl vstd::std_specs::convert::FromSpecImpl<WsRpcErr> for WSError {
    open spec fn obeys_from_spec() -> bool {
        true
    }

    open spec fn from_spec(e: WsRpcErr) -> WSError {
        WSError::WsRpcErr(e)
    }
}

/// Carrier for converting a foreign error value into [`WSError`].
pub struct ErrCvt<T>(pub T);

impl ErrCvt<std::io::Error> {
    /// Wraps an I/O error into the system-wide error type.
    pub fn to_ws_io_err(self) -> (r: WSError)
        ensures
            r == WSError::WsIoErr(WsIoErr::Io(self.0)),
    {
        WSError::WsIoErr(WsIoErr::Io(self.0))
    }
}

} // verus!
