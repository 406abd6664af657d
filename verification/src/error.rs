//! The error taxonomy of the client core. Transport and TLS details arrive
//! as plain strings from the unverified edge; the session logic itself only
//! ever produces the protocol-level variants.

use vstd::prelude::*;

use crate::packet::ConnectReturnCode;

verus! {

/// The variant of an error, stripped of its free-form detail text.
/// Contracts speak of this kind; the detail strings are for humans.
#[derive(Clone, Copy, Debug, PartialEq, Eq, Structural)]
pub enum ErrorKind {
    DnsListEmpty,
    Io,
    Tls,
    ConnectionRefused(ConnectReturnCode),
    Protocol,
    PingTimeout,
    PacketSizeLimit,
}

/// Everything that can go wrong while connecting or during a session turn.
#[derive(Clone, Debug)]
pub enum MqttError {
    /// Address resolution yielded no endpoint.
    DnsListEmpty,
    /// Transport-level failure during connect or operation.
    Io(String),
    /// TLS handshake or certificate load failure.
    Tls(String),
    /// The broker answered `CONNECT` with a refusal code.
    ConnectionRefused(ConnectReturnCode),
    /// Unexpected packet, duplicate `CONNACK`, or malformed sequence.
    ProtocolError(String),
    /// The keep-alive interval elapsed with a `PINGREQ` outstanding.
    PingTimeout,
    /// An outbound packet exceeds the configured maximum size.
    MqttPacketSizeLimitExceeded,
}

impl MqttError {
    /// The variant of this error, with detail text forgotten.
    pub open spec fn kind(&self) -> ErrorKind {
        match self {
            MqttError::DnsListEmpty => ErrorKind::DnsListEmpty,
            MqttError::Io(_) => ErrorKind::Io,
            MqttError::Tls(_) => ErrorKind::Tls,
            MqttError::ConnectionRefused(code) => ErrorKind::ConnectionRefused(*code),
            MqttError::ProtocolError(_) => ErrorKind::Protocol,
            MqttError::PingTimeout => ErrorKind::PingTimeout,
            MqttError::MqttPacketSizeLimitExceeded => ErrorKind::PacketSizeLimit,
        }
    }
}

} // verus!
