//! Verified core of an MQTT 3.1.1 client: the session state machine that
//! tracks pending QoS 1/2 packet identifiers, decides when a keep-alive ping
//! is due, validates the connect handshake, and preserves retransmission
//! state across reconnects. Transport I/O, TLS, and the thread-crossing
//! command/notification queues live outside this crate's verified surface.

pub mod error;
pub mod laws;
pub mod options;
pub mod packet;
pub mod state;

pub use error::ErrorKind;
pub use error::MqttError;
