//! A small connection-oriented protocol over a reliable byte stream: a framed
//! packet format, a SYN / SYN-ACK / ACK handshake, an echo keepalive with a
//! bounded retry budget, and the server's registry of live connections.
//!
//! Everything here is pure logic; reading, writing and timing live with the
//! caller, which hands the results to [`session::Session`] as events.
pub mod address;
pub mod errors;
pub mod packet;
pub mod packet_handling;
pub mod registry;
pub mod session;
pub mod wire;

pub use errors::Error;
pub use packet::{Data, PacketType, TcpPacket};
pub use session::Status;
