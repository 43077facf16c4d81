//! Capture, transport and decoding of call-tracing telemetry.

pub mod dispatch;
pub mod extract;
pub mod fd;
pub mod layout;
pub mod sockets;
pub mod text;
pub mod transport;
pub mod wire;
