//! A reverse proxy's core for a length-prefixed, packet-framed wire protocol:
//! the wire codec and the per-connection tunnel engine, both free of I/O.

pub mod codec;
pub mod config;
pub mod error;
pub mod packets;
pub mod progress;
pub mod roundtrip;
pub mod server;
pub mod session;
pub mod state;
pub mod tunnel;
pub mod utils;
pub mod uuid;

pub use codec::{PacketReadExt, PacketWriteExt};
pub use state::{DirectionEnum, GameStateEnum, State};
