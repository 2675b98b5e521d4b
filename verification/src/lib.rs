//! Host-side transport core for the FLEM framing protocol over a serial link:
//! connection lifecycle, cooperative shutdown, and the byte-reassembly engine
//! that turns a raw byte stream into a queue of completed packets.

pub mod codec;
pub mod listener;
pub mod session;

pub use listener::listener_step;
pub use listener::ListenerAction;
pub use listener::ReadEvent;

pub use codec::feed_bytes;
pub use codec::new_packet;
pub use codec::FeedStatus;
pub use codec::PACKET_SIZE;

pub use session::select_port;
pub use session::FlemSerial;
pub use session::HostSerialPortErrors;
