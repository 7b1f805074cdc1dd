//! Verified core of bark, a low latency multi-receiver synchronised audio
//! streamer for local networks: stream timing arithmetic, the wire format of
//! its packets, the packetising encoder, the receive queue with its clock
//! synchronisation, and the statistics the nodes report.

pub mod clock;
pub mod time;
pub mod protocol;
pub mod packet;
pub mod encode;
pub mod source;
pub mod text;
pub mod value;
pub mod metrics;
pub mod node;
pub mod config;
pub mod board;
pub mod ring;
pub mod device;
pub mod report;
pub mod aggregate;
pub mod status;
pub mod receive;
pub mod playback;
pub mod takeover;
