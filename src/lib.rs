//! Wire format, handshake rules and streaming state for a JackTrip-compatible
//! mono 16-bit audio bridge over datagrams.

pub mod block_queue;
pub mod bridge;
pub mod handshake;
pub mod jack_trip_header;
pub mod sampling_rate_t;
