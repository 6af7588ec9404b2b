//! DCCNET: a small reliable-framing protocol layered on a TCP byte stream.
//!
//! The crate holds the protocol core: the frame wire format with its
//! one's-complement checksum discipline, the stop-and-wait reliable
//! delivery state machine with single-bit identifiers, the single-slot
//! receive mailboxes that multiplex data and acknowledgement traffic,
//! and the decision logic of the file-transfer and digest applications.
//! The surrounding I/O (sockets, files, timers) lives outside the crate
//! and drives these functions.

pub mod communication;
pub mod md5;
pub mod network;
pub mod sync_read;
pub mod xfer;
