//! A codec for the tab-delimited SockChat wire protocol: lines are decoded
//! into typed packets and packets are encoded into lines.
//!
//! The contracts are stated over models: a line is a sequence of characters,
//! and every packet type has a view that holds its texts as such sequences.

pub mod number;
pub mod packets;
pub mod text;
