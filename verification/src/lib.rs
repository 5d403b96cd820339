//! Link-layer engine for pulling images from a Casio WQV wrist camera over a
//! serial/infrared link: frame encoding and decoding with escaping and a
//! 16-bit checksum, synchronization of a noisy byte stream into delimited
//! frames, the fixed five-step handshake that learns the peer address, the
//! rotating-table bulk transfer that assembles the image payload, and the
//! parser for the transferred image blob.

pub mod codec;
pub mod errors;
pub mod image;
pub mod link;
pub mod session;
pub mod transfer;
