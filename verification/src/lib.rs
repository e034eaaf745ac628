//! Core of a live audio streaming bridge: a fixed-capacity byte queue that
//! decouples an audio capture callback from a network sender, a little-endian
//! sample encoder, transport state machines for the UDP and TCP senders, and
//! the session accounting that the drive loop depends on.

pub mod encode;
pub mod ring;
pub mod session;
pub mod streamer;
