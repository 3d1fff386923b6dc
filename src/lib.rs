//! A small diagnostic tool for byte-stream transports: it validates the
//! command-line fields that select a transport, decodes the payload given as
//! hexadecimal tokens, and decides, step by step, what a session does with the
//! transport that the caller opened for it.
pub mod args;
pub mod error;
pub mod hex;
pub mod session;
