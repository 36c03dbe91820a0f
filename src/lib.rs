//! Serving core of a digit classifier: frame codec, per-connection state
//! machine and accept-loop failure policy.
//!
//! Pixel and probability values travel as IEEE-754 single-precision bit
//! patterns (`u32`); turning them into numbers, normalizing, scoring and the
//! softmax happen in the program around this library.
pub mod acceptor;
pub mod codec;
pub mod connection;
