//! Host side of a serial keyboard: the wire protocol spoken with the device,
//! the handshake that opens a session, and the mapping from device events to
//! key presses.
//!
//! The library computes and decides; it does not touch the serial port or the
//! keyboard of the machine. `connection` says which operation on the channel
//! comes next, `event` says which keys an event presses, and the program
//! around the library performs both.
//!
//! - `command`: the frames that configure the device.
//! - `event`: the bytes that the device sends, and the keys they stand for.
//! - `scanner`: the search for the magic number in a noisy stream.
//! - `connection`: the session, from the first frame to the stream of events.
//! - `handshake`: what holds of every session.
//! - `config`: what the user configures, and the choice of the port.
//! - `error`: errors with the chain of their causes.

pub mod command;
pub mod config;
pub mod connection;
pub mod error;
pub mod event;
pub mod handshake;
pub mod scanner;
