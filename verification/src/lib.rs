//! Receiver-driven transfer of large files over lossy datagram networks.
//!
//! A sender holds a file, cut into chunks by a [`plan`]. A receiver asks for chunks
//! with signed tickets; the sender answers each ticket with a paced stream of
//! fountain-code symbols of the chunks that it names, until the receiver reports
//! them decoded.
//!
//! - [`plan`] cuts a file into page-aligned chunks.
//! - [`protocol`] is the wire format with its two ways of verification, the key
//!   ring and the interface to the fountain code.
//! - [`engine`] holds the actors of a transfer as state machines: the encoder and
//!   the decoder of a chunk, the two sides of the socket and the bus between them.
//! - [`util`] holds the pacing timer and small tools.
//! - [`file`] tells where chunks lie in files.
//!
//! The library does no input or output and reads no clock but for the time stamp
//! of a ticket: datagrams, messages and times are handed to it.
pub mod constants;
pub mod engine;
pub mod file;
pub mod plan;
pub mod protocol;
pub mod util;
