//! A protocol engine for flashing microcontrollers whose bootloader speaks the
//! SAM-BA dialect of Arduino-compatible boards.
//!
//! The crate performs no input or output. It renders the commands that go out
//! on the serial line, decodes what comes back, and decides each next step of
//! a transfer; the caller owns the port and the files.

pub mod bytes;
pub mod command;
pub mod error;
pub mod feats;
pub mod flags;
pub mod flash;
pub mod hex;
pub mod line;
pub mod reader;
pub mod session;
pub mod source;
pub mod version;
pub mod writer;
