//! The commands of the wire protocol and the replies they call for.
//!
//! Every command is a line of ASCII that ends in `#`. Addresses and sizes are
//! written as eight uppercase hexadecimal digits.

use vstd::prelude::*;
use crate::hex::{hex8, render_hex8};

verus! {

/// `#`, which ends every command.
pub const END: u8 = 35;

/// `,`, which parts the two numbers of a command.
pub const COMMA: u8 = 44;

/// Line feed.
pub const LF: u8 = 10;

/// Carriage return.
pub const CR: u8 = 13;

/// The letter of the version query.
pub const LETTER_VERSION: u8 = 86;

/// The letter of the identity query.
pub const LETTER_IDENTIFY: u8 = 73;

/// The letter that enters binary mode.
pub const LETTER_BINARY: u8 = 78;

/// The letter of a word read, used for single bytes.
pub const LETTER_PROBE: u8 = 111;

/// The digit that every probe carries as its size.
pub const PROBE_SIZE: u8 = 52;

/// The letter of a bulk read.
pub const LETTER_READ: u8 = 82;

/// The letter of an upload into the write buffer.
pub const LETTER_UPLOAD: u8 = 83;

/// The letter of a buffer selection or page program, and of its acknowledgement.
pub const LETTER_PROGRAM: u8 = 89;

/// The letter of a reset.
pub const LETTER_RESET: u8 = 75;

/// A request to the bootloader.
#[derive(Clone, Copy, Debug, PartialEq, Eq, Structural)]
pub enum Command {
    /// `V#`: ask for the version string, which carries the capability tag.
    Version,
    /// `I#`: ask for the name of the chip family.
    Identify,
    /// `N#`: switch the device to binary mode before writing.
    EnterWriteMode,
    /// `o<addr>,4#`: read the single byte at `addr`.
    Probe { addr: u32 },
    /// `R<addr>,<size>#`: read `size` bytes starting at `addr`.
    BulkRead { addr: u32, size: u32 },
    /// `S<offset>,<size>#`: announce `size` raw bytes for the device's write
    /// buffer at `offset`; the bytes follow the command directly.
    Upload { offset: u32, size: u32 },
    /// `Y<addr>,<size>#`: with size zero, select the write buffer at `addr`;
    /// otherwise program `size` buffered bytes into flash at `addr`.
    Program { addr: u32, size: u32 },
    /// `K#`: leave the bootloader and run the firmware.
    Reset,
}

/// What the device sends back for a command.
#[derive(Clone, Copy, Debug, PartialEq, Eq, Structural)]
pub enum Reply {
    /// Nothing comes back.
    Silent,
    /// Text that ends in a NUL byte.
    Line,
    /// The two bytes line feed, carriage return.
    Newline,
    /// The three bytes `Y`, line feed, carriage return.
    Committed,
    /// This many bytes of data, unframed.
    Raw(u32),
}

/// A command with two numbers: the letter, the first number, a comma, the
/// second number, `#`.
pub open spec fn two_numbers(letter: u8, first: u32, second: u32) -> Seq<u8> {
    seq![letter] + hex8(first) + seq![COMMA] + hex8(second) + seq![END]
}

impl Command {
    /// The bytes that go out on the line for this command.
    pub open spec fn wire(self) -> Seq<u8> {
        match self {
            Command::Version => seq![LETTER_VERSION, END],
            Command::Identify => seq![LETTER_IDENTIFY, END],
            Command::EnterWriteMode => seq![LETTER_BINARY, END],
            Command::Probe { addr } => seq![LETTER_PROBE] + hex8(addr) + seq![COMMA, PROBE_SIZE, END],
            Command::BulkRead { addr, size } => two_numbers(LETTER_READ, addr, size),
            Command::Upload { offset, size } => two_numbers(LETTER_UPLOAD, offset, size),
            Command::Program { addr, size } => two_numbers(LETTER_PROGRAM, addr, size),
            Command::Reset => seq![LETTER_RESET, END],
        }
    }

    /// The reply that the protocol defines for this command.
    pub open spec fn reply_spec(self) -> Reply {
        match self {
            Command::Version => Reply::Line,
            Command::Identify => Reply::Line,
            Command::EnterWriteMode => Reply::Newline,
            Command::Probe { addr } => Reply::Raw(1),
            Command::BulkRead { addr, size } => Reply::Raw(size),
            Command::Upload { offset, size } => Reply::Silent,
            Command::Program { addr, size } => Reply::Committed,
            Command::Reset => Reply::Silent,
        }
    }

    /// Renders the command as it is sent.
    pub fn encode(&self) -> (out: Vec<u8>)
        ensures
            out@ == self.wire(),
    {
        match *self {
            Command::Version => short(LETTER_VERSION),
            Command::Identify => short(LETTER_IDENTIFY),
            Command::EnterWriteMode => short(LETTER_BINARY),
            Command::Probe { addr } => {
                let mut out: Vec<u8> = Vec::new();
                out.push(LETTER_PROBE);
                let mut digits = render_hex8(addr);
                out.append(&mut digits);
                out.push(COMMA);
                out.push(PROBE_SIZE);
                out.push(END);
                assert(out@ =~= self.wire());
                out
            },
            Command::BulkRead { addr, size } => long(LETTER_READ, addr, size),
            Command::Upload { offset, size } => long(LETTER_UPLOAD, offset, size),
            Command::Program { addr, size } => long(LETTER_PROGRAM, addr, size),
            Command::Reset => short(LETTER_RESET),
        }
    }

    /// Tells which reply to wait for after sending the command.
    pub fn reply(&self) -> (r: Reply)
        ensures
            r == self.reply_spec(),
    {
        match *self {
            Command::Version => Reply::Line,
            Command::Identify => Reply::Line,
            Command::EnterWriteMode => Reply::Newline,
            Command::Probe { .. } => Reply::Raw(1),
            Command::BulkRead { size, .. } => Reply::Raw(size),
            Command::Upload { .. } => Reply::Silent,
            Command::Program { .. } => Reply::Committed,
            Command::Reset => Reply::Silent,
        }
    }
}

impl Reply {
    /// The exact bytes of a fixed acknowledgement; empty for the other replies.
    pub open spec fn ack_spec(self) -> Seq<u8> {
        match self {
            Reply::Newline => seq![LF, CR],
            Reply::Committed => seq![LETTER_PROGRAM, LF, CR],
            _ => Seq::empty(),
        }
    }

    /// The literal that must come back, for the replies that are one.
    pub fn ack(&self) -> (out: Vec<u8>)
        ensures
            out@ == self.ack_spec(),
    {
        let mut out: Vec<u8> = Vec::new();
        match *self {
            Reply::Newline => {
                out.push(LF);
                out.push(CR);
            },
            Reply::Committed => {
                out.push(LETTER_PROGRAM);
                out.push(LF);
                out.push(CR);
            },
            _ => {},
        }
        assert(out@ =~= self.ack_spec());
        out
    }
}

/// A command of one letter.
fn short(letter: u8) -> (out: Vec<u8>)
    ensures
        out@ == seq![letter, END],
{
    let mut out: Vec<u8> = Vec::new();
    out.push(letter);
    out.push(END);
    assert(out@ =~= seq![letter, END]);
    out
}

/// A command of one letter and two numbers.
fn long(letter: u8, first: u32, second: u32) -> (out: Vec<u8>)
    ensures
        out@ == two_numbers(letter, first, second),
{
    let mut out: Vec<u8> = Vec::new();
    out.push(letter);
    let mut digits = render_hex8(first);
    out.append(&mut digits);
    out.push(COMMA);
    let mut digits = render_hex8(second);
    out.append(&mut digits);
    out.push(END);
    assert(out@ =~= two_numbers(letter, first, second));
    out
}

} // verus!
