//! The start of a session: which capabilities the device has, and which
//! flash.
//!
//! The caller sends the command that the handshake names, reads a text
//! reply, and hands it over; the handshake says what comes next. The chip is
//! asked for its name only if the device can tell it.

use vstd::prelude::*;
use vstd::string::StringSliceAdditionalSpecFns;
use crate::command::Command;
use crate::error::{Error, Violation};
use crate::feats::Feats;
use crate::flash::{identify, Flash, FAMILY_NRF52};
use crate::version::{lemma_negotiation_unique, negotiates, parse_version};

verus! {

/// Where the handshake stands.
#[derive(Clone, Copy, Debug, PartialEq, Eq, Structural)]
pub enum Handshake {
    /// The version is being asked for.
    Version,
    /// The capabilities are known, and the chip's name is being asked for.
    Identity(Feats),
    /// The session can begin.
    Ready(Feats, Flash),
    /// The session cannot begin.
    Failed(Error),
}

impl Handshake {
    /// The command whose reply the handshake waits for, while it waits.
    pub open spec fn command_spec(self) -> Option<Command> {
        match self {
            Handshake::Version => Some(Command::Version),
            Handshake::Identity(_) => Some(Command::Identify),
            _ => None,
        }
    }

    /// Whether `next` is where a handshake at `self` stands after the reply `line`.
    pub open spec fn leads_to(self, line: Seq<u8>, next: Handshake) -> bool {
        match self {
            Handshake::Version => match next {
                Handshake::Identity(feats) => negotiates(line, Ok(feats)) && feats.identify_chip,
                Handshake::Failed(Error::DeviceNotRecognized) => exists|feats: Feats|
                    negotiates(line, Ok(feats)) && !feats.identify_chip,
                Handshake::Failed(Error::ProtocolViolation(v)) => negotiates(line, Err(v)),
                _ => false,
            },
            Handshake::Identity(feats) => next == if line == FAMILY_NRF52.spec_bytes() {
                Handshake::Ready(feats, Flash::nrf52())
            } else {
                Handshake::Failed(Error::DeviceNotRecognized)
            },
            _ => next == self,
        }
    }

    /// Begins a handshake.
    pub fn start() -> (h: Handshake)
        ensures
            h == Handshake::Version,
    {
        Handshake::Version
    }

    /// Names the command to send next; nothing once the handshake is over.
    pub fn command(&self) -> (c: Option<Command>)
        ensures
            c == self.command_spec(),
    {
        match self {
            Handshake::Version => Some(Command::Version),
            Handshake::Identity(_) => Some(Command::Identify),
            _ => None,
        }
    }

    /// Takes the text reply to the command that was sent. A handshake that
    /// is over stays as it is.
    pub fn reply(self, line: &[u8]) -> (next: Handshake)
        ensures
            self.leads_to(line@, next),
    {
        match self {
            Handshake::Version => match parse_version(line) {
                Ok(feats) => {
                    if feats.identify_chip {
                        Handshake::Identity(feats)
                    } else {
                        Handshake::Failed(Error::DeviceNotRecognized)
                    }
                },
                Err(v) => Handshake::Failed(Error::ProtocolViolation(v)),
            },
            Handshake::Identity(feats) => match identify(line) {
                Some(flash) => Handshake::Ready(feats, flash),
                None => Handshake::Failed(Error::DeviceNotRecognized),
            },
            other => other,
        }
    }

    /// Gives the outcome of a handshake that is over, and nothing while it
    /// is not.
    pub fn outcome(&self) -> (r: Option<Result<(Feats, Flash), Error>>)
        ensures
            r == match *self {
                Handshake::Ready(feats, flash) => Some(Ok::<(Feats, Flash), Error>((feats, flash))),
                Handshake::Failed(e) => Some(Err::<(Feats, Flash), Error>(e)),
                _ => None,
            },
    {
        match *self {
            Handshake::Ready(feats, flash) => Some(Ok((feats, flash))),
            Handshake::Failed(e) => Some(Err(e)),
            _ => None,
        }
    }
}

/// A reply moves a handshake to one next state.
pub proof fn lemma_handshake_is_determined(
    state: Handshake,
    line: Seq<u8>,
    a: Handshake,
    b: Handshake,
)
    requires
        state.leads_to(line, a),
        state.leads_to(line, b),
    ensures
        a == b,
{
    if state == Handshake::Version {
        lemma_negotiation_unique(line, outcome_behind(line, a), outcome_behind(line, b));
    }
}

/// What the negotiation gave on the way from the first state to `next`.
spec fn outcome_behind(line: Seq<u8>, next: Handshake) -> Result<Feats, Violation> {
    match next {
        Handshake::Identity(feats) => Ok(feats),
        Handshake::Failed(Error::ProtocolViolation(v)) => Err(v),
        _ => Ok(choose|feats: Feats| negotiates(line, Ok(feats)) && !feats.identify_chip),
    }
}

} // verus!
