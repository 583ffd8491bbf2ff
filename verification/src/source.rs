//! Filling a buffer from a byte source that hands over a few bytes at a time.
//!
//! The caller reads into the part of the buffer that is still empty and
//! reports what the read came to; the functions here say whether to read
//! again, and where.

use vstd::prelude::*;
use crate::error::Error;

verus! {

/// What one read of the source came to.
#[derive(Clone, Copy, Debug, PartialEq, Eq, Structural)]
pub enum ReadEvent {
    /// This many bytes were put into the buffer; none at the end of the source.
    Read(usize),
    /// The source reported that it ended early.
    UnexpectedEof,
    /// The read was interrupted before it got anything.
    Interrupted,
    /// The source reported any other fault.
    Failed,
}

/// What to do next.
#[derive(Clone, Copy, Debug, PartialEq, Eq, Structural)]
pub enum Fill {
    /// Read again, into the buffer from this offset on.
    Again(usize),
    /// Stop: the buffer holds this many bytes, and is full or the source
    /// has ended.
    Done(usize),
}

/// The step after a read into the buffer from `off` on, which came to
/// `event`, or the fault that ends the filling.
pub open spec fn fill_step(off: usize, len: usize, event: ReadEvent) -> Result<Fill, Error> {
    match event {
        ReadEvent::Read(n) => if n == 0 {
            Ok(Fill::Done(off))
        } else if n > len - off {
            Err(Error::TransportFault)
        } else if off + n == len {
            Ok(Fill::Done(len))
        } else {
            Ok(Fill::Again((off + n) as usize))
        },
        ReadEvent::UnexpectedEof => Ok(Fill::Done(off)),
        ReadEvent::Interrupted => Ok(Fill::Again(off)),
        ReadEvent::Failed => Err(Error::TransportFault),
    }
}

/// Says how to begin filling a buffer of `len` bytes: with a read at the
/// start, unless the buffer has no room at all.
pub fn begin(len: usize) -> (step: Fill)
    ensures
        step == if len == 0 {
            Fill::Done(0)
        } else {
            Fill::Again(0)
        },
{
    if len == 0 {
        Fill::Done(0)
    } else {
        Fill::Again(0)
    }
}

/// Says how to go on after a read into a buffer of `len` bytes from `off`
/// on. Bytes that came are kept and the rest is read for; the end of the
/// source, reported either way, ends the filling with what is there; an
/// interrupted read is made again; a count beyond the room that was offered,
/// like any other fault, ends it in failure.
pub fn read_buf(off: usize, len: usize, event: ReadEvent) -> (step: Result<Fill, Error>)
    requires
        off <= len,
    ensures
        step == fill_step(off, len, event),
{
    match event {
        ReadEvent::Read(n) => {
            if n == 0 {
                Ok(Fill::Done(off))
            } else if n > len - off {
                Err(Error::TransportFault)
            } else if n == len - off {
                Ok(Fill::Done(len))
            } else {
                Ok(Fill::Again(off + n))
            }
        },
        ReadEvent::UnexpectedEof => Ok(Fill::Done(off)),
        ReadEvent::Interrupted => Ok(Fill::Again(off)),
        ReadEvent::Failed => Err(Error::TransportFault),
    }
}

/// A filling stays within the buffer: a next read begins within it, and
/// short of its end if the last one did; a filling never ends with more
/// than the buffer holds, and it ends short of the buffer only at the end of
/// the source.
pub proof fn lemma_fill_stays_within_buffer(off: usize, len: usize, event: ReadEvent)
    requires
        off <= len,
    ensures
        fill_step(off, len, event) matches Ok(Fill::Again(next)) ==> off <= next <= len && (off
            < len ==> next < len),
        fill_step(off, len, event) matches Ok(Fill::Done(n)) ==> off <= n <= len && (n < len
            ==> event == ReadEvent::Read(0) || event == ReadEvent::UnexpectedEof),
{
}

} // verus!
