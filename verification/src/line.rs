//! The line transport: what to do with each count and each piece of data
//! that the serial line hands over.
//!
//! The serial line accepts and delivers bytes a few at a time. A sender keeps
//! offering the rest of a command until all of it is gone, a reader keeps
//! collecting until it has what it waits for. The caller performs each write
//! and read and reports what came of it.

use vstd::prelude::*;
use vstd::slice::slice_subrange;
use crate::bytes::equal;
use crate::command::{CR, LF};
use crate::error::Violation;

verus! {

/// The byte that ends a text reply.
pub const NUL: u8 = 0;

/// The number of bytes that the buffer for a text reply holds.
pub const LINE_CAPACITY: usize = 256;

/// The smaller of two numbers.
pub open spec fn least(a: int, b: int) -> int {
    if a <= b {
        a
    } else {
        b
    }
}

/// `s` without its last byte, if that byte is `b`.
pub open spec fn without_trailing(s: Seq<u8>, b: u8) -> Seq<u8> {
    if s.len() > 0 && s.last() == b {
        s.drop_last()
    } else {
        s
    }
}

/// The payload of a reply: the text without one trailing NUL, then without
/// one trailing carriage return, then without one trailing line feed.
pub open spec fn stripped(s: Seq<u8>) -> Seq<u8> {
    without_trailing(without_trailing(without_trailing(s, NUL), CR), LF)
}

/// Whether `s` ends in a NUL, a carriage return or a line feed.
pub open spec fn ends_in_terminator(s: Seq<u8>) -> bool {
    s.len() > 0 && (s.last() == NUL || s.last() == CR || s.last() == LF)
}

/// Whether the first NUL of `s` stands at `at`.
pub open spec fn nul_at(s: Seq<u8>, at: int) -> bool {
    &&& 0 <= at < s.len()
    &&& s[at] == NUL
    &&& forall|j: int| 0 <= j < at ==> s[j] != NUL
}

/// The part of a reply that the buffer has room for.
pub open spec fn held(s: Seq<u8>) -> Seq<u8> {
    s.take(least(s.len() as int, LINE_CAPACITY as int))
}

/// Whether the bytes `s` leave a text reply open: no terminator has come,
/// and the buffer has room.
pub open spec fn line_open(s: Seq<u8>) -> bool {
    !s.contains(NUL) && s.len() < LINE_CAPACITY
}

/// Whether the bytes `s` close a text reply with `payload`: the buffer holds
/// a terminator, and the payload is what came before the first one, stripped.
pub open spec fn line_closed(s: Seq<u8>, payload: Seq<u8>) -> bool {
    exists|at: int| nul_at(held(s), at) && payload == stripped(s.subrange(0, at))
}

/// Whether the bytes `s` overflow a text reply: they fill the buffer, and
/// what it holds has no terminator.
pub open spec fn line_overflown(s: Seq<u8>) -> bool {
    !held(s).contains(NUL) && s.len() >= LINE_CAPACITY
}

/// Removes one byte from the end of `line`, if it is `b`.
fn strip_one(line: &mut Vec<u8>, b: u8)
    ensures
        final(line)@ == without_trailing(old(line)@, b),
{
    let n = line.len();
    if n > 0 && line[n - 1] == b {
        line.pop();
    }
}

/// Strips the terminators from the end of a reply: a NUL, then a carriage
/// return, then a line feed, each if it is there.
pub fn strip_terminators(line: &mut Vec<u8>)
    ensures
        final(line)@ == stripped(old(line)@),
{
    strip_one(line, NUL);
    strip_one(line, CR);
    strip_one(line, LF);
}

/// Checks an acknowledgement against the literal that the protocol fixes.
pub fn check_ack(received: &[u8], expected: &[u8]) -> (r: Result<(), Violation>)
    ensures
        r == if received@ == expected@ {
            Ok::<(), Violation>(())
        } else {
            Err::<(), Violation>(Violation::UnexpectedAck)
        },
{
    if equal(received, expected) {
        Ok(())
    } else {
        Err(Violation::UnexpectedAck)
    }
}

/// A command on its way out.
#[derive(Debug)]
pub struct Sender {
    data: Vec<u8>,
    sent: usize,
}

impl Sender {
    #[verifier::type_invariant]
    spec fn inv(self) -> bool {
        self.sent <= self.data@.len()
    }

    /// All the bytes to send.
    pub closed spec fn data(self) -> Seq<u8> {
        self.data@
    }

    /// How many of them the line has accepted.
    pub closed spec fn accepted(self) -> nat {
        self.sent as nat
    }

    /// Whether the value is usable: no more is accepted than there is.
    pub open spec fn well_formed(self) -> bool {
        self.accepted() <= self.data().len()
    }

    /// Starts sending `data`.
    pub fn new(data: Vec<u8>) -> (s: Sender)
        ensures
            s.data() == data@,
            s.accepted() == 0,
    {
        Sender { data, sent: 0 }
    }

    /// The bytes that are still to be written, in order.
    pub fn pending(&self) -> (rest: &[u8])
        ensures
            self.well_formed(),
            rest@ == self.data().skip(self.accepted() as int),
    {
        proof {
            use_type_invariant(self);
        }
        slice_subrange(self.data.as_slice(), self.sent, self.data.len())
    }

    /// Tells whether every byte has been accepted.
    pub fn is_done(&self) -> (done: bool)
        ensures
            self.well_formed(),
            done == (self.accepted() == self.data().len()),
    {
        proof {
            use_type_invariant(self);
        }
        self.sent == self.data.len()
    }

    /// Records that the line accepted the first `n` of the pending bytes. A
    /// count beyond what was pending counts as all of it.
    pub fn advance(&mut self, n: usize)
        ensures
            final(self).data() == old(self).data(),
            final(self).accepted() == old(self).accepted() + least(
                n as int,
                old(self).data().len() - old(self).accepted(),
            ),
    {
        proof {
            use_type_invariant(&*self);
        }
        if n <= self.data.len() - self.sent {
            self.sent = self.sent + n;
        } else {
            self.sent = self.data.len();
        }
    }
}

/// A reply of known length on its way in.
#[derive(Debug)]
pub struct ExactReader {
    want: usize,
    got: Vec<u8>,
}

impl ExactReader {
    #[verifier::type_invariant]
    spec fn inv(self) -> bool {
        self.got@.len() <= self.want
    }

    /// The number of bytes waited for in all.
    pub closed spec fn wanted(self) -> nat {
        self.want as nat
    }

    /// The bytes that have come, in order.
    pub closed spec fn received(self) -> Seq<u8> {
        self.got@
    }

    /// Whether the value is usable: no more has come than was waited for.
    pub open spec fn well_formed(self) -> bool {
        self.received().len() <= self.wanted()
    }

    /// Starts waiting for exactly `want` bytes.
    pub fn new(want: usize) -> (r: ExactReader)
        ensures
            r.wanted() == want,
            r.received() == Seq::<u8>::empty(),
    {
        ExactReader { want, got: Vec::new() }
    }

    /// The number of bytes that are still to come: ask the line for no more.
    pub fn missing(&self) -> (n: usize)
        ensures
            self.well_formed(),
            n == self.wanted() - self.received().len(),
    {
        proof {
            use_type_invariant(self);
        }
        self.want - self.got.len()
    }

    /// Takes in the bytes of one read. A short read is taken whole and the
    /// reader waits for the rest; of a read longer than what is missing, only
    /// the missing bytes are taken.
    pub fn accept(self, chunk: &[u8]) -> (next: ExactReader)
        ensures
            next.wanted() == self.wanted(),
            next.received() == self.received() + chunk@.take(
                least(chunk@.len() as int, self.wanted() - self.received().len()),
            ),
    {
        proof {
            use_type_invariant(&self);
        }
        let want = self.want;
        let mut got = self.got;
        let room = want - got.len();
        let n = if chunk.len() <= room { chunk.len() } else { room };
        let ghost before = got@;
        let mut i: usize = 0;
        while i < n
            invariant
                i <= n,
                n <= chunk.len(),
                before.len() + n <= want,
                got@ == before + chunk@.take(i as int),
            decreases n - i,
        {
            got.push(chunk[i]);
            assert(chunk@.take(i + 1) =~= chunk@.take(i as int).push(chunk@[i as int]));
            assert(got@ =~= before + chunk@.take(i + 1));
            i += 1;
        }
        ExactReader { want, got }
    }

    /// Hands out the bytes that have come.
    pub fn into_bytes(self) -> (bytes: Vec<u8>)
        ensures
            bytes@ == self.received(),
    {
        self.got
    }
}

/// A text reply on its way in.
#[derive(Debug)]
pub struct LineReader {
    buf: Vec<u8>,
}

/// What one read did to a text reply.
#[derive(Debug)]
pub enum LineStep {
    /// The terminator has not come: read on.
    More(LineReader),
    /// The terminator came: this is the payload.
    Line(Vec<u8>),
}

impl LineReader {
    #[verifier::type_invariant]
    spec fn inv(self) -> bool {
        line_open(self.buf@)
    }

    /// The bytes that have come, in order.
    pub closed spec fn received(self) -> Seq<u8> {
        self.buf@
    }

    /// Whether the value is usable: what has come leaves the reply open.
    pub open spec fn well_formed(self) -> bool {
        line_open(self.received())
    }

    /// Starts waiting for a text reply.
    pub fn new() -> (r: LineReader)
        ensures
            r.received() == Seq::<u8>::empty(),
    {
        LineReader { buf: Vec::new() }
    }

    /// The number of bytes for which the buffer has room: ask the line for
    /// no more.
    pub fn room(&self) -> (n: usize)
        ensures
            self.well_formed(),
            n == LINE_CAPACITY - self.received().len(),
            n > 0,
    {
        proof {
            use_type_invariant(self);
        }
        LINE_CAPACITY - self.buf.len()
    }

    /// Takes in the bytes of one read and says where the reply stands. A
    /// reply that fills the buffer before its terminator comes is refused.
    pub fn accept(self, chunk: &[u8]) -> (step: Result<LineStep, Violation>)
        ensures
            match step {
                Ok(LineStep::More(next)) => {
                    &&& line_open(self.received() + chunk@)
                    &&& next.received() == self.received() + chunk@
                },
                Ok(LineStep::Line(payload)) => line_closed(self.received() + chunk@, payload@),
                Err(Violation::ReplyTooLong) => line_overflown(self.received() + chunk@),
                Err(_) => false,
            },
    {
        proof {
            use_type_invariant(&self);
        }
        let ghost before = self.received();
        let ghost all = before + chunk@;
        let mut buf = self.buf;
        let mut i: usize = 0;
        while i < chunk.len() && buf.len() < LINE_CAPACITY
            invariant
                i <= chunk.len(),
                buf@.len() <= LINE_CAPACITY,
                buf@ == before + chunk@.take(i as int),
                before == self.received(),
                all == before + chunk@,
                !buf@.contains(NUL),
            decreases chunk.len() - i,
        {
            let b = chunk[i];
            let ghost at = buf@.len() as int;
            assert(all.take(at) =~= buf@);
            assert(all[at] == b);
            if b == NUL {
                proof {
                    assert forall|j: int| 0 <= j < at implies held(all)[j] != NUL by {
                        assert(buf@[j] == all[j]);
                        assert(buf@.contains(buf@[j]));
                    }
                    assert(nul_at(held(all), at));
                    assert(all.subrange(0, at) =~= buf@);
                }
                strip_terminators(&mut buf);
                assert(nul_at(held(all), at) && buf@ == stripped(all.subrange(0, at)));
                return Ok(LineStep::Line(buf));
            }
            let ghost shorter = buf@;
            buf.push(b);
            proof {
                assert(chunk@.take(i + 1) =~= chunk@.take(i as int).push(b));
                assert(buf@ =~= before + chunk@.take(i + 1));
                if buf@.contains(NUL) {
                    let k = choose|k: int| 0 <= k < buf@.len() && buf@[k] == NUL;
                    if k < at {
                        assert(shorter[k] == NUL);
                    }
                }
            }
            i += 1;
        }
        if buf.len() == LINE_CAPACITY {
            proof {
                assert(held(all) =~= buf@);
            }
            Err(Violation::ReplyTooLong)
        } else {
            proof {
                assert(chunk@.take(i as int) =~= chunk@);
            }
            Ok(LineStep::More(LineReader { buf }))
        }
    }
}

/// One terminator, or nothing: a piece of the tail of a reply.
pub open spec fn optional(present: bool, b: u8) -> Seq<u8> {
    if present {
        seq![b]
    } else {
        Seq::empty()
    }
}

/// Text that ends in no terminator is left as it is.
pub proof fn lemma_strip_leaves_plain_text(s: Seq<u8>)
    requires
        !ends_in_terminator(s),
    ensures
        stripped(s) == s,
{
}

/// Stripping removes a tail of at most three bytes and nothing else.
pub proof fn lemma_strip_gives_prefix(s: Seq<u8>)
    ensures
        stripped(s).len() <= s.len() <= stripped(s).len() + 3,
        stripped(s) == s.take(stripped(s).len() as int),
{
    let a = without_trailing(s, NUL);
    let b = without_trailing(a, CR);
    let c = without_trailing(b, LF);
    assert(a =~= s.take(a.len() as int));
    assert(b =~= a.take(b.len() as int));
    assert(c =~= b.take(c.len() as int));
    assert(c =~= s.take(c.len() as int));
}

/// Stripping a second time changes nothing, wherever the first pass leaves
/// text that ends in no terminator.
pub proof fn lemma_strip_idempotent(s: Seq<u8>)
    requires
        !ends_in_terminator(stripped(s)),
    ensures
        stripped(stripped(s)) == stripped(s),
{
}

/// Where the first pass leaves a terminator at the end, a second pass
/// removes it: the two differ.
pub proof fn lemma_strip_again_goes_on(s: Seq<u8>)
    requires
        ends_in_terminator(stripped(s)),
    ensures
        stripped(stripped(s)).len() < stripped(s).len(),
{
}

/// The terminators come off in the order in which a device appends them:
/// a payload that ends in none, followed by a line feed, a carriage return
/// and a NUL, each of which may be missing, is stripped to the payload.
pub proof fn lemma_strip_order(payload: Seq<u8>, lf: bool, cr: bool, nul: bool)
    requires
        !ends_in_terminator(payload),
    ensures
        stripped(payload + optional(lf, LF) + optional(cr, CR) + optional(nul, NUL)) == payload,
{
    let with_lf = payload + optional(lf, LF);
    let with_cr = with_lf + optional(cr, CR);
    let with_nul = with_cr + optional(nul, NUL);
    assert(without_trailing(with_nul, NUL) =~= with_cr);
    assert(without_trailing(with_cr, CR) =~= with_lf);
    assert(without_trailing(with_lf, LF) =~= payload);
}

/// The bytes read so far put a text reply in exactly one state, and a closed
/// reply has one payload.
pub proof fn lemma_line_state_unique(s: Seq<u8>, a: Seq<u8>, b: Seq<u8>)
    ensures
        line_open(s) || line_overflown(s) || exists|payload: Seq<u8>| line_closed(s, payload),
        !(line_open(s) && line_overflown(s)),
        line_closed(s, a) ==> !line_open(s) && !line_overflown(s),
        line_closed(s, a) && line_closed(s, b) ==> a == b,
{
    if line_open(s) {
        assert(held(s) =~= s);
    }
    if line_closed(s, a) {
        let at = choose|at: int| nul_at(held(s), at) && a == stripped(s.subrange(0, at));
        assert(held(s).contains(NUL));
        assert(s[at] == NUL);
        if line_closed(s, b) {
            let bt = choose|bt: int| nul_at(held(s), bt) && b == stripped(s.subrange(0, bt));
            if at < bt {
                assert(held(s)[at] != NUL);
            }
            if bt < at {
                assert(held(s)[bt] != NUL);
            }
        }
    }
    if !line_open(s) && !line_overflown(s) {
        if s.len() < LINE_CAPACITY {
            assert(held(s) =~= s);
        }
        let k = choose|k: int| 0 <= k < held(s).len() && held(s)[k] == NUL;
        lemma_first_nul_exists(held(s), held(s).len() as int);
        let at = choose|at: int| nul_at(held(s), at);
        assert(line_closed(s, stripped(s.subrange(0, at))));
    }
}

/// Among the first `n` bytes of `s`, either none is a NUL or one is the first.
proof fn lemma_first_nul_exists(s: Seq<u8>, n: int)
    requires
        0 <= n <= s.len(),
    ensures
        (forall|j: int| 0 <= j < n ==> s[j] != NUL) || exists|at: int| at < n && nul_at(s, at),
    decreases n,
{
    if n > 0 {
        lemma_first_nul_exists(s, n - 1);
        if forall|j: int| 0 <= j < n - 1 ==> s[j] != NUL {
            if s[n - 1] == NUL {
                assert(nul_at(s, n - 1));
            }
        }
    }
}

/// What has been decided stays decided: a reply that is closed, or has
/// overflown, is so whatever comes after. So a reply reads the same however
/// the line cuts it into pieces.
pub proof fn lemma_line_state_lasts(s: Seq<u8>, more: Seq<u8>, payload: Seq<u8>)
    ensures
        line_closed(s, payload) ==> line_closed(s + more, payload),
        line_overflown(s) ==> line_overflown(s + more),
        line_open(s + more) ==> line_open(s),
{
    let all = s + more;
    if line_closed(s, payload) {
        let at = choose|at: int| nul_at(held(s), at) && payload == stripped(s.subrange(0, at));
        assert(held(all)[at] == NUL);
        assert forall|j: int| 0 <= j < at implies held(all)[j] != NUL by {
            assert(held(s)[j] != NUL);
        }
        assert(nul_at(held(all), at));
        assert(all.subrange(0, at) =~= s.subrange(0, at));
    }
    if line_overflown(s) {
        assert(held(all) =~= held(s));
    }
    if line_open(all) {
        if s.contains(NUL) {
            let k = choose|k: int| 0 <= k < s.len() && s[k] == NUL;
            assert(all[k] == NUL);
        }
    }
}

} // verus!
