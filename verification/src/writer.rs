//! The flash writer: an image cut into chunks, and the exchange that programs
//! each chunk.
//!
//! The image goes through a buffer of 4096 bytes. Each filling of the buffer
//! is uploaded into the device's write buffer and then programmed into flash
//! at the place that the chunks before it have reached. The last filling may
//! be short: it is padded with zeros, and its length is rounded up to whole
//! pages, though never beyond the buffer.

use vstd::prelude::*;
use crate::command::Command;
use crate::error::Error;
use crate::feats::Feats;
use crate::flash::Flash;
use crate::line::least;

verus! {

/// The size of the buffer that the image goes through.
pub const WRITE_BUF_SIZE: u32 = 4096;

/// `n` rounded up to the next multiple of `page`.
pub open spec fn round_up(n: nat, page: nat) -> nat {
    (((n + page - 1) / (page as int)) * page) as nat
}

/// The length that is written for a filling of `n` bytes: a full buffer as it
/// is, a short one rounded up to whole pages and capped at the buffer's size.
pub open spec fn chunk_len(n: nat, page: nat) -> nat {
    if n < WRITE_BUF_SIZE {
        least(round_up(n, page) as int, WRITE_BUF_SIZE as int) as nat
    } else {
        WRITE_BUF_SIZE as nat
    }
}

/// The number of fillings that an image of `len` bytes takes.
pub open spec fn chunk_count(len: nat) -> nat {
    ((len + WRITE_BUF_SIZE - 1) / (WRITE_BUF_SIZE as int)) as nat
}

/// The number of image bytes in filling `i` of an image of `len` bytes.
pub open spec fn piece_len(len: nat, i: nat) -> nat {
    least(WRITE_BUF_SIZE as int, len - i * WRITE_BUF_SIZE) as nat
}

/// The bytes of filling `i` of `image`.
pub open spec fn piece(image: Seq<u8>, i: nat) -> Seq<u8> {
    image.subrange(i * WRITE_BUF_SIZE, i * WRITE_BUF_SIZE + piece_len(image.len(), i))
}

/// `n` zero bytes.
pub open spec fn zeros(n: nat) -> Seq<u8> {
    Seq::new(n, |i: int| 0u8)
}

/// The exchange that programs one chunk, as a value of the model.
pub struct ChunkView {
    pub upload: Command,
    pub data: Seq<u8>,
    pub select: Command,
    pub program: Command,
}

/// The exchange that programs one chunk.
#[derive(Clone, Debug, PartialEq, Eq)]
pub struct Chunk {
    /// Announces the upload into the device's write buffer.
    pub upload: Command,
    /// The bytes that follow the announcement, unframed.
    pub data: Vec<u8>,
    /// Selects the write buffer.
    pub select: Command,
    /// Programs the buffered bytes into flash.
    pub program: Command,
}

impl View for Chunk {
    type V = ChunkView;

    open spec fn view(&self) -> ChunkView {
        ChunkView {
            upload: self.upload,
            data: self.data@,
            select: self.select,
            program: self.program,
        }
    }
}

/// The exchange for filling `i` of `image`: the filling padded with zeros to
/// the chunk's length, uploaded at the write buffer's offset, and programmed
/// at the flash's base plus what the fillings before it took.
pub open spec fn chunk_at(flash: Flash, image: Seq<u8>, i: nat) -> ChunkView {
    let bytes = piece(image, i);
    let len = chunk_len(bytes.len(), flash.size as nat);
    ChunkView {
        upload: Command::Upload { offset: flash.user, size: len as u32 },
        data: bytes + zeros((len - bytes.len()) as nat),
        select: Command::Program { addr: flash.user, size: 0 },
        program: Command::Program {
            addr: (flash.addr + i * WRITE_BUF_SIZE) as u32,
            size: len as u32,
        },
    }
}

/// All that is sent to write an image.
#[derive(Clone, Debug, PartialEq, Eq)]
pub struct WritePlan {
    /// Switches the device to binary mode; sent first.
    pub enter: Command,
    /// The chunks, in the order in which they are written.
    pub chunks: Vec<Chunk>,
    /// Makes the device run the new firmware; sent last, where the device
    /// offers it.
    pub reset: Option<Command>,
}

/// Whether `plan` is the plan that writes `image` to `flash` on a device with
/// the capabilities `feats`.
pub open spec fn writes(plan: WritePlan, feats: Feats, flash: Flash, image: Seq<u8>) -> bool {
    &&& plan.enter == Command::EnterWriteMode
    &&& plan.chunks@.len() == chunk_count(image.len())
    &&& forall|i: int|
        0 <= i < plan.chunks@.len() ==> (#[trigger] plan.chunks@[i])@ == chunk_at(
            flash,
            image,
            i as nat,
        )
    &&& plan.reset == if feats.reset {
        Some(Command::Reset)
    } else {
        None
    }
}

/// What planning a write gives: the plan, or the reason why nothing may be
/// sent. An image that is too large is reported before a missing write buffer.
pub open spec fn plans(
    feats: Feats,
    flash: Flash,
    image: Seq<u8>,
    r: Result<WritePlan, Error>,
) -> bool {
    match r {
        Ok(plan) => {
            &&& image.len() <= flash.capacity_spec()
            &&& feats.write_buffer
            &&& writes(plan, feats, flash, image)
        },
        Err(Error::InputTooLarge { size, capacity }) => {
            &&& image.len() > flash.capacity_spec()
            &&& size == image.len()
            &&& capacity == flash.capacity_spec()
        },
        Err(Error::WriteBufferMissing) => {
            &&& image.len() <= flash.capacity_spec()
            &&& !feats.write_buffer
        },
        Err(_) => false,
    }
}

/// Computes the length that is written for a filling of `n` bytes.
pub fn write_len(n: u32, page: u32) -> (len: u32)
    requires
        page > 0,
        n <= WRITE_BUF_SIZE,
    ensures
        len == chunk_len(n as nat, page as nat),
        n <= len <= WRITE_BUF_SIZE,
{
    if n < WRITE_BUF_SIZE {
        let pages: u64 = (n as u64 + page as u64 - 1) / page as u64;
        proof {
            lemma_round_up(n as nat, page as nat);
        }
        let rounded: u64 = pages * page as u64;
        if rounded > WRITE_BUF_SIZE as u64 {
            WRITE_BUF_SIZE
        } else {
            rounded as u32
        }
    } else {
        WRITE_BUF_SIZE
    }
}

/// Builds the bytes of one chunk: the filling, then zeros up to `len` bytes.
fn pad(filling: &[u8], len: usize) -> (data: Vec<u8>)
    requires
        filling@.len() <= len,
    ensures
        data@ == filling@ + zeros((len - filling@.len()) as nat),
{
    let mut data: Vec<u8> = Vec::new();
    let mut i: usize = 0;
    while i < filling.len()
        invariant
            i <= filling.len(),
            data@ == filling@.take(i as int),
        decreases filling.len() - i,
    {
        data.push(filling[i]);
        assert(filling@.take(i + 1) =~= filling@.take(i as int).push(filling@[i as int]));
        i += 1;
    }
    assert(filling@.take(i as int) =~= filling@);
    while i < len
        invariant
            filling@.len() <= i <= len,
            data@ == filling@ + zeros((i - filling@.len()) as nat),
        decreases len - i,
    {
        data.push(0);
        assert(data@ =~= filling@ + zeros((i + 1 - filling@.len()) as nat));
        i += 1;
    }
    data
}

/// Plans the writing of `image` to `flash` on a device with the capabilities
/// `feats`: every chunk with its commands, in order, or the reason why the
/// image cannot be written.
pub fn plan_write(feats: &Feats, flash: &Flash, image: &[u8]) -> (r: Result<WritePlan, Error>)
    requires
        flash.well_formed(),
    ensures
        plans(*feats, *flash, image@, r),
{
    let capacity = flash.capacity();
    let total = image.len();
    if total as u64 > capacity {
        return Err(Error::InputTooLarge { size: total as u64, capacity });
    }
    if !feats.write_buffer {
        return Err(Error::WriteBufferMissing);
    }
    let mut chunks: Vec<Chunk> = Vec::new();
    let mut start: usize = 0;
    while start < total
        invariant
            flash.well_formed(),
            total == image@.len(),
            total <= flash.capacity_spec(),
            start <= total,
            start == least(chunks@.len() * WRITE_BUF_SIZE, total as int),
            chunks@.len() * WRITE_BUF_SIZE < total + WRITE_BUF_SIZE,
            forall|j: int|
                0 <= j < chunks@.len() ==> (#[trigger] chunks@[j])@ == chunk_at(
                    *flash,
                    image@,
                    j as nat,
                ),
        decreases total - start,
    {
        let ghost i = chunks@.len();
        let left = total - start;
        let n: usize = if left < WRITE_BUF_SIZE as usize { left } else { WRITE_BUF_SIZE as usize };
        let len = write_len(n as u32, flash.size);
        let filling = vstd::slice::slice_subrange(image, start, start + n);
        let data = pad(filling, len as usize);
        let chunk = Chunk {
            upload: Command::Upload { offset: flash.user, size: len },
            data,
            select: Command::Program { addr: flash.user, size: 0 },
            program: Command::Program { addr: (flash.addr as u64 + start as u64) as u32, size: len },
        };
        proof {
            assert(filling@ == piece(image@, i));
            assert(chunk@ == chunk_at(*flash, image@, i));
        }
        let ghost before = chunks@;
        chunks.push(chunk);
        proof {
            assert forall|j: int| 0 <= j < chunks@.len() implies (#[trigger] chunks@[j])@
                == chunk_at(*flash, image@, j as nat) by {
                if j < i {
                    assert(chunks@[j] == before[j]);
                }
            }
        }
        start = start + n;
    }
    let reset = if feats.reset { Some(Command::Reset) } else { None };
    Ok(WritePlan { enter: Command::EnterWriteMode, chunks, reset })
}

/// Rounding up gives the least multiple of the page size that is not below
/// the number.
pub proof fn lemma_round_up(n: nat, page: nat)
    requires
        page > 0,
    ensures
        n <= round_up(n, page) < n + page,
        round_up(n, page) % page == 0,
        n % page == 0 ==> round_up(n, page) == n,
{
    let x = (n + page - 1) as int;
    let p = page as int;
    assert(x == p * (x / p) + x % p && 0 <= x % p < p) by (nonlinear_arith)
        requires
            p > 0,
    ;
    assert((x / p) * p == p * (x / p)) by (nonlinear_arith);
    assert(((x / p) * p) % p == 0) by (nonlinear_arith)
        requires
            p > 0,
    ;
    assert(x / p >= 0) by (nonlinear_arith)
        requires
            x >= 0,
            p > 0,
    ;
    if n % page == 0 {
        let q = (n / page) as int;
        assert(n == p * q) by (nonlinear_arith)
            requires
                p > 0,
                q == n as int / p,
                n as int % p == 0,
        ;
        assert((p * q + p - 1) / p == q) by (nonlinear_arith)
            requires
                p > 0,
        ;
        assert(q * p == p * q) by (nonlinear_arith);
    }
}

/// The length that is written for filling `i` of an image of `len` bytes.
pub open spec fn sent_len(len: nat, page: nat, i: nat) -> nat {
    chunk_len(piece_len(len, i), page)
}

/// The number of bytes that the first `upto` chunks of an image of `len`
/// bytes write together.
pub open spec fn sent_total(len: nat, page: nat, upto: nat) -> nat
    decreases upto,
{
    if upto == 0 {
        0
    } else {
        sent_total(len, page, (upto - 1) as nat) + sent_len(len, page, (upto - 1) as nat)
    }
}

/// A difference of multiples is a multiple.
proof fn lemma_rest_is_multiple(len: nat, step: nat, i: nat, page: nat)
    requires
        page > 0,
        len % page == 0,
        step % page == 0,
        i * step <= len,
    ensures
        ((len - i * step) as nat) % page == 0,
{
    let p = page as int;
    let a = len as int / p;
    let b = step as int / p;
    assert(len == p * a) by (nonlinear_arith)
        requires
            p > 0,
            a == len as int / p,
            len as int % p == 0,
    ;
    assert(step == p * b) by (nonlinear_arith)
        requires
            p > 0,
            b == step as int / p,
            step as int % p == 0,
    ;
    assert(len - i * step == p * (a - i * b)) by (nonlinear_arith)
        requires
            len == p * a,
            step == p * b,
    ;
    assert((p * (a - i * b)) % p == 0) by (nonlinear_arith)
        requires
            p > 0,
    ;
}

/// An image of whole pages is written as it is: every chunk is a number of
/// whole pages, and the chunks written so far hold as many bytes as the
/// fillings that they carry. This holds where the page size divides the
/// buffer's size, and of any image shorter than the buffer.
pub proof fn lemma_whole_pages_so_far(len: nat, page: nat, upto: nat)
    requires
        page > 0,
        len % page == 0,
        WRITE_BUF_SIZE as nat % page == 0 || len < WRITE_BUF_SIZE,
        upto <= chunk_count(len),
    ensures
        sent_total(len, page, upto) == least(upto * WRITE_BUF_SIZE, len as int),
        forall|i: nat| i < upto ==> #[trigger] sent_len(len, page, i) % page == 0,
    decreases upto,
{
    if upto > 0 {
        let i = (upto - 1) as nat;
        lemma_whole_pages_so_far(len, page, i);
        let n = piece_len(len, i);
        assert(n % page == 0) by {
            if len < WRITE_BUF_SIZE {
                assert(i == 0);
            } else {
                lemma_rest_is_multiple(len, WRITE_BUF_SIZE as nat, i, page);
            }
        }
        lemma_round_up(n, page);
        assert(sent_len(len, page, i) == n);
    }
}

/// An image of `pages` whole pages takes as many chunks as its length needs
/// buffers, each chunk a number of whole pages, and the chunks hold together
/// exactly the bytes of the image. This holds where the page size divides the
/// buffer's size, and of any image shorter than the buffer.
pub proof fn lemma_whole_pages_written(page: nat, pages: nat)
    requires
        page > 0,
        WRITE_BUF_SIZE as nat % page == 0 || pages * page < WRITE_BUF_SIZE,
    ensures
        chunk_count(pages * page) * WRITE_BUF_SIZE >= pages * page,
        chunk_count(pages * page) * WRITE_BUF_SIZE < pages * page + WRITE_BUF_SIZE,
        sent_total(pages * page, page, chunk_count(pages * page)) == pages * page,
        forall|i: nat|
            i < chunk_count(pages * page) ==> #[trigger] sent_len(pages * page, page, i) % page == 0,
{
    let len = pages * page;
    assert(len % page == 0) by (nonlinear_arith)
        requires
            len == pages * page,
            page > 0,
    ;
    lemma_whole_pages_so_far(len, page, chunk_count(len));
}

/// An image shorter than the buffer is written as one chunk, whose length
/// is the image's length rounded up to whole pages. This holds where the
/// rounded length fits the buffer; the chunk is the image followed by zeros.
pub proof fn lemma_short_image_is_one_chunk(flash: Flash, image: Seq<u8>)
    requires
        flash.size > 0,
        0 < image.len() < WRITE_BUF_SIZE,
        round_up(image.len(), flash.size as nat) <= WRITE_BUF_SIZE,
    ensures
        chunk_count(image.len()) == 1,
        chunk_at(flash, image, 0).data.len() == round_up(image.len(), flash.size as nat),
        chunk_at(flash, image, 0).data == image + zeros(
            (round_up(image.len(), flash.size as nat) - image.len()) as nat,
        ),
        chunk_at(flash, image, 0).program == (Command::Program {
            addr: flash.addr,
            size: round_up(image.len(), flash.size as nat) as u32,
        }),
{
    lemma_round_up(image.len(), flash.size as nat);
    assert(piece(image, 0) =~= image);
}

/// Whatever the page size, a chunk holds its filling, is never longer than
/// the buffer, and is programmed at the flash's base plus one buffer for
/// each chunk before it.
pub proof fn lemma_chunk_bounds(flash: Flash, image: Seq<u8>, i: nat)
    requires
        flash.size > 0,
        i < chunk_count(image.len()),
    ensures
        0 < piece(image, i).len() <= chunk_at(flash, image, i).data.len() <= WRITE_BUF_SIZE,
        chunk_at(flash, image, i).data.take(piece(image, i).len() as int) == piece(image, i),
        chunk_at(flash, image, i).upload == (Command::Upload {
            offset: flash.user,
            size: chunk_at(flash, image, i).data.len() as u32,
        }),
{
    lemma_round_up(piece_len(image.len(), i), flash.size as nat);
    let c = chunk_at(flash, image, i);
    assert(c.data.take(piece(image, i).len() as int) =~= piece(image, i));
}

/// The chunk in which byte `at` of an image travels.
pub open spec fn chunk_of(at: nat) -> nat {
    at / (WRITE_BUF_SIZE as nat)
}

/// The place of byte `at` of an image in the data of its chunk.
pub open spec fn place_in_chunk(at: nat) -> nat {
    at % (WRITE_BUF_SIZE as nat)
}

/// Every byte of the image is programmed at the flash's base plus its
/// offset in the image: it travels in one of the chunks, at its place in
/// that chunk's data, and the chunk is programmed from an address on that
/// puts this place at the base plus the offset.
pub proof fn lemma_image_lands_in_place(flash: Flash, image: Seq<u8>, at: nat)
    requires
        flash.well_formed(),
        image.len() <= flash.capacity_spec(),
        at < image.len(),
    ensures
        chunk_of(at) < chunk_count(image.len()),
        place_in_chunk(at) < chunk_at(flash, image, chunk_of(at)).data.len(),
        chunk_at(flash, image, chunk_of(at)).data[place_in_chunk(at) as int] == image[at as int],
        chunk_at(flash, image, chunk_of(at)).program == (Command::Program {
            addr: (flash.addr + at - place_in_chunk(at)) as u32,
            size: chunk_at(flash, image, chunk_of(at)).data.len() as u32,
        }),
        flash.addr + at < 0x1_0000_0000,
{
    let i = chunk_of(at);
    let k = place_in_chunk(at);
    lemma_chunk_bounds(flash, image, i);
    let c = chunk_at(flash, image, i);
    assert(k < piece(image, i).len());
    assert(c.data.take(piece(image, i).len() as int)[k as int] == piece(image, i)[k as int]);
}

} // verus!
