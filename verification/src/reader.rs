//! The flash reader: the whole flash, page by page, as one stream of bytes.
//!
//! The reader says what to ask the device for next, takes in the page that
//! came back, and yields its bytes in order. A page whose size is a power of
//! two above 32 is not asked for in one piece: the firmware is known to
//! mishandle such reads, so the first byte is fetched by itself and the rest
//! of the page follows in a second request.

use vstd::prelude::*;
use crate::command::Command;
use crate::flash::Flash;
use crate::line::least;

verus! {

/// Page sizes up to this one are always read in one piece.
pub const PROBE_ABOVE: u32 = 32;

/// Two to the power `k`.
pub open spec fn two_to(k: nat) -> nat
    decreases k,
{
    if k == 0 {
        1
    } else {
        2 * two_to((k - 1) as nat)
    }
}

/// Whether `n` is a power of two.
pub open spec fn is_power_of_two(n: nat) -> bool {
    exists|k: nat| two_to(k) == n
}

/// Whether a page of `size` bytes must be read in two pieces.
pub open spec fn needs_probe(size: u32) -> bool {
    size > PROBE_ABOVE && is_power_of_two(size as nat)
}

/// The requests that fetch one page.
#[derive(Clone, Copy, Debug, PartialEq, Eq, Structural)]
pub struct PagePlan {
    /// The address of the page's first byte.
    pub addr: u32,
    /// The request for the first byte alone, where the page needs one.
    pub probe: Option<Command>,
    /// The request for the rest of the page.
    pub bulk: Command,
}

/// The requests that fetch page `page` of `flash`.
pub open spec fn page_plan(flash: Flash, page: nat) -> PagePlan {
    let addr = flash.page_address_spec(page) as u32;
    if needs_probe(flash.size) {
        PagePlan {
            addr,
            probe: Some(Command::Probe { addr }),
            bulk: Command::BulkRead { addr: (addr + 1) as u32, size: (flash.size - 1) as u32 },
        }
    } else {
        PagePlan { addr, probe: None, bulk: Command::BulkRead { addr, size: flash.size } }
    }
}

impl PagePlan {
    /// The number of bytes that the bulk request brings.
    pub open spec fn bulk_size(self) -> nat {
        match self.bulk {
            Command::BulkRead { addr, size } => size as nat,
            _ => 0,
        }
    }

    /// The number of bytes that the two requests bring together.
    pub open spec fn total(self) -> nat {
        self.bulk_size() + if self.probe is Some {
            1nat
        } else {
            0nat
        }
    }
}

/// Powers of two grow with the exponent.
pub proof fn lemma_two_to_grows(j: nat, k: nat)
    requires
        j <= k,
    ensures
        two_to(j) <= two_to(k),
        two_to(j) > 0,
    decreases k,
{
    if j < k {
        lemma_two_to_grows(j, (k - 1) as nat);
    } else if k > 0 {
        lemma_two_to_grows((j - 1) as nat, (k - 1) as nat);
    }
}

/// Tells whether `n` is a power of two.
pub fn power_of_two(n: u32) -> (yes: bool)
    ensures
        yes == is_power_of_two(n as nat),
{
    let mut p: u64 = 1;
    let ghost mut k: nat = 0;
    while p < n as u64
        invariant
            p == two_to(k),
            1 <= p <= 0x2_0000_0000,
            forall|j: nat| j < k ==> two_to(j) < n,
        decreases 0x2_0000_0000 - p,
    {
        p = 2 * p;
        proof {
            k = k + 1;
        }
    }
    proof {
        if p != n {
            assert forall|j: nat| two_to(j) != n by {
                if j >= k {
                    lemma_two_to_grows(k, j);
                }
            }
        }
    }
    p == n as u64
}

/// Tells whether a page of `size` bytes must be read in two pieces.
pub fn probe_needed(size: u32) -> (yes: bool)
    ensures
        yes == needs_probe(size),
{
    size > PROBE_ABOVE && power_of_two(size)
}

/// Works out the requests that fetch page `page` of `flash`.
pub fn plan_page(flash: &Flash, page: u32) -> (plan: PagePlan)
    requires
        flash.well_formed(),
        page < flash.pages,
    ensures
        plan == page_plan(*flash, page as nat),
        plan.total() == flash.size,
{
    let addr = flash.page_address(page);
    if probe_needed(flash.size) {
        PagePlan {
            addr,
            probe: Some(Command::Probe { addr }),
            bulk: Command::BulkRead { addr: addr + 1, size: flash.size - 1 },
        }
    } else {
        PagePlan { addr, probe: None, bulk: Command::BulkRead { addr, size: flash.size } }
    }
}

/// A reader of the whole flash.
#[derive(Debug)]
pub struct FlashReader {
    flash: Flash,
    next: u32,
    page: Vec<u8>,
    offset: usize,
}

impl FlashReader {
    #[verifier::type_invariant]
    spec fn inv(self) -> bool {
        &&& self.flash.well_formed()
        &&& self.next <= self.flash.pages
        &&& self.offset <= self.page@.len()
        &&& self.page@.len() == if self.next == 0 {
            0
        } else {
            self.flash.size as int
        }
    }

    /// The flash that is read.
    pub closed spec fn flash(self) -> Flash {
        self.flash
    }

    /// The number of pages that have been taken in.
    pub closed spec fn pages_loaded(self) -> nat {
        self.next as nat
    }

    /// The bytes of the current page that are still to be yielded.
    pub closed spec fn pending(self) -> Seq<u8> {
        self.page@.skip(self.offset as int)
    }

    /// The number of bytes that have been yielded so far; the next byte comes
    /// from this offset in the flash.
    pub open spec fn position(self) -> int {
        self.pages_loaded() * self.flash().size - self.pending().len()
    }

    /// Whether the value is usable.
    pub open spec fn well_formed(self) -> bool {
        &&& self.flash().well_formed()
        &&& self.pages_loaded() <= self.flash().pages
        &&& self.pending().len() <= self.flash().size
        &&& self.pages_loaded() == 0 ==> self.pending().len() == 0
    }

    /// Starts at the first byte of the flash.
    pub fn new(flash: Flash) -> (r: FlashReader)
        requires
            flash.well_formed(),
        ensures
            r.flash() == flash,
            r.pages_loaded() == 0,
            r.pending() == Seq::<u8>::empty(),
            r.position() == 0,
    {
        let r = FlashReader { flash, next: 0, page: Vec::new(), offset: 0 };
        assert(r.page@.skip(0) =~= Seq::<u8>::empty());
        assert(0 * flash.size == 0);
        r
    }

    /// Tells whether every byte of the current page has been yielded.
    pub fn is_drained(&self) -> (yes: bool)
        ensures
            self.well_formed(),
            yes == (self.pending().len() == 0),
    {
        proof {
            use_type_invariant(self);
        }
        self.offset == self.page.len()
    }

    /// Tells whether the whole flash has been yielded.
    pub fn is_exhausted(&self) -> (yes: bool)
        ensures
            self.well_formed(),
            yes == (self.pages_loaded() == self.flash().pages && self.pending().len() == 0),
            yes == (self.position() == self.flash().capacity_spec()),
    {
        proof {
            use_type_invariant(self);
            let n = self.next as int;
            let pages = self.flash.pages as int;
            let size = self.flash.size as int;
            if n < pages {
                assert(n * size + size <= pages * size) by (nonlinear_arith)
                    requires
                        n < pages,
                        size > 0,
                ;
                assert(n * size >= 0) by (nonlinear_arith)
                    requires
                        n >= 0,
                        size > 0,
                ;
            }
        }
        self.next == self.flash.pages && self.offset == self.page.len()
    }

    /// Says what to ask the device for next: the requests for the page that
    /// follows the ones taken in, or nothing once all pages have been.
    pub fn request(&self) -> (r: Option<PagePlan>)
        ensures
            self.well_formed(),
            r == if self.pages_loaded() < self.flash().pages {
                Some(page_plan(self.flash(), self.pages_loaded()))
            } else {
                None
            },
    {
        proof {
            use_type_invariant(self);
        }
        if self.next < self.flash.pages {
            Some(plan_page(&self.flash, self.next))
        } else {
            None
        }
    }

    /// Takes in the page that the device sent for the current request: the
    /// byte of the probe, where one was made, and the bytes of the bulk read.
    /// The page is taken, and `true` returned, if the current page is drained,
    /// a page is left to read, and the data has the shape that the request
    /// has; else nothing changes.
    pub fn load(&mut self, probe: Option<u8>, bulk: &[u8]) -> (taken: bool)
        ensures
            final(self).flash() == old(self).flash(),
            taken == loadable(*old(self), probe, bulk@),
            taken ==> {
                &&& final(self).pages_loaded() == old(self).pages_loaded() + 1
                &&& final(self).pending() == page_bytes(probe, bulk@)
                &&& final(self).position() == old(self).position()
            },
            !taken ==> {
                &&& final(self).pages_loaded() == old(self).pages_loaded()
                &&& final(self).pending() == old(self).pending()
            },
    {
        proof {
            use_type_invariant(&*self);
        }
        if self.offset != self.page.len() || self.next >= self.flash.pages {
            return false;
        }
        let plan = plan_page(&self.flash, self.next);
        let bulk_size = match plan.bulk {
            Command::BulkRead { size, .. } => size,
            _ => 0,
        };
        if probe.is_some() != plan.probe.is_some() || bulk.len() != bulk_size as usize {
            return false;
        }
        let mut page: Vec<u8> = Vec::new();
        if let Some(first) = probe {
            page.push(first);
        }
        let ghost head = page@;
        let mut i: usize = 0;
        while i < bulk.len()
            invariant
                i <= bulk.len(),
                page@ == head + bulk@.take(i as int),
            decreases bulk.len() - i,
        {
            page.push(bulk[i]);
            assert(bulk@.take(i + 1) =~= bulk@.take(i as int).push(bulk@[i as int]));
            assert(page@ =~= head + bulk@.take(i + 1));
            i += 1;
        }
        proof {
            assert(bulk@.take(i as int) =~= bulk@);
            assert(page@ =~= page_bytes(probe, bulk@));
            assert(page@.skip(0) =~= page@);
            let n = self.next as int;
            let size = self.flash.size as int;
            assert((n + 1) * size - size == n * size) by (nonlinear_arith);
        }
        *self = FlashReader { flash: self.flash, next: self.next + 1, page, offset: 0 };
        true
    }

    /// Yields the next bytes of the current page, at most `max` of them.
    pub fn take(&mut self, max: usize) -> (out: Vec<u8>)
        ensures
            final(self).flash() == old(self).flash(),
            final(self).pages_loaded() == old(self).pages_loaded(),
            out@ == old(self).pending().take(least(max as int, old(self).pending().len() as int)),
            final(self).pending() == old(self).pending().skip(out@.len() as int),
            final(self).position() == old(self).position() + out@.len(),
    {
        proof {
            use_type_invariant(&*self);
        }
        let left = self.page.len() - self.offset;
        let n = if max <= left { max } else { left };
        let start = self.offset;
        let mut out: Vec<u8> = Vec::new();
        let mut i: usize = 0;
        while i < n
            invariant
                i <= n,
                start + n <= self.page.len(),
                out@ == self.page@.skip(start as int).take(i as int),
            decreases n - i,
        {
            out.push(self.page[start + i]);
            assert(self.page@.skip(start as int).take(i + 1) =~= self.page@.skip(
                start as int,
            ).take(i as int).push(self.page@[start + i]));
            i += 1;
        }
        self.offset = start + n;
        assert(self.page@.skip(start + n) =~= self.page@.skip(start as int).skip(n as int));
        out
    }
}

/// Whether page data has the shape that `plan` asks for: a probe byte exactly
/// where the plan has a probe, and as many bulk bytes as the bulk read asks for.
pub open spec fn fits(plan: PagePlan, probe: Option<u8>, bulk: Seq<u8>) -> bool {
    (probe is Some) == (plan.probe is Some) && bulk.len() == plan.bulk_size()
}

/// Whether `reader` can take in the page data: its current page is drained,
/// a page is left to read, and the data has the shape that the request for
/// that page has.
pub open spec fn loadable(reader: FlashReader, probe: Option<u8>, bulk: Seq<u8>) -> bool {
    &&& reader.pending().len() == 0
    &&& reader.pages_loaded() < reader.flash().pages
    &&& fits(page_plan(reader.flash(), reader.pages_loaded()), probe, bulk)
}

/// A page as it is put together from what the device sent.
pub open spec fn page_bytes(probe: Option<u8>, bulk: Seq<u8>) -> Seq<u8> {
    match probe {
        Some(first) => seq![first] + bulk,
        None => bulk,
    }
}

/// A number strictly between two neighbouring powers of two is none.
pub proof fn lemma_between_powers(n: nat, k: nat)
    requires
        two_to(k) < n < two_to(k + 1),
    ensures
        !is_power_of_two(n),
{
    assert forall|j: nat| two_to(j) != n by {
        if j <= k {
            lemma_two_to_grows(j, k);
        } else {
            lemma_two_to_grows(k + 1, j);
        }
    }
}

/// A page of 4096 bytes is read in two pieces, a page of 4097 bytes or of 32
/// bytes in one.
pub proof fn lemma_probe_examples()
    ensures
        needs_probe(4096),
        !needs_probe(4097),
        !needs_probe(32),
        needs_probe(64),
{
    reveal_with_fuel(two_to, 14);
    assert(two_to(12) == 4096);
    assert(two_to(13) == 8192);
    assert(two_to(6) == 64);
    lemma_between_powers(4097, 12);
}

/// The two pieces of a page are the page: the probe, where there is one,
/// asks for the page's first byte and the bulk read for all that follows it;
/// without a probe the bulk read asks for the whole page. A probe is made
/// exactly for page sizes that are powers of two above 32.
pub proof fn lemma_plan_covers_page(flash: Flash, page: nat)
    requires
        flash.well_formed(),
        page < flash.pages,
    ensures
        page_plan(flash, page).addr == flash.addr + page * flash.size,
        page_plan(flash, page).probe is Some <==> needs_probe(flash.size),
        page_plan(flash, page).probe is Some ==> {
            &&& page_plan(flash, page).probe == Some(
                Command::Probe { addr: page_plan(flash, page).addr },
            )
            &&& page_plan(flash, page).bulk == (Command::BulkRead {
                addr: (page_plan(flash, page).addr + 1) as u32,
                size: (flash.size - 1) as u32,
            })
            &&& page_plan(flash, page).addr + 1 + (flash.size - 1) <= 0x1_0000_0000
        },
        page_plan(flash, page).probe is None ==> page_plan(flash, page).bulk == (
        Command::BulkRead { addr: page_plan(flash, page).addr, size: flash.size }),
        page_plan(flash, page).total() == flash.size,
{
    lemma_page_fits(flash, page);
}

/// Every page lies within the flash.
pub proof fn lemma_page_fits(flash: Flash, page: nat)
    requires
        flash.well_formed(),
        page < flash.pages,
    ensures
        flash.addr <= flash.page_address_spec(page),
        flash.page_address_spec(page) + flash.size <= flash.addr + flash.capacity_spec(),
        flash.addr + flash.capacity_spec() <= 0x1_0000_0000,
{
    let p = page as int;
    let n = flash.pages as int;
    let size = flash.size as int;
    assert(0 <= p * size && p * size + size <= n * size) by (nonlinear_arith)
        requires
            0 <= p < n,
            size > 0,
    ;
}

/// Pages are visited in the order of their addresses and without a gap: the
/// first page begins at the base of the flash, each page begins where the
/// page before it ends, and so a later page lies wholly above an earlier one.
pub proof fn lemma_pages_in_order(flash: Flash, earlier: nat, later: nat)
    requires
        flash.well_formed(),
        earlier < later < flash.pages,
    ensures
        page_plan(flash, 0).addr == flash.addr,
        page_plan(flash, earlier + 1).addr == page_plan(flash, earlier).addr + flash.size,
        page_plan(flash, earlier).addr + flash.size <= page_plan(flash, later).addr,
{
    lemma_page_fits(flash, 0);
    lemma_page_fits(flash, earlier);
    lemma_page_fits(flash, earlier + 1);
    lemma_page_fits(flash, later);
    let e = earlier as int;
    let l = later as int;
    let size = flash.size as int;
    assert((e + 1) * size == e * size + size) by (nonlinear_arith);
    assert(e * size + size <= l * size) by (nonlinear_arith)
        requires
            e < l,
            size > 0,
    ;
    assert(0 * size == 0);
}

/// What a reader has yielded never exceeds the flash, and equals it exactly
/// when every page has been taken in and the last one is drained: a full run
/// yields as many bytes as the flash holds.
pub proof fn lemma_position_bounds(reader: FlashReader)
    requires
        reader.well_formed(),
    ensures
        0 <= reader.position() <= reader.flash().capacity_spec(),
        reader.position() == reader.flash().capacity_spec() <==> (reader.pages_loaded()
            == reader.flash().pages && reader.pending().len() == 0),
{
    let n = reader.pages_loaded() as int;
    let pages = reader.flash().pages as int;
    let size = reader.flash().size as int;
    if n == 0 {
        assert(n * size == 0);
        assert(pages * size >= 0) by (nonlinear_arith)
            requires
                pages >= 0,
                size > 0,
        ;
        if pages > 0 {
            assert(pages * size > 0) by (nonlinear_arith)
                requires
                    pages > 0,
                    size > 0,
            ;
        }
    } else {
        assert((n - 1) * size == n * size - size) by (nonlinear_arith);
        assert((n - 1) * size >= 0) by (nonlinear_arith)
            requires
                n >= 1,
                size > 0,
        ;
        assert(n * size <= pages * size) by (nonlinear_arith)
            requires
                n <= pages,
                size > 0,
        ;
        if n < pages {
            assert(n * size + size <= pages * size) by (nonlinear_arith)
                requires
                    n < pages,
                    size > 0,
            ;
        }
    }
}

/// The pieces of a page, put together, are the page: if the probe brought
/// the byte at the page's address and the bulk read the bytes at the
/// addresses that it asked for, the reader yields the bytes of the page in
/// the order of their addresses. `memory` is what the device holds from the
/// base of the flash on.
pub proof fn lemma_pieces_make_the_page(
    flash: Flash,
    page: nat,
    memory: Seq<u8>,
    probe: Option<u8>,
    bulk: Seq<u8>,
)
    requires
        flash.well_formed(),
        page < flash.pages,
        memory.len() == flash.capacity_spec(),
        fits(page_plan(flash, page), probe, bulk),
        page_plan(flash, page).probe matches Some(Command::Probe { addr }) ==> probe == Some(
            memory[addr - flash.addr],
        ),
        page_plan(flash, page).bulk matches Command::BulkRead { addr, size } && bulk
            == memory.subrange(addr - flash.addr, addr - flash.addr + size),
    ensures
        page_bytes(probe, bulk) == memory.subrange(page * flash.size, page * flash.size + flash.size),
{
    lemma_page_fits(flash, page);
    lemma_plan_covers_page(flash, page);
    assert(page_bytes(probe, bulk) =~= memory.subrange(
        page * flash.size,
        page * flash.size + flash.size,
    ));
}

} // verus!
