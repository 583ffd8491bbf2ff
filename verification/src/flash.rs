//! Flash geometry, and the table of chip families that are known.

use vstd::prelude::*;
use vstd::string::StringSliceAdditionalSpecFns;
use crate::bytes::equal;

verus! {

/// The name by which the nRF52840 family answers the identity query.
pub const FAMILY_NRF52: &'static str = "nRF52840-QIAA";

/// The flash memory of one chip family.
#[derive(Clone, Copy, Debug, PartialEq, Eq, Structural)]
pub struct Flash {
    /// Address of the first byte of flash.
    pub addr: u32,
    /// Number of pages.
    pub pages: u32,
    /// Size of a page in bytes.
    pub size: u32,
    /// Number of planes.
    pub planes: u32,
    /// Number of lock regions.
    pub lock_regions: u32,
    /// Offset of the write buffer in the device's memory.
    pub user: u32,
    /// Offset of the stack in the device's memory.
    pub stack: u32,
}

impl Flash {
    /// The descriptor of the nRF52840 family.
    pub open spec fn nrf52() -> Flash {
        Flash { addr: 0, pages: 256, size: 4096, planes: 1, lock_regions: 0, user: 0, stack: 0 }
    }

    /// The number of bytes that the flash holds.
    pub open spec fn capacity_spec(self) -> nat {
        (self.pages * self.size) as nat
    }

    /// Whether pages have a size and every byte of the flash has a 32-bit address.
    pub open spec fn well_formed(self) -> bool {
        &&& self.size > 0
        &&& self.addr + self.pages * self.size <= 0x1_0000_0000
    }

    /// The address at which page `page` begins.
    pub open spec fn page_address_spec(self, page: nat) -> nat {
        (self.addr + page * self.size) as nat
    }

    /// Computes the number of bytes that the flash holds.
    pub fn capacity(&self) -> (bytes: u64)
        ensures
            bytes == self.capacity_spec(),
            bytes <= 0xffff_fffe_0000_0001,
    {
        assert(self.pages * self.size <= 0xffff_ffff * 0xffff_ffff) by (nonlinear_arith)
            requires
                self.pages <= 0xffff_ffff,
                self.size <= 0xffff_ffff,
        ;
        self.pages as u64 * self.size as u64
    }

    /// Tells whether the descriptor is well formed.
    pub fn is_well_formed(&self) -> (ok: bool)
        ensures
            ok == self.well_formed(),
    {
        self.size > 0 && self.addr as u64 + self.capacity() <= 0x1_0000_0000
    }

    /// Computes the address at which page `page` begins.
    pub fn page_address(&self, page: u32) -> (addr: u32)
        requires
            self.well_formed(),
            page < self.pages,
        ensures
            addr == self.page_address_spec(page as nat),
            addr + self.size <= 0x1_0000_0000,
    {
        assert(page * self.size + self.size <= self.pages * self.size) by (nonlinear_arith)
            requires
                page < self.pages,
        ;
        let offset: u64 = page as u64 * self.size as u64;
        (self.addr as u64 + offset) as u32
    }
}

/// Looks a chip family up by the name that the device gave: the descriptor
/// of the family whose name it is, letter for letter, or nothing.
pub fn identify(name: &[u8]) -> (r: Option<Flash>)
    ensures
        r == if name@ == FAMILY_NRF52.spec_bytes() {
            Some(Flash::nrf52())
        } else {
            None
        },
{
    if equal(name, FAMILY_NRF52.as_bytes()) {
        Some(Flash { addr: 0, pages: 256, size: 4096, planes: 1, lock_regions: 0, user: 0, stack: 0 })
    } else {
        None
    }
}

/// The one family in the table is well formed and holds one mebibyte.
pub proof fn lemma_nrf52_well_formed()
    ensures
        Flash::nrf52().well_formed(),
        Flash::nrf52().capacity_spec() == 0x10_0000,
{
}

} // verus!
