use vstd::prelude::*;

use crate::masks::{self, Attr};

verus! {

pub const PG_SHIFT: u32 = 14;
pub const PG_SIZE: usize = 0x4000;
pub const PG_MASK: u32 = 0x3fff;
/// Enough pages to cover the whole 32-bit address space.
pub const ENTRIES: usize = 0x40000;

/// One slot of the page table: its permissions and the offset of the page in
/// the backing memory arena. A slot without permissions has base 0.
#[derive(Clone, Copy, PartialEq, Eq, Structural)]
pub struct PageEntry {
    pub attr: Attr,
    pub base: usize,
}

pub open spec fn empty_entry() -> PageEntry {
    PageEntry { attr: 0, base: 0 }
}

/// The page that holds address `adr`.
pub open spec fn page_of(adr: u32) -> int {
    (adr >> PG_SHIFT) as int
}

/// The base offset of the page holding `adr` if its slot grants `mask`,
/// else a miss.
pub open spec fn lookup(t: Seq<PageEntry>, adr: u32, mask: Attr) -> Option<usize> {
    if t[page_of(adr)].attr & mask != 0 {
        Some(t[page_of(adr)].base)
    } else {
        None
    }
}

pub proof fn lemma_page_in_range(adr: u32)
    ensures
        0 <= page_of(adr) < ENTRIES,
{
    assert((adr >> 14u32) < 0x40000u32) by (bit_vector);
}

/// The page index of an address.
pub fn adr_to_page(adr: u32) -> (r: usize)
    ensures
        r == page_of(adr),
        r < ENTRIES,
{
    PtrTable::adr_to_page(adr)
}

/// Direct-mapped page table over the 32-bit address space.
pub struct PtrTable {
    entries: Vec<PageEntry>,
}

impl View for PtrTable {
    type V = Seq<PageEntry>;

    closed spec fn view(&self) -> Seq<PageEntry> {
        self.entries@
    }
}

impl PtrTable {
    /// Every page has a slot.
    pub open spec fn wf(&self) -> bool {
        self@.len() == ENTRIES
    }

    /// A table with every page unmapped.
    pub fn new() -> (r: Self)
        ensures
            r.wf(),
            forall|i: int| 0 <= i < ENTRIES ==> r@[i] == empty_entry(),
    {
        let mut entries: Vec<PageEntry> = Vec::new();
        let mut i: usize = 0;
        while i < ENTRIES
            invariant
                i <= ENTRIES,
                entries@.len() == i,
                forall|j: int| 0 <= j < i ==> entries@[j] == empty_entry(),
            decreases ENTRIES - i,
        {
            entries.push(PageEntry { attr: 0, base: 0 });
            i = i + 1;
        }
        PtrTable { entries }
    }

    pub fn adr_to_page(adr: u32) -> (r: usize)
        ensures
            r == page_of(adr),
            r < ENTRIES,
    {
        proof {
            lemma_page_in_range(adr);
        }
        (adr >> PG_SHIFT) as usize
    }

    fn probe(&self, adr: u32, mask: Attr) -> (r: Option<usize>)
        requires
            self.wf(),
        ensures
            r == lookup(self@, adr, mask),
    {
        let index = Self::adr_to_page(adr);
        let e = self.entries[index];
        if e.attr & mask != 0 {
            Some(e.base)
        } else {
            None
        }
    }

    /// Base of the page holding `adr` if it may be read.
    pub fn read(&self, adr: u32) -> (r: Option<usize>)
        requires
            self.wf(),
        ensures
            r == lookup(self@, adr, masks::R),
    {
        self.probe(adr, masks::R)
    }

    /// Base of the page holding `adr` if bytes may be stored there.
    pub fn write8(&self, adr: u32) -> (r: Option<usize>)
        requires
            self.wf(),
        ensures
            r == lookup(self@, adr, masks::W_8),
    {
        self.probe(adr, masks::W_8)
    }

    /// Base of the page holding `adr` if half-words and words may be stored
    /// there.
    pub fn write32_16(&self, adr: u32) -> (r: Option<usize>)
        requires
            self.wf(),
        ensures
            r == lookup(self@, adr, masks::W_16_32),
    {
        self.probe(adr, masks::W_16_32)
    }

    /// Installs the permissions and base of one page together.
    pub fn map(&mut self, page: usize, attrs: Attr, base: usize)
        requires
            old(self).wf(),
            page < ENTRIES,
        ensures
            final(self).wf(),
            final(self)@ == old(self)@.update(page as int, PageEntry { attr: attrs, base }),
    {
        self.entries.set(page, PageEntry { attr: attrs, base });
    }

    /// Clears one page to no permission and base 0.
    pub fn unmap(&mut self, page: usize)
        requires
            old(self).wf(),
            page < ENTRIES,
        ensures
            final(self).wf(),
            final(self)@ == old(self)@.update(page as int, empty_entry()),
    {
        self.entries.set(page, PageEntry { attr: 0, base: 0 });
    }
}

impl Default for PtrTable {
    fn default() -> (r: Self)
        ensures
            r.wf(),
            forall|i: int| 0 <= i < ENTRIES ==> r@[i] == empty_entry(),
    {
        PtrTable::new()
    }
}

/// After a page is unmapped, every kind of access to any address in it
/// misses.
pub proof fn lemma_unmapped_page_misses(t: Seq<PageEntry>, page: int, adr: u32)
    requires
        t.len() == ENTRIES,
        0 <= page < ENTRIES,
        page_of(adr) == page,
    ensures
        lookup(t.update(page, empty_entry()), adr, masks::R).is_none(),
        lookup(t.update(page, empty_entry()), adr, masks::W_8).is_none(),
        lookup(t.update(page, empty_entry()), adr, masks::W_16_32).is_none(),
{
    assert(0u8 & 1u8 == 0 && 0u8 & 2u8 == 0 && 0u8 & 4u8 == 0) by (bit_vector);
}

} // verus!
