use vstd::prelude::*;

verus! {

/// Bytes in one page, the unit in which linear memory grows.
pub const PAGE_SIZE: usize = 65536;

/// The answer of a host that refuses to grow its memory.
pub const GROW_FAILED: usize = usize::MAX;

/// A host that owns a growable linear memory region.
///
/// The mapped region always fits the address space: its size in bytes is at
/// most `usize::MAX`.
pub trait Host: Sized {
    /// The number of pages currently mapped.
    spec fn mapped_pages(&self) -> nat;

    /// Whether a request for `pages` more pages would be granted now.
    spec fn grants(&self, pages: nat) -> bool;

    /// The host after it has granted `pages` more pages.
    spec fn grown(&self, pages: nat) -> Self;

    /// Returns the number of pages currently mapped.
    fn current_pages(&self) -> (r: usize)
        ensures
            r == self.mapped_pages(),
            r * PAGE_SIZE <= usize::MAX,
    ;

    /// Tries to map `pages` more pages. Returns the number of pages mapped
    /// before the call, or `GROW_FAILED` with nothing mapped.
    fn grow(&mut self, pages: usize) -> (r: usize)
        ensures
            (r != GROW_FAILED) == old(self).grants(pages as nat),
            r == GROW_FAILED ==> *final(self) == *old(self),
            r != GROW_FAILED ==> {
                &&& r == old(self).mapped_pages()
                &&& *final(self) == old(self).grown(pages as nat)
                &&& final(self).mapped_pages() == old(self).mapped_pages() + pages
                &&& final(self).mapped_pages() * PAGE_SIZE <= usize::MAX
            },
    ;
}

/// A linear memory held as a page count under a fixed ceiling.
pub struct SimulatedMemory {
    pages: usize,
    max_pages: usize,
}

impl SimulatedMemory {
    #[verifier::type_invariant]
    spec fn inv(self) -> bool {
        &&& self.pages <= self.max_pages
        &&& self.max_pages * PAGE_SIZE <= usize::MAX
    }

    /// The most pages this memory will ever map.
    pub closed spec fn ceiling(&self) -> nat {
        self.max_pages as nat
    }

    /// A memory with `pages` pages mapped that grows up to `max_pages`
    /// pages; `None` where `pages > max_pages` or where `max_pages` pages
    /// would not fit the address space.
    pub fn new(pages: usize, max_pages: usize) -> (r: Option<SimulatedMemory>)
        ensures
            r is Some <==> pages <= max_pages && max_pages * PAGE_SIZE <= usize::MAX,
            r matches Some(m) ==> m.mapped_pages() == pages && m.ceiling() == max_pages,
    {
        if pages <= max_pages && max_pages <= usize::MAX / PAGE_SIZE {
            Some(SimulatedMemory { pages, max_pages })
        } else {
            None
        }
    }

    /// Growing keeps the ceiling and adds to the mapped pages.
    pub proof fn lemma_grown(&self, pages: nat)
        requires
            self.grants(pages),
        ensures
            self.grown(pages).ceiling() == self.ceiling(),
            self.grown(pages).mapped_pages() == self.mapped_pages() + pages,
    {
    }

    /// Returns the most pages this memory will ever map.
    pub fn max_pages(&self) -> (r: usize)
        ensures
            r == self.ceiling(),
    {
        self.max_pages
    }
}

impl Host for SimulatedMemory {
    closed spec fn mapped_pages(&self) -> nat {
        self.pages as nat
    }

    /// Growth is granted while it stays under the ceiling.
    open spec fn grants(&self, pages: nat) -> bool {
        self.mapped_pages() + pages <= self.ceiling()
    }

    closed spec fn grown(&self, pages: nat) -> SimulatedMemory {
        SimulatedMemory { pages: (self.pages + pages) as usize, max_pages: self.max_pages }
    }

    fn current_pages(&self) -> (r: usize) {
        proof {
            use_type_invariant(self);
        }
        self.pages
    }

    /// Grows while the ceiling allows, and refuses otherwise.
    fn grow(&mut self, pages: usize) -> (r: usize) {
        proof {
            use_type_invariant(&*self);
        }
        if pages <= self.max_pages - self.pages {
            let previous = self.pages;
            self.pages = previous + pages;
            previous
        } else {
            GROW_FAILED
        }
    }
}

} // verus!
