use vstd::prelude::*;

use crate::align::{lemma_round_up, round_to_align, round_up};
use crate::host::{Host, GROW_FAILED, PAGE_SIZE};

verus! {

/// The error of a request that cannot be served.
#[derive(Debug, Clone, Copy, PartialEq, Eq, Structural)]
pub struct AllocErr;

/// A bump allocator: a cursor that only moves forward through linear memory.
pub struct QIMalloc {
    /// The first byte after the last allocation; `None` until a request first
    /// reads the size of the mapped region.
    ptr: Option<usize>,
    /// The ranges handed out so far, as (address, size).
    served: Ghost<Seq<(nat, nat)>>,
}

/// No two of the ranges `[address, address + size)` overlap.
pub open spec fn ranges_disjoint(ranges: Seq<(nat, nat)>) -> bool {
    forall|i: int, j: int|
        #![trigger ranges[i], ranges[j]]
        0 <= i < ranges.len() && 0 <= j < ranges.len() && i != j ==> ranges[i].0 + ranges[i].1
            <= ranges[j].0 || ranges[j].0 + ranges[j].1 <= ranges[i].0
}

impl View for QIMalloc {
    type V = Option<nat>;

    /// The cursor, if it has been set.
    closed spec fn view(&self) -> Option<nat> {
        match self.ptr {
            Some(p) => Some(p as nat),
            None => None,
        }
    }
}

/// Where the free space begins: at the cursor once it is set, else at the
/// end of the mapped region.
pub open spec fn start_of(cursor: Option<nat>, pages: nat) -> int {
    match cursor {
        Some(c) => c as int,
        None => pages * PAGE_SIZE,
    }
}

/// The number of pages that covers `bytes` bytes.
pub open spec fn pages_for(bytes: int) -> int {
    round_up(bytes, PAGE_SIZE as int) / PAGE_SIZE as int
}

/// Enough pages to cover `bytes` bytes, and no more.
proof fn lemma_pages_for(bytes: int)
    requires
        bytes >= 0,
    ensures
        pages_for(bytes) * PAGE_SIZE >= bytes,
        (pages_for(bytes) - 1) * PAGE_SIZE < bytes,
        pages_for(bytes) == bytes / (PAGE_SIZE as int) + if bytes % (PAGE_SIZE as int) == 0 {
            0int
        } else {
            1int
        },
{
    let p = PAGE_SIZE as int;
    lemma_round_up(bytes, p);
    vstd::arithmetic::div_mod::lemma_fundamental_div_mod(bytes, p);
    vstd::arithmetic::div_mod::lemma_fundamental_div_mod(round_up(bytes, p), p);
    let q = bytes / p;
    let r = bytes % p;
    let n = pages_for(bytes);
    assert(n * p == round_up(bytes, p));
    if r == 0 {
        assert(n * p == q * p);
        assert(n == q) by (nonlinear_arith)
            requires
                n * p == q * p,
                p > 0,
        ;
    } else {
        assert(n * p == (q + 1) * p) by (nonlinear_arith)
            requires
                n * p == bytes + (p - r),
                bytes == p * q + r,
        ;
        assert(n == q + 1) by (nonlinear_arith)
            requires
                n * p == (q + 1) * p,
                p > 0,
        ;
    }
    assert((n - 1) * p == n * p - p) by (nonlinear_arith);
}

impl QIMalloc {
    /// Every range served lies below the cursor, and no two overlap.
    #[verifier::type_invariant]
    spec fn inv(self) -> bool {
        &&& ranges_disjoint(self.served@)
        &&& match self.ptr {
            None => self.served@.len() == 0,
            Some(c) => forall|i: int|
                0 <= i < self.served@.len() ==> #[trigger] self.served@[i].0 + self.served@[i].1
                    <= c,
        }
    }

    /// The ranges this allocator has handed out, in order, as (address, size).
    pub closed spec fn served(&self) -> Seq<(nat, nat)> {
        self.served@
    }

    /// An allocator whose cursor is not set yet.
    pub fn new() -> (r: QIMalloc)
        ensures
            r@ == None::<nat>,
            r.served() == Seq::<(nat, nat)>::empty(),
    {
        QIMalloc { ptr: None, served: Ghost(Seq::empty()) }
    }

    /// Returns the cursor, if it has been set.
    pub fn cursor(&self) -> (r: Option<usize>)
        ensures
            r matches Some(c) ==> self@ == Some(c as nat),
            r is None ==> self@ is None,
    {
        self.ptr
    }

    /// Asks the host for `pages` more pages, and returns the address where
    /// they begin.
    pub fn alloc_pages<H: Host>(&self, host: &mut H, pages: usize) -> (r: Result<usize, AllocErr>)
        ensures
            r is Ok <==> old(host).grants(pages as nat),
            r matches Ok(a) ==> {
                &&& a == old(host).mapped_pages() * PAGE_SIZE
                &&& *final(host) == old(host).grown(pages as nat)
                &&& final(host).mapped_pages() == old(host).mapped_pages() + pages
                &&& final(host).mapped_pages() * PAGE_SIZE <= usize::MAX
            },
            r is Err ==> *final(host) == *old(host),
    {
        let previous = host.grow(pages);
        if previous != GROW_FAILED {
            proof {
                assert(previous * PAGE_SIZE <= final(host).mapped_pages() * PAGE_SIZE) by (
                nonlinear_arith)
                    requires
                        previous <= final(host).mapped_pages(),
                ;
            }
            Ok(previous * PAGE_SIZE)
        } else {
            Err(AllocErr)
        }
    }

    /// Serves a request for `size` bytes aligned to `align`.
    ///
    /// The request is carved out at the cursor rounded up to `align`, with
    /// its size rounded up to a multiple of `align`, growing the host's
    /// memory by the fewest whole pages that cover it. A zero size or
    /// alignment, a request that would pass the end of the address space,
    /// or a growth that the host refuses gives `AllocErr`. Once the size of
    /// the mapped region has been read the cursor is set; a failed request
    /// moves it no further.
    pub fn allocate<H: Host>(&mut self, host: &mut H, size: usize, align: usize) -> (r: Result<
        usize,
        AllocErr,
    >)
        ensures
            ({
                let base = start_of(old(self)@, old(host).mapped_pages());
                let start = round_up(base, align as int);
                let adjusted = round_up(size as int, align as int);
                let end = start + adjusted;
                if size == 0 || align == 0 || adjusted > usize::MAX {
                    &&& r == Err::<usize, AllocErr>(AllocErr)
                    &&& final(self)@ == old(self)@
                    &&& *final(host) == *old(host)
                } else if end > usize::MAX {
                    &&& r == Err::<usize, AllocErr>(AllocErr)
                    &&& final(self)@ == Some(base as nat)
                    &&& *final(host) == *old(host)
                } else if end <= old(host).mapped_pages() * PAGE_SIZE {
                    &&& r == Ok::<usize, AllocErr>(start as usize)
                    &&& final(self)@ == Some(end as nat)
                    &&& *final(host) == *old(host)
                } else {
                    &&& r is Ok <==> old(host).grants(
                        (pages_for(end) - old(host).mapped_pages()) as nat,
                    )
                    &&& match r {
                        Ok(a) => {
                            &&& a == start
                            &&& final(self)@ == Some(end as nat)
                            &&& *final(host) == old(host).grown(
                                (pages_for(end) - old(host).mapped_pages()) as nat,
                            )
                            &&& final(host).mapped_pages() == pages_for(end)
                        },
                        Err(_) => {
                            &&& final(self)@ == Some(base as nat)
                            &&& *final(host) == *old(host)
                        },
                    }
                }
            }),
            r matches Ok(a) ==> a % align == 0,
            old(self)@ matches Some(c) ==> (final(self)@ matches Some(d) && c <= d),
            r is Err && old(self)@ is Some ==> final(self)@ == old(self)@,
            r matches Ok(a) ==> final(self)@ matches Some(d) && a + round_up(size as int, align as int)
                == d && d <= final(host).mapped_pages() * PAGE_SIZE,
            r matches Ok(a) ==> final(self).served() == old(self).served().push(
                (a as nat, size as nat),
            ),
            r is Err ==> final(self).served() == old(self).served(),
            ranges_disjoint(final(self).served()),
    {
        proof {
            use_type_invariant(&*self);
        }
        if size == 0 || align == 0 {
            return Err(AllocErr);
        }
        proof {
            lemma_round_up(size as int, align as int);
        }
        let rem = size % align;
        if rem != 0 && size > usize::MAX - (align - rem) {
            return Err(AllocErr);
        }
        let adjusted = round_to_align(size, align);
        let cur_pages = host.current_pages();
        let mapped_end = cur_pages * PAGE_SIZE;
        let base = match self.ptr {
            Some(p) => p,
            None => mapped_end,
        };
        self.ptr = Some(base);
        proof {
            lemma_round_up(base as int, align as int);
        }
        let base_rem = base % align;
        if base_rem != 0 && base > usize::MAX - (align - base_rem) {
            return Err(AllocErr);
        }
        let start = round_to_align(base, align);
        if start > usize::MAX - adjusted {
            return Err(AllocErr);
        }
        let needed = start + adjusted;
        if needed > mapped_end {
            proof {
                lemma_pages_for(needed as int);
                let p = PAGE_SIZE as int;
                assert(pages_for(needed as int) > cur_pages) by (nonlinear_arith)
                    requires
                        pages_for(needed as int) * p >= needed,
                        needed > cur_pages * p,
                        p > 0,
                ;
            }
            let total_pages = needed / PAGE_SIZE + if needed % PAGE_SIZE == 0 {
                0
            } else {
                1
            };
            match self.alloc_pages(host, total_pages - cur_pages) {
                Ok(_) => {},
                Err(e) => {
                    return Err(e);
                },
            }
        }
        self.ptr = Some(needed);
        proof {
            let old_served = self.served@;
            let new_served = old_served.push((start as nat, size as nat));
            assert(ranges_disjoint(new_served)) by {
                assert forall|i: int, j: int|
                    #![trigger new_served[i], new_served[j]]
                    0 <= i < new_served.len() && 0 <= j < new_served.len() && i != j implies
                    new_served[i].0 + new_served[i].1 <= new_served[j].0 || new_served[j].0
                    + new_served[j].1 <= new_served[i].0 by {
                    if i < old_served.len() {
                        assert(new_served[i] == old_served[i]);
                    }
                    if j < old_served.len() {
                        assert(new_served[j] == old_served[j]);
                    }
                    if i < old_served.len() && j < old_served.len() {
                        assert(old_served[i] == new_served[i] && old_served[j] == new_served[j]);
                    }
                }
            }
        }
        self.served = Ghost(self.served@.push((start as nat, size as nat)));
        Ok(start)
    }

    /// Gives memory back, which this allocator never reuses: nothing happens.
    pub fn deallocate(&self, _address: usize, _size: usize, _align: usize) {
    }
}

} // verus!
