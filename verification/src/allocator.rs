//! First-fit free-list allocator.
//!
//! The managed memory is described by a chain of self-describing block
//! headers. In the running kernel the headers live inside the managed
//! memory itself; here the chain is an arena of header records kept in
//! chain order, each recording the address and total byte span of its
//! block. An allocation walks the chain, carves the request out of the
//! tail of the first free block that can provide it, and splices the new
//! header (plus an optional alignment-padding header) into the chain in
//! place. Freeing only clears the allocation flag; headers are never
//! unlinked.

use vstd::prelude::*;

verus! {

use vstd::arithmetic::power2::is_pow2;
use vstd::arithmetic::div_mod::{
    lemma_fundamental_div_mod, lemma_mod_multiples_basic, lemma_mod_pos_bound, lemma_mod_self_0,
};
use crate::arith::{
    pow2_ceil, lemma_pow2_ceil_properties, lemma_pow2_ceil_minimal, lemma_pow2_double_gap,
    lemma_pow2_divides, lemma_mod_multiple_divisor, lemma_mod_sub_zero, lemma_mod_add_zero,
};
use crate::x86::PAGE_SIZE;

/// Byte span reserved for a block header's own metadata. Every block's
/// address and size is kept a multiple of this, so any block can later
/// host further headers when it is split.
pub const HEADER_SIZE: usize = 32;

/// Rounds `v` up to the nearest power of two. Fails for `v == 0` (there is
/// no meaningful rounding of zero) and when the result would not fit in
/// the address width.
pub fn round_up_to_nearest_pow2(v: usize) -> (r: Result<usize, &'static str>)
    ensures
        (r is Ok) <==> (1 <= v && pow2_ceil(v as nat) <= usize::MAX),
        r matches Ok(p) ==> p == pow2_ceil(v as nat),
        r matches Ok(p) ==> is_pow2(p as int) && p >= v,
        r matches Ok(p) ==> forall|q: int| is_pow2(q) && q >= v ==> q >= p,
        r matches Err(m) ==> m@ == "Out of range"@,
{
    if v == 0 {
        return Err("Out of range");
    }
    proof {
        lemma_pow2_ceil_properties(v as nat);
        reveal(is_pow2);
        assert(is_pow2(1));
    }
    let mut p: usize = 1;
    while p < v
        invariant
            1 <= v,
            1 <= p,
            is_pow2(p as int),
            p <= pow2_ceil(v as nat),
        decreases pow2_ceil(v as nat) - p,
    {
        proof {
            lemma_pow2_ceil_properties(v as nat);
            lemma_pow2_double_gap(p as nat, pow2_ceil(v as nat));
        }
        if p > usize::MAX / 2 {
            return Err("Out of range");
        }
        let ghost p0 = p as int;
        p = p * 2;
        proof {
            reveal(is_pow2);
            assert((2 * p0) % 2 == 0);
            assert(is_pow2(p as int));
        }
    }
    proof {
        lemma_pow2_ceil_minimal(v as nat, p as nat);
        assert forall|q: int| is_pow2(q) && q >= v implies q >= p by {
            reveal(is_pow2);
            lemma_pow2_ceil_minimal(v as nat, q as nat);
        }
    }
    Ok(p)
}

/// One block header: the byte span it owns (counted from the header's own
/// start address and including the header bytes) and whether the span is
/// currently handed out.
#[derive(Clone, Copy)]
pub struct Header {
    pub start: usize,
    pub size: usize,
    pub allocated: bool,
}

impl Header {
    /// First address past the block's span.
    pub open spec fn end(&self) -> int {
        self.start + self.size
    }

    /// Address handed to the caller when this block is allocated.
    pub open spec fn user_addr(&self) -> int {
        self.start + HEADER_SIZE
    }

    /// Bytes available to the caller, past the header's own metadata.
    pub open spec fn user_size(&self) -> int {
        self.size - HEADER_SIZE
    }

    /// Shape every header in a chain keeps: room for its own metadata,
    /// address and size aligned to the header granularity, placed past the
    /// reserved null page, and a span that fits the address width.
    pub open spec fn wf(&self) -> bool {
        &&& self.size >= HEADER_SIZE
        &&& self.start >= PAGE_SIZE
        &&& self.start as int % (HEADER_SIZE as int) == 0
        &&& self.size as int % (HEADER_SIZE as int) == 0
        &&& self.start + self.size <= usize::MAX
    }

    pub fn is_allocated(&self) -> (r: bool)
        ensures
            r == self.allocated,
    {
        self.allocated
    }

    /// First address past the block's span.
    pub fn end_addr(&self) -> (r: usize)
        requires
            self.start + self.size <= usize::MAX,
        ensures
            r == self.end(),
    {
        self.start + self.size
    }

    /// Whether the block is large enough to serve `size` bytes at `align`:
    /// the request itself, two header-sized reservations (one for the
    /// allocated block, one for a possible padding remainder), and the
    /// alignment slack.
    pub fn can_provide(&self, size: usize, align: usize) -> (r: bool)
        ensures
            r == (self.size >= size + 2 * HEADER_SIZE + align),
    {
        match size.checked_add(2 * HEADER_SIZE) {
            Some(t) => match t.checked_add(align) {
                Some(total) => self.size >= total,
                None => false,
            },
            None => false,
        }
    }
}

/// The size actually reserved for a request: rounded up to a power of two
/// and to at least a header's span, so a size of zero still reserves a
/// header-sized block.
pub open spec fn eff_size(size: usize) -> int {
    let v: nat = if size == 0 {
        1
    } else {
        size as nat
    };
    if pow2_ceil(v) >= HEADER_SIZE {
        pow2_ceil(v) as int
    } else {
        HEADER_SIZE as int
    }
}

/// The alignment actually used: at least the header granularity.
pub open spec fn eff_align(align: usize) -> int {
    if align >= HEADER_SIZE {
        align as int
    } else {
        HEADER_SIZE as int
    }
}

/// Whether a block can serve a request once size and alignment have been
/// rounded: it must be free and large enough.
pub open spec fn fits(h: Header, size: usize, align: usize) -> bool {
    &&& !h.allocated
    &&& h.size >= eff_size(size) + 2 * HEADER_SIZE + eff_align(align)
}

/// The address a block hands out for a request: the block's end, minus the
/// rounded size, rounded down to the alignment boundary.
pub open spec fn carve_addr(h: Header, size: usize, align: usize) -> int {
    let raw = h.end() - eff_size(size);
    raw - raw % eff_align(align)
}

/// The headers that replace a block when a request is carved out of its
/// tail: the shrunk still-free block at its original address, the newly
/// allocated block, and, when alignment rounding left a gap at the very
/// end, a free padding block covering exactly that gap.
pub open spec fn carve(h: Header, size: usize, align: usize) -> Seq<Header> {
    let s = eff_size(size);
    let addr = carve_addr(h, size, align);
    let gap = h.end() - (addr + s);
    let shrunk = Header {
        start: h.start,
        size: (h.size - (s + HEADER_SIZE) - gap) as usize,
        allocated: false,
    };
    let alloc_hdr = Header {
        start: (addr - HEADER_SIZE) as usize,
        size: (s + HEADER_SIZE) as usize,
        allocated: true,
    };
    if gap == 0 {
        seq![shrunk, alloc_hdr]
    } else {
        seq![
            shrunk,
            alloc_hdr,
            Header { start: (addr + s) as usize, size: gap as usize, allocated: false },
        ]
    }
}

/// Two blocks own disjoint byte ranges.
pub open spec fn hdr_disjoint(a: Header, b: Header) -> bool {
    a.end() <= b.start || b.end() <= a.start
}

pub open spec fn headers_wf(s: Seq<Header>) -> bool {
    forall|i: int| 0 <= i < s.len() ==> (#[trigger] s[i]).wf()
}

pub open spec fn pairwise_disjoint(s: Seq<Header>) -> bool {
    forall|i: int, j: int| #![trigger s[i], s[j]] 0 <= i < j < s.len() ==> hdr_disjoint(s[i], s[j])
}

/// Rounding facts about the effective size and alignment of a request.
pub proof fn lemma_eff_facts(size: usize, align: usize)
    requires
        align >= 1,
        is_pow2(align as int),
    ensures
        eff_size(size) >= HEADER_SIZE,
        eff_size(size) >= size,
        is_pow2(eff_size(size)),
        eff_size(size) % (HEADER_SIZE as int) == 0,
        size == 0 ==> eff_size(size) == HEADER_SIZE,
        eff_align(align) >= HEADER_SIZE,
        eff_align(align) >= align,
        is_pow2(eff_align(align)),
        eff_align(align) % (HEADER_SIZE as int) == 0,
        eff_align(align) % (align as int) == 0,
{
    reveal_with_fuel(is_pow2, 8);
    assert(is_pow2(32));
    let v: nat = if size == 0 {
        1
    } else {
        size as nat
    };
    lemma_pow2_ceil_properties(v);
    let p = pow2_ceil(v);
    if p >= 32 {
        lemma_pow2_divides(32, p);
    } else {
        lemma_mod_self_0(32);
    }
    if size == 0 {
        assert(pow2_ceil(1) == 1);
    }
    if align >= 32 {
        lemma_mod_self_0(align as int);
        lemma_pow2_divides(32, align as nat);
    } else {
        lemma_pow2_divides(align as nat, 32);
        lemma_mod_self_0(32);
    }
}

/// Everything that holds of the pieces a fitting block is carved into:
/// they are well-formed, tile a suffix-closed part of the old span without
/// overlap, only the middle piece is allocated, and the address handed out
/// is aligned, nonzero, and serves the full rounded size.
pub proof fn lemma_carve_facts(h: Header, size: usize, align: usize)
    requires
        h.wf(),
        align >= 1,
        is_pow2(align as int),
        fits(h, size, align),
    ensures
        ({
            let t = carve(h, size, align);
            let addr = carve_addr(h, size, align);
            &&& t.len() == 2 || t.len() == 3
            &&& headers_wf(t)
            &&& pairwise_disjoint(t)
            &&& forall|k: int|
                0 <= k < t.len() ==> h.start <= (#[trigger] t[k]).start && t[k].end() <= h.end()
            &&& t[0].start == h.start
            &&& !t[0].allocated
            &&& t[1].allocated
            &&& t.len() == 3 ==> !t[2].allocated
            &&& t[1].user_addr() == addr
            &&& t[1].user_size() == eff_size(size)
            &&& t[0].end() == t[1].start
            &&& t[0].size == h.size - (eff_size(size) + HEADER_SIZE) - (h.end() - (addr
                + eff_size(size)))
            &&& addr % (align as int) == 0
            &&& addr % (eff_align(align)) == 0
            &&& addr >= h.start + 2 * HEADER_SIZE
            &&& addr + eff_size(size) <= h.end()
        }),
{
    lemma_eff_facts(size, align);
    let s = eff_size(size);
    let a = eff_align(align);
    let hs = HEADER_SIZE as int;
    let e = h.end();
    let raw = e - s;
    assert(raw >= h.start + 2 * hs + a);
    lemma_mod_add_zero(h.start as int, h.size as int, hs);
    lemma_mod_sub_zero(e, s, hs);
    assert(raw % hs == 0);
    lemma_mod_pos_bound(raw, a);
    let m = raw % a;
    assert(0 <= m < a);
    lemma_mod_multiple_divisor(raw, a, hs);
    assert(m % hs == 0);
    let addr = raw - m;
    lemma_mod_sub_zero(raw, m, hs);
    assert(addr % hs == 0);
    assert(addr == carve_addr(h, size, align));
    // the carved address sits on the effective alignment boundary
    lemma_fundamental_div_mod(raw, a);
    assert(addr == a * (raw / a));
    lemma_mod_multiples_basic(raw / a, a);
    assert(addr % a == 0) by (nonlinear_arith)
        requires
            addr == a * (raw / a),
            ((raw / a) * a) % a == 0,
    ;
    crate::arith::lemma_mod_transitive(addr, a, align as int);
    // bounds on the carved address
    assert(addr >= h.start + 2 * hs + 1);
    assert((addr - h.start) % hs == 0) by {
        lemma_mod_sub_zero(addr, h.start as int, hs);
    }
    assert(addr - h.start >= 3 * hs);
    let gap = e - (addr + s);
    assert(gap == m);
    // the pieces
    let t = carve(h, size, align);
    let shrunk_size = h.size - (s + hs) - gap;
    assert(shrunk_size == addr - hs - h.start);
    assert(shrunk_size >= 2 * hs);
    assert(shrunk_size % hs == 0) by {
        lemma_mod_sub_zero(addr - h.start, hs, hs);
        lemma_mod_self_0(hs);
    }
    assert(t[0].start == h.start && t[0].size == shrunk_size && !t[0].allocated);
    assert(t[1].start == addr - hs && t[1].size == s + hs && t[1].allocated);
    assert(t[0].wf()) by {
        lemma_mod_add_zero(h.start as int, shrunk_size, hs);
    }
    assert(t[1].wf()) by {
        lemma_mod_sub_zero(addr, hs, hs);
        lemma_mod_self_0(hs);
        lemma_mod_add_zero(s, hs, hs);
    }
    if gap != 0 {
        assert(gap >= hs);
        assert(t.len() == 3);
        assert(t[2].start == addr + s && t[2].size == gap && !t[2].allocated);
        assert(t[2].wf()) by {
            lemma_mod_add_zero(addr, s, hs);
        }
        assert(t[2].end() == e);
    }
    assert(headers_wf(t));
    assert(pairwise_disjoint(t));
}

impl Header {
    /// Tries to carve `size` bytes at alignment `align` out of the tail of
    /// this block. On success the block shrinks to the still-free remainder
    /// at its original address, and the call returns the new allocated
    /// header, an optional free padding header covering the bytes lost to
    /// alignment rounding, and the address handed to the caller. The two
    /// new headers directly follow this block in the chain, in that order.
    pub fn provide(&mut self, size: usize, align: usize) -> (r: Option<
        (Header, Option<Header>, usize),
    >)
        requires
            old(self).wf(),
            align >= 1,
            is_pow2(align as int),
        ensures
            !fits(*old(self), size, align) ==> r is None && *final(self) == *old(self),
            fits(*old(self), size, align) ==> r is Some,
            r matches Some((alloc_hdr, pad, addr)) ==> ({
                let t = carve(*old(self), size, align);
                &&& fits(*old(self), size, align)
                &&& *final(self) == t[0]
                &&& alloc_hdr == t[1]
                &&& (t.len() == 3 ==> pad == Some(t[2]))
                &&& (t.len() == 2 ==> pad is None)
                &&& addr as int == carve_addr(*old(self), size, align)
            }),
    {
        let ghost h0 = *self;
        // round the request up; a zero size still reserves a header-sized block
        let rounded: usize = if size == 0 {
            HEADER_SIZE
        } else {
            match round_up_to_nearest_pow2(size) {
                Ok(p) => if p < HEADER_SIZE {
                    HEADER_SIZE
                } else {
                    p
                },
                Err(_) => {
                    proof {
                        // the rounded size exceeds the address width, so no block fits
                        lemma_pow2_ceil_properties(size as nat);
                        assert(eff_size(size) > usize::MAX);
                        assert(!fits(h0, size, align));
                    }
                    return None;
                },
            }
        };
        proof {
            assert(rounded as int == eff_size(size));
        }
        let align2: usize = if align < HEADER_SIZE {
            HEADER_SIZE
        } else {
            align
        };
        if self.is_allocated() || !self.can_provide(rounded, align2) {
            return None;
        }
        proof {
            assert(fits(h0, size, align));
            lemma_carve_facts(h0, size, align);
        }
        let end = self.end_addr();
        let raw = end - rounded;
        let allocated_addr = raw - raw % align2;
        let header_for_allocated = Header {
            start: allocated_addr - HEADER_SIZE,
            size: rounded + HEADER_SIZE,
            allocated: true,
        };
        let gap = end - (allocated_addr + rounded);
        let header_for_padding = if gap != 0 {
            Some(Header { start: allocated_addr + rounded, size: gap, allocated: false })
        } else {
            None
        };
        self.size = self.size - (rounded + HEADER_SIZE) - gap;
        proof {
            let t = carve(h0, size, align);
            assert(allocated_addr as int == carve_addr(h0, size, align));
            assert(*self == t[0]);
            assert(header_for_allocated == t[1]);
            if gap != 0 {
                assert(t.len() == 3);
                assert(header_for_padding == Some(t[2]));
            }
        }
        Some((header_for_allocated, header_for_padding, allocated_addr))
    }
}

/// `i` is the first block in the chain that can serve the request.
pub open spec fn is_first_fit(s: Seq<Header>, i: int, size: usize, align: usize) -> bool {
    &&& 0 <= i < s.len()
    &&& fits(s[i], size, align)
    &&& forall|j: int| 0 <= j < i ==> !fits(#[trigger] s[j], size, align)
}

/// Some block in the chain is handed out at `addr` with `size` usable bytes.
pub open spec fn is_live(s: Seq<Header>, addr: int, size: int) -> bool {
    exists|i: int|
        0 <= i < s.len() && (#[trigger] s[i]).allocated && s[i].user_addr() == addr
            && s[i].user_size() == size
}

/// The chain with the block at position `i` replaced by the blocks in `t`.
pub open spec fn splice(s: Seq<Header>, i: int, t: Seq<Header>) -> Seq<Header> {
    s.subrange(0, i) + t + s.subrange(i + 1, s.len() as int)
}

/// Replacing one block by well-formed, mutually disjoint blocks that lie
/// within the old block's span keeps the whole chain well-formed and its
/// spans mutually disjoint.
pub proof fn lemma_splice_keeps_chain(s: Seq<Header>, i: int, t: Seq<Header>)
    requires
        headers_wf(s),
        pairwise_disjoint(s),
        0 <= i < s.len(),
        headers_wf(t),
        pairwise_disjoint(t),
        forall|k: int| 0 <= k < t.len() ==> s[i].start <= (#[trigger] t[k]).start && t[k].end() <= s[i].end(),
    ensures
        headers_wf(splice(s, i, t)),
        pairwise_disjoint(splice(s, i, t)),
        splice(s, i, t).len() == s.len() + t.len() - 1,
{
    let r = splice(s, i, t);
    let tl = t.len() as int;
    let sl = s.len() as int;
    assert(r.len() == sl + tl - 1);
    assert forall|m: int| 0 <= m < r.len() implies (#[trigger] r[m]).wf() by {
        if m < i {
            assert(r[m] == s[m]);
        } else if m < i + tl {
            assert(r[m] == t[m - i]);
        } else {
            assert(r[m] == s[m - tl + 1]);
        }
    }
    assert forall|m: int, n: int| #![trigger r[m], r[n]] 0 <= m < n < r.len() implies hdr_disjoint(
        r[m],
        r[n],
    ) by {
        if n < i {
            assert(r[m] == s[m] && r[n] == s[n]);
            assert(hdr_disjoint(s[m], s[n]));
        } else if i + tl <= m {
            assert(r[m] == s[m - tl + 1] && r[n] == s[n - tl + 1]);
            assert(hdr_disjoint(s[m - tl + 1], s[n - tl + 1]));
        } else if m < i && i + tl <= n {
            assert(r[m] == s[m] && r[n] == s[n - tl + 1]);
            assert(hdr_disjoint(s[m], s[n - tl + 1]));
        } else if m < i && i <= n < i + tl {
            assert(r[m] == s[m] && r[n] == t[n - i]);
            assert(hdr_disjoint(s[m], s[i]));
        } else if i <= m < i + tl && i + tl <= n {
            assert(r[m] == t[m - i] && r[n] == s[n - tl + 1]);
            assert(hdr_disjoint(s[i], s[n - tl + 1]));
        } else {
            assert(i <= m < n < i + tl);
            assert(r[m] == t[m - i] && r[n] == t[n - i]);
            assert(hdr_disjoint(t[m - i], t[n - i]));
        }
    }
}

/// The allocator: a single chain of block headers, walked first-fit.
/// The chain is seeded once from the boot memory map and only ever grows
/// by splitting blocks in place.
pub struct FirstFitAllocator {
    headers: Vec<Header>,
    initialized: bool,
}

impl FirstFitAllocator {
    /// The chain of block headers, in chain order.
    pub closed spec fn chain(&self) -> Seq<Header> {
        self.headers@
    }

    /// Whether the one-time initialization from the memory map has run.
    pub closed spec fn is_initialized(&self) -> bool {
        self.initialized
    }

    /// Chain invariant: every header is well-formed and no two blocks'
    /// byte ranges overlap.
    pub open spec fn wf(&self) -> bool {
        &&& headers_wf(self.chain())
        &&& pairwise_disjoint(self.chain())
    }

    /// An allocator with an empty chain, not yet initialized.
    pub fn new() -> (r: Self)
        ensures
            r.wf(),
            r.chain().len() == 0,
            !r.is_initialized(),
    {
        FirstFitAllocator { headers: Vec::new(), initialized: false }
    }

    /// Serves an allocation request: walks the chain from its head and
    /// carves the request out of the first free block that can provide it,
    /// or returns `None` when no block can (out of memory). A returned
    /// address is nonzero, aligned to `align`, backed by the full rounded
    /// size, and disjoint from every other live allocation.
    pub fn alloc_with_options(&mut self, size: usize, align: usize) -> (r: Option<usize>)
        requires
            old(self).wf(),
            align >= 1,
            is_pow2(align as int),
        ensures
            final(self).wf(),
            final(self).is_initialized() == old(self).is_initialized(),
            (r is Some) <==> (exists|i: int|
                0 <= i < old(self).chain().len() && fits(
                    #[trigger] old(self).chain()[i],
                    size,
                    align,
                )),
            r is None ==> final(self).chain() == old(self).chain(),
            forall|i: int|
                is_first_fit(old(self).chain(), i, size, align) ==> r == Some(
                    (carve_addr(old(self).chain()[i], size, align) as usize),
                ) && final(self).chain() == splice(
                    old(self).chain(),
                    i,
                    carve(old(self).chain()[i], size, align),
                ),
            r matches Some(addr) ==> addr as int % align as int == 0 && addr != 0,
            r matches Some(addr) ==> is_live(final(self).chain(), addr as int, eff_size(size)),
            r matches Some(addr) ==> forall|sz: int| !is_live(old(self).chain(), addr as int, sz),
            forall|ad: int, sz: int|
                is_live(old(self).chain(), ad, sz) ==> is_live(final(self).chain(), ad, sz),
            forall|ad: int, sz: int|
                is_live(final(self).chain(), ad, sz) ==> is_live(old(self).chain(), ad, sz) || (
                r matches Some(addr) && ad == addr && sz == eff_size(size)),
    {
        let ghost s0 = self.headers@;
        let mut i: usize = 0;
        while i < self.headers.len()
            invariant
                *self == *old(self),
                self.headers@ == s0,
                old(self).wf(),
                align >= 1,
                is_pow2(align as int),
                0 <= i <= s0.len(),
                forall|j: int| 0 <= j < i ==> !fits(#[trigger] s0[j], size, align),
            decreases s0.len() - i,
        {
            let mut h = self.headers[i];
            let res = h.provide(size, align);
            match res {
                Some((header_for_allocated, header_for_padding, addr)) => {
                    proof {
                        assert(fits(s0[i as int], size, align));
                        lemma_carve_facts(s0[i as int], size, align);
                    }
                    *vstd::std_specs::vec::vec_index_mut(&mut self.headers, i) = h;
                    match header_for_padding {
                        Some(p) => self.headers.insert(i + 1, p),
                        None => (),
                    }
                    self.headers.insert(i + 1, header_for_allocated);
                    proof {
                        let gi = i as int;
                        let t = carve(s0[gi], size, align);
                        let c = splice(s0, gi, t);
                        assert(self.headers@ =~= c);
                        lemma_splice_keeps_chain(s0, gi, t);
                        // this block is the unique first fit
                        assert forall|k: int| is_first_fit(s0, k, size, align) implies k == gi by {
                            if k < gi {
                                assert(!fits(s0[k], size, align));
                            }
                            if k > gi {
                                assert(!fits(s0[gi], size, align));
                            }
                        }
                        // the new allocation is live at the returned address
                        let ca = carve_addr(s0[gi], size, align);
                        assert(c[gi + 1] == t[1]);
                        assert(is_live(c, ca, eff_size(size)));
                        // nothing was live at that address before the call
                        assert forall|sz: int| !is_live(s0, ca, sz) by {
                            assert forall|j: int|
                                0 <= j < s0.len() && (#[trigger] s0[j]).allocated implies s0[j].user_addr()
                                != ca by {
                                assert(j != gi);
                                if j < gi {
                                    assert(hdr_disjoint(s0[j], s0[gi]));
                                } else {
                                    assert(hdr_disjoint(s0[gi], s0[j]));
                                }
                            }
                        }
                        // every allocation live before stays live
                        assert forall|ad: int, sz: int| is_live(s0, ad, sz) implies is_live(
                            c,
                            ad,
                            sz,
                        ) by {
                            let j = choose|j: int|
                                0 <= j < s0.len() && (#[trigger] s0[j]).allocated && s0[j].user_addr()
                                    == ad && s0[j].user_size() == sz;
                            assert(j != gi);
                            if j < gi {
                                assert(c[j] == s0[j]);
                            } else {
                                assert(c[j + t.len() - 1] == s0[j]);
                            }
                        }
                        // and nothing else became live
                        assert forall|ad: int, sz: int| is_live(c, ad, sz) implies is_live(
                            s0,
                            ad,
                            sz,
                        ) || (ad == ca && sz == eff_size(size)) by {
                            let j = choose|j: int|
                                0 <= j < c.len() && (#[trigger] c[j]).allocated && c[j].user_addr()
                                    == ad && c[j].user_size() == sz;
                            if j < gi {
                                assert(c[j] == s0[j]);
                            } else if j < gi + t.len() {
                                assert(c[j] == t[j - gi]);
                            } else {
                                assert(c[j] == s0[j - t.len() + 1]);
                            }
                        }
                    }
                    return Some(addr);
                },
                None => (),
            }
            i = i + 1;
        }
        None
    }
}

/// The chain after a deallocation at `addr`: the header owning that user
/// address has its allocation flag cleared; every other header, and the
/// chain structure itself, is untouched. Clearing an already-clear flag
/// changes nothing.
pub open spec fn dealloc_spec(s: Seq<Header>, addr: int) -> Seq<Header> {
    s.map(
        |j: int, h: Header|
            if h.user_addr() == addr {
                Header { start: h.start, size: h.size, allocated: false }
            } else {
                h
            },
    )
}

impl FirstFitAllocator {
    /// Frees the allocation at `addr`: clears the allocation flag on the
    /// header sitting immediately before that address. The header stays
    /// linked in the chain at its position and becomes eligible for reuse.
    /// Freeing an address this allocator never handed out is a protocol
    /// violation and is excluded by the precondition.
    pub fn dealloc(&mut self, addr: usize)
        requires
            old(self).wf(),
            exists|i: int|
                0 <= i < old(self).chain().len() && (#[trigger] old(self).chain()[i]).user_addr()
                    == addr,
        ensures
            final(self).wf(),
            final(self).chain() == dealloc_spec(old(self).chain(), addr as int),
            final(self).is_initialized() == old(self).is_initialized(),
            forall|ad: int, sz: int|
                ad != addr ==> (is_live(final(self).chain(), ad, sz) == is_live(
                    old(self).chain(),
                    ad,
                    sz,
                )),
            forall|sz: int| !is_live(final(self).chain(), addr as int, sz),
    {
        let ghost s0 = self.headers@;
        let ghost c = dealloc_spec(s0, addr as int);
        let mut i: usize = 0;
        while i < self.headers.len()
            invariant
                old(self).wf(),
                self.initialized == old(self).initialized,
                s0 == old(self).headers@,
                self.headers@.len() == s0.len(),
                0 <= i <= s0.len(),
                c == dealloc_spec(s0, addr as int),
                forall|j: int| i <= j < s0.len() ==> self.headers@[j] == s0[j],
                forall|j: int| 0 <= j < i ==> self.headers@[j] == c[j],
            decreases s0.len() - i,
        {
            let h = self.headers[i];
            proof {
                assert(h == s0[i as int]);
                assert(s0[i as int].wf());
            }
            if h.start + HEADER_SIZE == addr {
                *vstd::std_specs::vec::vec_index_mut(&mut self.headers, i) = Header {
                    start: h.start,
                    size: h.size,
                    allocated: false,
                };
            }
            i = i + 1;
        }
        proof {
            assert(self.headers@ =~= c);
            // the spans are untouched, so the chain invariant is kept
            assert forall|m: int| 0 <= m < c.len() implies (#[trigger] c[m]).wf() by {
                assert(s0[m].wf());
            }
            assert forall|m: int, n: int| #![trigger c[m], c[n]] 0 <= m < n < c.len() implies hdr_disjoint(
                c[m],
                c[n],
            ) by {
                assert(hdr_disjoint(s0[m], s0[n]));
            }
            // liveness away from `addr` is unchanged, and `addr` is free
            assert forall|ad: int, sz: int| ad != addr && is_live(s0, ad, sz) implies is_live(
                c,
                ad,
                sz,
            ) by {
                let j = choose|j: int|
                    0 <= j < s0.len() && (#[trigger] s0[j]).allocated && s0[j].user_addr() == ad
                        && s0[j].user_size() == sz;
                assert(c[j] == s0[j]);
            }
            assert forall|ad: int, sz: int| ad != addr && is_live(c, ad, sz) implies is_live(
                s0,
                ad,
                sz,
            ) by {
                let j = choose|j: int|
                    0 <= j < c.len() && (#[trigger] c[j]).allocated && c[j].user_addr() == ad
                        && c[j].user_size() == sz;
                assert(c[j] == s0[j]);
            }
        }
    }
}

/// Deallocation is idempotent: clearing the allocation flag at an address
/// a second time leaves the chain exactly as after the first clear.
pub proof fn lemma_dealloc_idempotent(s: Seq<Header>, addr: int)
    ensures
        dealloc_spec(dealloc_spec(s, addr), addr) == dealloc_spec(s, addr),
{
    assert(dealloc_spec(dealloc_spec(s, addr), addr) =~= dealloc_spec(s, addr));
}

/// No two distinct live allocations overlap: for any well-formed chain,
/// the byte ranges handed out at two different addresses are disjoint.
pub proof fn lemma_live_allocations_disjoint(
    al: &FirstFitAllocator,
    a1: int,
    s1: int,
    a2: int,
    s2: int,
)
    requires
        al.wf(),
        is_live(al.chain(), a1, s1),
        is_live(al.chain(), a2, s2),
        a1 != a2,
    ensures
        a1 + s1 <= a2 || a2 + s2 <= a1,
{
    let c = al.chain();
    let i = choose|i: int|
        0 <= i < c.len() && (#[trigger] c[i]).allocated && c[i].user_addr() == a1
            && c[i].user_size() == s1;
    let j = choose|j: int|
        0 <= j < c.len() && (#[trigger] c[j]).allocated && c[j].user_addr() == a2
            && c[j].user_size() == s2;
    assert(i != j);
    if i < j {
        assert(hdr_disjoint(c[i], c[j]));
    } else {
        assert(hdr_disjoint(c[j], c[i]));
    }
    assert(c[i].wf() && c[j].wf());
}

/// Classification of a firmware-reported memory region. The allocator only
/// distinguishes generally usable RAM from everything else; the paging
/// survey additionally counts the loader's code and data.
#[derive(Clone, Copy, PartialEq, Eq, Structural)]
pub enum MemoryRegionKind {
    UsableRam,
    LoaderCode,
    LoaderData,
    Reserved,
}

/// One descriptor of the boot memory map: a physical address range in
/// 4096-byte pages, with its classification.
#[derive(Clone, Copy)]
pub struct MemoryRegion {
    pub physical_start: u64,
    pub number_of_pages: u64,
    pub kind: MemoryRegionKind,
}

/// First address past the raw byte span a descriptor reports.
pub open spec fn region_raw_end(r: MemoryRegion) -> int {
    r.physical_start + r.number_of_pages * PAGE_SIZE
}

/// The descriptor reports a page-aligned span that fits the address width.
pub open spec fn region_span_ok(r: MemoryRegion) -> bool {
    &&& r.physical_start as int % (PAGE_SIZE as int) == 0
    &&& region_raw_end(r) <= usize::MAX
}

/// The raw spans of two descriptors do not overlap.
pub open spec fn regions_disjoint(r1: MemoryRegion, r2: MemoryRegion) -> bool {
    region_raw_end(r1) <= r2.physical_start || region_raw_end(r2) <= r1.physical_start
}

/// A block's span lies outside the descriptor's raw span.
pub open spec fn region_clear_of(r: MemoryRegion, h: Header) -> bool {
    h.end() <= r.physical_start || region_raw_end(r) <= h.start
}

/// The free block a descriptor contributes, if any: a region starting at
/// address zero loses its first page (address zero is reserved), and a
/// region of at most one page after that is discarded entirely.
pub open spec fn region_block(r: MemoryRegion) -> Option<Header> {
    let start0 = r.physical_start as int;
    let size0 = r.number_of_pages * PAGE_SIZE;
    let start1: int = if start0 == 0 {
        PAGE_SIZE as int
    } else {
        start0
    };
    let size1: int = if start0 == 0 {
        if size0 >= PAGE_SIZE {
            size0 - PAGE_SIZE
        } else {
            0
        }
    } else {
        size0
    };
    if size1 <= PAGE_SIZE {
        Option::None
    } else {
        Option::Some(Header { start: start1 as usize, size: size1 as usize, allocated: false })
    }
}

/// The chain after a descriptor is consumed: its free block, if it
/// contributes one, is prepended to the chain.
pub open spec fn add_free_spec(s: Seq<Header>, r: MemoryRegion) -> Seq<Header> {
    match region_block(r) {
        Option::None => s,
        Option::Some(h) => seq![h] + s,
    }
}

/// The chain seeded from a memory map: descriptors are consumed in order,
/// each usable one prepending its block, so the most recently added region
/// ends up at the head of the chain.
pub open spec fn init_chain(regions: Seq<MemoryRegion>) -> Seq<Header>
    decreases regions.len(),
{
    if regions.len() == 0 {
        Seq::empty()
    } else {
        let prev = init_chain(regions.drop_last());
        if regions.last().kind is UsableRam {
            add_free_spec(prev, regions.last())
        } else {
            prev
        }
    }
}

impl FirstFitAllocator {
    /// Turns one usable descriptor into a free block and prepends it to
    /// the chain: the block becomes the new chain head and its `next` is
    /// the prior head.
    pub fn add_free_from_descriptor(&mut self, desc: &MemoryRegion)
        requires
            old(self).wf(),
            region_span_ok(*desc),
            forall|i: int|
                0 <= i < old(self).chain().len() ==> region_clear_of(
                    *desc,
                    #[trigger] old(self).chain()[i],
                ),
        ensures
            final(self).wf(),
            final(self).chain() == add_free_spec(old(self).chain(), *desc),
            final(self).is_initialized() == old(self).is_initialized(),
    {
        let ghost s0 = self.headers@;
        let mut start_addr: usize = desc.physical_start as usize;
        let mut size: usize = (desc.number_of_pages as usize) * PAGE_SIZE;
        if start_addr == 0 {
            // address zero is reserved: skip the first page
            start_addr = start_addr + PAGE_SIZE;
            size = size.saturating_sub(PAGE_SIZE);
        }
        if size <= PAGE_SIZE {
            // too small to hold a header and still be useful
            return ;
        }
        let header = Header { start: start_addr, size, allocated: false };
        self.headers.insert(0, header);
        proof {
            assert(self.headers@ =~= seq![header] + s0);
            assert(region_block(*desc) == Option::Some(header));
            let c = self.headers@;
            // the new block is well-formed
            let ps = PAGE_SIZE as int;
            let hs = HEADER_SIZE as int;
            assert(ps % hs == 0);
            if desc.physical_start == 0 {
                lemma_mod_self_0(ps);
            }
            assert(start_addr as int % ps == 0);
            assert(start_addr >= PAGE_SIZE);
            crate::arith::lemma_mod_transitive(start_addr as int, ps, hs);
            assert((desc.number_of_pages * PAGE_SIZE) as int % ps == 0) by {
                lemma_mod_multiples_basic(desc.number_of_pages as int, ps);
            }
            assert(size as int % ps == 0) by {
                if desc.physical_start == 0 {
                    lemma_mod_sub_zero(desc.number_of_pages * PAGE_SIZE, ps, ps);
                    lemma_mod_self_0(ps);
                }
            }
            crate::arith::lemma_mod_transitive(size as int, ps, hs);
            assert(header.wf());
            // the new block lies within the descriptor's raw span, so it is
            // disjoint from every block already in the chain
            assert(desc.physical_start <= header.start && header.end() <= region_raw_end(*desc));
            assert forall|m: int, n: int| #![trigger c[m], c[n]] 0 <= m < n < c.len() implies hdr_disjoint(
                c[m],
                c[n],
            ) by {
                if m == 0 {
                    assert(c[n] == s0[n - 1]);
                    assert(region_clear_of(*desc, s0[n - 1]));
                } else {
                    assert(c[m] == s0[m - 1] && c[n] == s0[n - 1]);
                    assert(hdr_disjoint(s0[m - 1], s0[n - 1]));
                }
            }
            assert forall|m: int| 0 <= m < c.len() implies (#[trigger] c[m]).wf() by {
                if m > 0 {
                    assert(c[m] == s0[m - 1]);
                }
            }
        }
    }

    /// One-time initialization: consumes the boot memory map and links one
    /// free block per usable region into the chain. Must run exactly once,
    /// before any allocation request; running it twice is a protocol
    /// violation and is excluded by the precondition.
    pub fn init_with_mmap(&mut self, memory_map: &Vec<MemoryRegion>)
        requires
            old(self).wf(),
            !old(self).is_initialized(),
            old(self).chain().len() == 0,
            forall|i: int|
                0 <= i < memory_map@.len() && (#[trigger] memory_map@[i]).kind is UsableRam
                    ==> region_span_ok(memory_map@[i]),
            forall|i: int, j: int|
                #![trigger memory_map@[i], memory_map@[j]]
                0 <= i < j < memory_map@.len() && memory_map@[i].kind is UsableRam
                    && memory_map@[j].kind is UsableRam ==> regions_disjoint(
                    memory_map@[i],
                    memory_map@[j],
                ),
        ensures
            final(self).wf(),
            final(self).is_initialized(),
            final(self).chain() == init_chain(memory_map@),
    {
        let ghost mm = memory_map@;
        let mut i: usize = 0;
        while i < memory_map.len()
            invariant
                self.wf(),
                !self.is_initialized(),
                0 <= i <= mm.len(),
                mm == memory_map@,
                self.chain() == init_chain(mm.subrange(0, i as int)),
                forall|k: int|
                    0 <= k < mm.len() && (#[trigger] mm[k]).kind is UsableRam ==> region_span_ok(
                        mm[k],
                    ),
                forall|k: int, l: int|
                    #![trigger mm[k], mm[l]]
                    0 <= k < l < mm.len() && mm[k].kind is UsableRam && mm[l].kind is UsableRam
                        ==> regions_disjoint(mm[k], mm[l]),
                forall|k: int|
                    0 <= k < self.chain().len() ==> exists|j: int|
                        0 <= j < i && mm[j].kind is UsableRam && within_region(
                            #[trigger] self.chain()[k],
                            mm[j],
                        ),
            decreases mm.len() - i,
        {
            let ghost prev = self.chain();
            let e = memory_map[i];
            if e.kind == MemoryRegionKind::UsableRam {
                proof {
                    assert forall|k: int|
                        0 <= k < self.chain().len() implies region_clear_of(
                        e,
                        #[trigger] self.chain()[k],
                    ) by {
                        let j = choose|j: int|
                            0 <= j < i && mm[j].kind is UsableRam && within_region(
                                self.chain()[k],
                                mm[j],
                            );
                        assert(regions_disjoint(mm[j], e));
                    }
                }
                self.add_free_from_descriptor(&e);
            }
            i = i + 1;
            proof {
                assert(mm.subrange(0, i as int).drop_last() =~= mm.subrange(0, i - 1));
                assert(mm.subrange(0, i as int).last() == mm[i - 1]);
                assert(self.chain() == init_chain(mm.subrange(0, i as int)));
                assert forall|k: int| 0 <= k < self.chain().len() implies exists|j: int|
                    0 <= j < i && mm[j].kind is UsableRam && within_region(
                        #[trigger] self.chain()[k],
                        mm[j],
                    ) by {
                    if mm[i - 1].kind is UsableRam && region_block(mm[i - 1]) is Some {
                        if k == 0 {
                            assert(within_region(self.chain()[0], mm[i - 1]));
                        } else {
                            assert(self.chain()[k] == prev[k - 1]);
                            let j = choose|j: int|
                                0 <= j < i - 1 && mm[j].kind is UsableRam && within_region(
                                    prev[k - 1],
                                    mm[j],
                                );
                            assert(within_region(self.chain()[k], mm[j]));
                        }
                    } else {
                        assert(self.chain()[k] == prev[k]);
                        let j = choose|j: int|
                            0 <= j < i - 1 && mm[j].kind is UsableRam && within_region(
                                prev[k],
                                mm[j],
                            );
                        assert(within_region(self.chain()[k], mm[j]));
                    }
                }
            }
        }
        proof {
            assert(mm.subrange(0, mm.len() as int) =~= mm);
        }
        self.initialized = true;
    }
}

/// A block's span lies within the descriptor's raw span.
pub open spec fn within_region(h: Header, r: MemoryRegion) -> bool {
    r.physical_start <= h.start && h.end() <= region_raw_end(r)
}

} // verus!
