//! Free-list heap allocator.
//!
//! The allocator keeps a list of free regions in last-in-first-out order and
//! serves requests first-fit.  Each free region is described by a node that
//! records its start address and size; on the machine each node lives inline
//! in the free memory it describes, so a node's position in the list stands
//! for that structural link, and the list order is the scan order.  A ghost set of currently-live allocations lets the
//! invariant state that no two live allocations overlap and that free regions
//! never overlap a live allocation.
//!
//! Addresses and sizes are 64-bit values, as on the target machine.
use vstd::prelude::*;

verus! {

/// Start of the virtual address range that the memory manager commits to the
/// heap before `init` is called.
pub const HEAP_START: u64 = 0x4444_4444_0000;
/// Heap size in bytes.
pub const HEAP_SIZE: u64 = 100 * 1024;

/// Size in bytes of one free-list node header; every free region must be able
/// to host one.
pub const NODE_SIZE: u64 = 16;
/// Address alignment required of every free-list node.
pub const NODE_ALIGN: u64 = 8;

/// The smallest multiple of `align` that is at least `addr`.
pub open spec fn spec_align_up(addr: int, align: int) -> int
    recommends
        align >= 1,
{
    if addr % align == 0 {
        addr
    } else {
        addr + (align - addr % align)
    }
}

/// Rounds `addr` up to the next multiple of `align`.
pub fn align_up(addr: u64, align: u64) -> (r: u64)
    requires
        align >= 1,
        addr + align - 1 <= u64::MAX,
    ensures
        r == spec_align_up(addr as int, align as int),
        r % align == 0,
        addr <= r < addr + align,
{
    let rem = addr % align;
    if rem == 0 {
        addr
    } else {
        proof {
            lemma_align_up_aligned(addr as int, align as int);
        }
        addr + (align - rem)
    }
}

/// The rounded-up address is a multiple of the alignment and lies within one
/// alignment step of the given address.
proof fn lemma_align_up_aligned(addr: int, align: int)
    requires
        align >= 1,
        addr >= 0,
    ensures
        spec_align_up(addr, align) % align == 0,
        addr <= spec_align_up(addr, align) < addr + align,
{
    if addr % align != 0 {
        let r = addr + (align - addr % align);
        assert(r % align == 0) by (nonlinear_arith)
            requires
                align >= 1,
                addr >= 0,
                r == addr + (align - addr % align),
        ;
    }
}

/// One free region: `size` bytes starting at `addr`.
#[derive(Debug, Clone, Copy, PartialEq, Eq, Structural)]
pub struct ListNode {
    pub size: u64,
    pub addr: u64,
}

impl ListNode {
    /// A node describing `size` bytes of free memory at `addr`.
    pub fn new(addr: u64, size: u64) -> (r: ListNode)
        ensures
            r.addr == addr,
            r.size == size,
    {
        ListNode { size, addr }
    }

    /// First address of the region.
    pub fn start_addr(&self) -> (r: u64)
        ensures
            r == self.addr,
    {
        self.addr
    }

    /// One past the last address of the region.
    pub fn end_addr(&self) -> (r: u64)
        requires
            self.addr + self.size <= u64::MAX,
        ensures
            r == self.addr + self.size,
    {
        self.addr + self.size
    }
}

/// Two byte ranges `[a1, a1 + s1)` and `[a2, a2 + s2)` do not overlap.
pub open spec fn regions_disjoint(a1: int, s1: int, a2: int, s2: int) -> bool {
    a1 + s1 <= a2 || a2 + s2 <= a1
}

/// A free node is aligned, can host a node header, and lies inside the heap.
pub open spec fn node_inv(n: ListNode, heap_start: int, heap_end: int) -> bool {
    &&& heap_start <= n.addr as int
    &&& n.addr + n.size <= heap_end
    &&& n.size >= NODE_SIZE
    &&& n.addr as int % NODE_ALIGN as int == 0
}

/// A live allocation is inside the heap, can later host a node header when it
/// is freed, and starts at a node-aligned address.
pub open spec fn live_inv(r: (int, int), heap_start: int, heap_end: int) -> bool {
    &&& heap_start <= r.0
    &&& r.0 + r.1 <= heap_end
    &&& r.1 >= NODE_SIZE
    &&& r.0 % NODE_ALIGN as int == 0
}

/// The free-list allocator.  `free` is the list of free regions in scan
/// order; the head of the linked list is index 0.  The heap bounds
/// and the set of live allocations are ghost state used only by the
/// specification.
pub struct LinkedListAlloc {
    free: Vec<ListNode>,
    initialized: bool,
    heap_lo: Ghost<int>,
    heap_hi: Ghost<int>,
    live: Ghost<Set<(int, int)>>,
}

impl LinkedListAlloc {
    /// The free regions, in scan order.
    pub closed spec fn free_list(self) -> Seq<ListNode> {
        self.free@
    }

    /// Whether `init` has run.
    pub closed spec fn is_initialized(self) -> bool {
        self.initialized
    }

    /// First heap address.
    pub closed spec fn heap_start(self) -> int {
        self.heap_lo@
    }

    /// One past the last heap address.
    pub closed spec fn heap_end(self) -> int {
        self.heap_hi@
    }

    /// The currently-live allocations, as (address, size) pairs.
    pub closed spec fn live_set(self) -> Set<(int, int)> {
        self.live@
    }

    /// Allocator invariant: free nodes are well-formed and pairwise disjoint,
    /// live allocations are well-formed and pairwise disjoint, and no free
    /// node overlaps a live allocation.
    pub closed spec fn wf(self) -> bool {
        &&& !self.initialized ==> self.free@.len() == 0 && self.live@ =~= Set::<(int, int)>::empty()
        &&& self.initialized ==> 0 <= self.heap_lo@ <= self.heap_hi@ <= u64::MAX as int
        &&& forall|i: int|
            0 <= i < self.free@.len() ==> node_inv(
                #[trigger] self.free@[i],
                self.heap_lo@,
                self.heap_hi@,
            )
        &&& forall|i: int, j: int|
            0 <= i < j < self.free@.len() ==> regions_disjoint(
                #[trigger] self.free@[i].addr as int,
                self.free@[i].size as int,
                #[trigger] self.free@[j].addr as int,
                self.free@[j].size as int,
            )
        &&& forall|r: (int, int)|
            #[trigger] self.live@.contains(r) ==> live_inv(r, self.heap_lo@, self.heap_hi@)
        &&& forall|r1: (int, int), r2: (int, int)|
            self.live@.contains(r1) && self.live@.contains(r2) && r1 != r2 ==> regions_disjoint(
                r1.0,
                r1.1,
                r2.0,
                r2.1,
            )
        &&& forall|r: (int, int), i: int|
            #[trigger] self.live@.contains(r) && 0 <= i < self.free@.len() ==> regions_disjoint(
                r.0,
                r.1,
                #[trigger] self.free@[i].addr as int,
                self.free@[i].size as int,
            )
    }

    /// An empty allocator; `init` must run before it can serve requests.
    pub fn new() -> (r: Self)
        ensures
            r.wf(),
            !r.is_initialized(),
            r.free_list().len() == 0,
            r.live_set() =~= Set::<(int, int)>::empty(),
    {
        LinkedListAlloc {
            free: Vec::new(),
            initialized: false,
            heap_lo: Ghost(0),
            heap_hi: Ghost(0),
            live: Ghost(Set::empty()),
        }
    }

    /// Seeds the free list with the single region spanning the whole heap.
    /// Must be called exactly once, before any allocation.
    pub fn init(&mut self, heap_start: u64, heap_size: u64)
        requires
            old(self).wf(),
            !old(self).is_initialized(),
            heap_start as int % NODE_ALIGN as int == 0,
            heap_size >= NODE_SIZE,
            heap_start + heap_size <= u64::MAX,
        ensures
            final(self).wf(),
            final(self).is_initialized(),
            final(self).heap_start() == heap_start as int,
            final(self).heap_end() == heap_start + heap_size,
            final(self).free_list() =~= seq![ListNode { size: heap_size, addr: heap_start }],
            final(self).live_set() =~= Set::<(int, int)>::empty(),
    {
        self.initialized = true;
        self.heap_lo = Ghost(heap_start as int);
        self.heap_hi = Ghost(heap_start + heap_size);
        self.add_free_region(heap_start, heap_size);
    }

    /// Pushes the region `[addr, addr + size)` onto the head of the free
    /// list; on the machine this writes the node header into the freed
    /// memory itself, which is why the region must be able to host one.
    fn add_free_region(&mut self, addr: u64, size: u64)
        requires
            old(self).wf(),
            old(self).is_initialized(),
            addr as int % NODE_ALIGN as int == 0,
            size >= NODE_SIZE,
            old(self).heap_start() <= addr as int,
            addr + size <= old(self).heap_end(),
            forall|i: int|
                0 <= i < old(self).free_list().len() ==> regions_disjoint(
                    addr as int,
                    size as int,
                    #[trigger] old(self).free_list()[i].addr as int,
                    old(self).free_list()[i].size as int,
                ),
            forall|r: (int, int)|
                old(self).live_set().contains(r) ==> regions_disjoint(
                    addr as int,
                    size as int,
                    r.0,
                    r.1,
                ),
        ensures
            final(self).wf(),
            final(self).free_list() =~= seq![ListNode { size, addr }].add(old(self).free_list()),
            final(self).is_initialized() == old(self).is_initialized(),
            final(self).heap_start() == old(self).heap_start(),
            final(self).heap_end() == old(self).heap_end(),
            final(self).live_set() == old(self).live_set(),
    {
        let node = ListNode::new(addr, size);
        self.free.insert(0, node);
        proof {
            assert(self.free@ =~= seq![ListNode { size, addr }].add(old(self).free@));
            assert forall|i: int|
                0 <= i < self.free@.len() implies node_inv(
                #[trigger] self.free@[i],
                self.heap_lo@,
                self.heap_hi@,
            ) by {
                if i > 0 {
                    assert(self.free@[i] == old(self).free@[i - 1]);
                }
            }
            assert forall|i: int, j: int| 0 <= i < j < self.free@.len() implies regions_disjoint(
                self.free@[i].addr as int,
                self.free@[i].size as int,
                self.free@[j].addr as int,
                self.free@[j].size as int,
            ) by {
                assert(self.free@[j] == old(self).free@[j - 1]);
                if i == 0 {
                    assert(regions_disjoint(
                        addr as int,
                        size as int,
                        old(self).free_list()[j - 1].addr as int,
                        old(self).free_list()[j - 1].size as int,
                    ));
                } else {
                    assert(self.free@[i] == old(self).free@[i - 1]);
                    assert(regions_disjoint(
                        old(self).free@[i - 1].addr as int,
                        old(self).free@[i - 1].size as int,
                        old(self).free@[j - 1].addr as int,
                        old(self).free@[j - 1].size as int,
                    ));
                }
            }
            assert forall|r: (int, int), i: int|
                self.live@.contains(r) && 0 <= i < self.free@.len() implies regions_disjoint(
                r.0,
                r.1,
                self.free@[i].addr as int,
                self.free@[i].size as int,
            ) by {
                assert(old(self).live_set().contains(r));
                if i == 0 {
                    assert(regions_disjoint(addr as int, size as int, r.0, r.1));
                } else {
                    assert(self.free@[i] == old(self).free@[i - 1]);
                    assert(old(self).live@.contains(r) && 0 <= i - 1 < old(self).free@.len());
                    assert(regions_disjoint(
                        r.0,
                        r.1,
                        old(self).free@[i - 1].addr as int,
                        old(self).free@[i - 1].size as int,
                    ));
                }
            }
        }
    }
}

/// `n` is a power of two.
pub open spec fn is_power_of_2(n: int) -> bool
    decreases n,
{
    if n <= 0 {
        false
    } else if n == 1 {
        true
    } else if n % 2 != 0 {
        false
    } else {
        is_power_of_2(n / 2)
    }
}

/// A power of two that is at most 8 divides 8.
proof fn lemma_small_pow2_divides_8(a: int)
    requires
        is_power_of_2(a),
        a <= 8,
    ensures
        8int % a == 0,
{
    reveal_with_fuel(is_power_of_2, 3);
    if a <= 0 {
        assert(false);
    } else if a == 3 || a == 5 || a == 7 {
        assert(a % 2 != 0);
        assert(false);
    } else if a == 6 {
        assert(is_power_of_2(3int));
        assert(false);
    } else {
        assert(a == 1 || a == 2 || a == 4 || a == 8);
        if a == 1 {
            assert(8int % 1int == 0);
        } else if a == 2 {
            assert(8int % 2int == 0);
        } else if a == 4 {
            assert(8int % 4int == 0);
        } else {
            assert(8int % 8int == 0);
        }
    }
}

/// A power of two that is at least 8 is a multiple of 8.
proof fn lemma_pow2_ge8_multiple_of_8(b: int)
    requires
        is_power_of_2(b),
        b >= 8,
    ensures
        b % 8int == 0,
    decreases b,
{
    if b == 8 {
    } else {
        assert(b % 2 == 0 && is_power_of_2(b / 2));
        if b / 2 < 8 {
            lemma_small_pow2_divides_8(b / 2);
            assert(b / 2 == 1 || b / 2 == 2 || b / 2 == 4 || b / 2 == 8) by (nonlinear_arith)
                requires
                    8int % (b / 2) == 0,
                    1 <= b / 2 <= 8,
            ;
            assert(false);
        }
        lemma_pow2_ge8_multiple_of_8(b / 2);
        assert(b % 8 == 0) by (nonlinear_arith)
            requires
                (b / 2) % 8int == 0,
                b % 2 == 0,
        ;
    }
}

/// Divisibility is transitive: a multiple of `b` is a multiple of every
/// divisor of `b`.
proof fn lemma_mod_transitive(x: int, b: int, a: int)
    requires
        x % b == 0,
        b % a == 0,
        a >= 1,
        b >= 1,
        x >= 0,
    ensures
        x % a == 0,
{
    let k = x / b;
    let m = b / a;
    vstd::arithmetic::div_mod::lemma_fundamental_div_mod(x, b);
    vstd::arithmetic::div_mod::lemma_fundamental_div_mod(b, a);
    assert(x == (m * k) * a) by (nonlinear_arith)
        requires
            x == b * k,
            b == a * m,
    ;
    vstd::arithmetic::div_mod::lemma_mod_multiples_basic(m * k, a);
}

/// The normalized (size, alignment) of a request: the alignment is raised to
/// at least the node alignment, the size is padded to a multiple of the
/// alignment and raised to at least one node header, so that any allocated
/// region can later be reinserted as a free node.
pub open spec fn spec_size_align(size: int, align: int) -> (int, int) {
    let a = if align < NODE_ALIGN as int {
        NODE_ALIGN as int
    } else {
        align
    };
    let padded = spec_align_up(size, a);
    let s = if padded < NODE_SIZE as int {
        NODE_SIZE as int
    } else {
        padded
    };
    (s, a)
}

/// A request of `size` bytes at alignment `align` fits into the free region
/// `region`: the aligned start leaves room for `size` bytes, and the
/// remaining tail (the overhang) is either empty or large enough to host a
/// free-list node.
pub open spec fn spec_fits(region: ListNode, size: int, align: int) -> bool {
    let start = spec_align_up(region.addr as int, align);
    let end = start + size;
    &&& end <= region.addr + region.size
    &&& (region.addr + region.size - end == 0 || region.addr + region.size - end >= NODE_SIZE as int)
}

/// Index of the first node at or after position `i` that fits the request.
pub open spec fn first_fit_from(nodes: Seq<ListNode>, size: int, align: int, i: int) -> Option<int>
    decreases nodes.len() - i,
{
    if i < 0 || i >= nodes.len() {
        None::<int>
    } else if spec_fits(nodes[i], size, align) {
        Some(i)
    } else {
        first_fit_from(nodes, size, align, i + 1)
    }
}

/// Index of the first node of the list that fits the request ("first-fit").
pub open spec fn first_fit(nodes: Seq<ListNode>, size: int, align: int) -> Option<int> {
    first_fit_from(nodes, size, align, 0)
}

impl LinkedListAlloc {
    /// Normalizes a request so that the allocated region can itself host a
    /// free-list node when it is later freed.
    pub fn size_align(size: u64, align: u64) -> (r: (u64, u64))
        requires
            align >= 1,
            is_power_of_2(align as int),
            size <= 0x1000_0000_0000_0000,
            align <= 0x1000_0000_0000_0000,
        ensures
            r.0 == spec_size_align(size as int, align as int).0,
            r.1 == spec_size_align(size as int, align as int).1,
            r.0 >= NODE_SIZE,
            r.0 >= size,
            r.1 >= NODE_ALIGN,
            r.0 as int % NODE_ALIGN as int == 0,
            r.1 as int % NODE_ALIGN as int == 0,
            r.1 as int % align as int == 0,
            r.0 as int % r.1 as int == 0 || r.0 == NODE_SIZE,
    {
        let a = if align < NODE_ALIGN {
            NODE_ALIGN
        } else {
            align
        };
        proof {
            if align < NODE_ALIGN {
                lemma_small_pow2_divides_8(align as int);
            } else {
                lemma_pow2_ge8_multiple_of_8(align as int);
            }
            vstd::arithmetic::div_mod::lemma_mod_self_0(a as int);
            lemma_align_up_aligned(size as int, a as int);
        }
        let padded = align_up(size, a);
        let s = if padded < NODE_SIZE {
            NODE_SIZE
        } else {
            padded
        };
        proof {
            if s != NODE_SIZE {
                lemma_mod_transitive(s as int, a as int, NODE_ALIGN as int);
            }
        }
        (s, a)
    }

    /// Decides whether the request fits into `region`, and if so at which
    /// address: the region's start rounded up to the alignment.
    pub fn alloc_from_region(region: &ListNode, size: u64, align: u64) -> (r: Result<u64, ()>)
        requires
            align >= 1,
            region.addr + region.size <= u64::MAX,
        ensures
            r is Ok <==> spec_fits(*region, size as int, align as int),
            r matches Ok(start) ==> start == spec_align_up(region.addr as int, align as int),
    {
        proof {
            lemma_align_up_aligned(region.addr as int, align as int);
        }
        let rem = region.addr % align;
        let start = if rem == 0 {
            region.addr
        } else {
            let pad = align - rem;
            if region.size < pad {
                return Err(());
            }
            region.addr + pad
        };
        let region_end = region.addr + region.size;
        let avail = region_end - start;
        if size > avail {
            return Err(());
        }
        let end = start + size;
        let overhang = region_end - end;
        if overhang > 0 && overhang < NODE_SIZE {
            return Err(());
        }
        Ok(start)
    }

    /// Scans the free list head to tail and removes and returns the first
    /// node that fits the request, together with the aligned start address of
    /// the allocation inside it.
    pub fn find_region(&mut self, size: u64, align: u64) -> (r: Option<(ListNode, u64)>)
        requires
            old(self).wf(),
            old(self).is_initialized(),
            align >= 1,
        ensures
            final(self).wf(),
            final(self).is_initialized(),
            final(self).heap_start() == old(self).heap_start(),
            final(self).heap_end() == old(self).heap_end(),
            final(self).live_set() == old(self).live_set(),
            r is Some <==> first_fit(old(self).free_list(), size as int, align as int) is Some,
            r is None ==> final(self).free_list() == old(self).free_list(),
            r matches Some((node, start)) ==> {
                let i = first_fit(old(self).free_list(), size as int, align as int)->Some_0;
                &&& 0 <= i < old(self).free_list().len()
                &&& node == old(self).free_list()[i]
                &&& spec_fits(node, size as int, align as int)
                &&& start == spec_align_up(node.addr as int, align as int)
                &&& final(self).free_list() == old(self).free_list().remove(i)
            },
    {
        let ghost gsize = size as int;
        let ghost galign = align as int;
        let mut i: usize = 0;
        while i < self.free.len()
            invariant
                old(self).wf(),
                old(self).is_initialized(),
                align >= 1,
                gsize == size as int,
                galign == align as int,
                0 <= i <= self.free@.len(),
                self.free@ == old(self).free@,
                self.initialized == old(self).initialized,
                self.heap_lo@ == old(self).heap_lo@,
                self.heap_hi@ == old(self).heap_hi@,
                self.live@ == old(self).live@,
                first_fit(old(self).free_list(), gsize, galign) == first_fit_from(
                    old(self).free_list(),
                    gsize,
                    galign,
                    i as int,
                ),
            decreases self.free@.len() - i,
        {
            let node_ref = &self.free[i];
            let attempt = LinkedListAlloc::alloc_from_region(node_ref, size, align);
            match attempt {
                Ok(start) => {
                    proof {
                        assert(spec_fits(old(self).free_list()[i as int], gsize, galign));
                        assert(first_fit_from(old(self).free_list(), gsize, galign, i as int)
                            == Some(i as int));
                    }
                    let node = self.free.remove(i);
                    proof {
                        lemma_remove_keeps_wf(*old(self), *self, i as int);
                    }
                    return Some((node, start));
                },
                Err(()) => {
                    proof {
                        assert(!spec_fits(old(self).free_list()[i as int], gsize, galign));
                        assert(first_fit_from(old(self).free_list(), gsize, galign, i as int)
                            == first_fit_from(old(self).free_list(), gsize, galign, i as int + 1));
                    }
                    i = i + 1;
                },
            }
        }
        None
    }
}

/// The sum of two multiples of `m` is a multiple of `m`.
proof fn lemma_mod_add_zero(x: int, y: int, m: int)
    requires
        x % m == 0,
        y % m == 0,
        m >= 1,
        x >= 0,
        y >= 0,
    ensures
        (x + y) % m == 0,
{
    let k = x / m;
    let l = y / m;
    vstd::arithmetic::div_mod::lemma_fundamental_div_mod(x, m);
    vstd::arithmetic::div_mod::lemma_fundamental_div_mod(y, m);
    assert(x + y == (k + l) * m) by (nonlinear_arith)
        requires
            x == m * k,
            y == m * l,
    ;
    vstd::arithmetic::div_mod::lemma_mod_multiples_basic(k + l, m);
}

impl LinkedListAlloc {
    /// Serves an allocation request of `layout_size` bytes at alignment
    /// `layout_align` (a power of two).  The request is normalized as
    /// `spec_size_align` describes, the free list is scanned first-fit, the
    /// accepted node is removed, and a non-empty overhang is reinserted at
    /// the head of the list.  Returns the address of the allocation, or
    /// `None` when no free node fits — never an address outside the heap.
    pub fn allocate(&mut self, layout_size: u64, layout_align: u64) -> (r: Option<u64>)
        requires
            old(self).wf(),
            old(self).is_initialized(),
            layout_align >= 1,
            is_power_of_2(layout_align as int),
            layout_size <= 0x1000_0000_0000_0000,
            layout_align <= 0x1000_0000_0000_0000,
        ensures
            final(self).wf(),
            final(self).is_initialized(),
            final(self).heap_start() == old(self).heap_start(),
            final(self).heap_end() == old(self).heap_end(),
            ({
                let norm = spec_size_align(layout_size as int, layout_align as int);
                let nsize = norm.0;
                let nalign = norm.1;
                match first_fit(old(self).free_list(), nsize, nalign) {
                    None => {
                        &&& r is None
                        &&& final(self).free_list() == old(self).free_list()
                        &&& final(self).live_set() == old(self).live_set()
                    },
                    Some(i) => {
                        let node = old(self).free_list()[i];
                        let a = spec_align_up(node.addr as int, nalign);
                        let overhang = node.addr + node.size - (a + nsize);
                        &&& r == Some(a as u64)
                        &&& a % nalign == 0
                        &&& a % layout_align as int == 0
                        &&& old(self).heap_start() <= a
                        &&& a + nsize <= old(self).heap_end()
                        &&& nsize >= layout_size
                        &&& final(self).live_set() == old(self).live_set().insert((a, nsize))
                        &&& (overhang == 0 ==> final(self).free_list() == old(
                            self,
                        ).free_list().remove(i))
                        &&& (overhang > 0 ==> final(self).free_list() == seq![
                            ListNode { size: overhang as u64, addr: (a + nsize) as u64 },
                        ].add(old(self).free_list().remove(i)))
                    },
                }
            }),
    {
        let ghost pre = *old(self);
        let (size, align) = Self::size_align(layout_size, layout_align);
        proof {
            lemma_mod_transitive(align as int, align as int, layout_align as int);
        }
        match self.find_region(size, align) {
            Some((region, alloc_start)) => {
                proof {
                    let i = first_fit(pre.free_list(), size as int, align as int)->Some_0;
                    assert(region == pre.free_list()[i]);
                    assert(node_inv(pre.free_list()[i], pre.heap_start(), pre.heap_end()));
                    lemma_align_up_aligned(region.addr as int, align as int);
                    lemma_mod_transitive(
                        alloc_start as int,
                        align as int,
                        layout_align as int,
                    );
                    lemma_mod_transitive(alloc_start as int, align as int, NODE_ALIGN as int);
                }
                let alloc_end = alloc_start + size;
                let overhang = region.end_addr() - alloc_end;
                let ghost mid = *self;
                let ghost i = first_fit(pre.free_list(), size as int, align as int)->Some_0;
                if overhang > 0 {
                    proof {
                        lemma_mod_add_zero(
                            alloc_start as int,
                            size as int,
                            NODE_ALIGN as int,
                        );
                        assert forall|k: int|
                            0 <= k < mid.free_list().len() implies regions_disjoint(
                            alloc_end as int,
                            overhang as int,
                            #[trigger] mid.free_list()[k].addr as int,
                            mid.free_list()[k].size as int,
                        ) by {
                            let k0 = if k < i {
                                k
                            } else {
                                k + 1
                            };
                            assert(mid.free_list()[k] == pre.free_list()[k0]);
                            assert(regions_disjoint(
                                pre.free_list()[i].addr as int,
                                pre.free_list()[i].size as int,
                                pre.free_list()[k0].addr as int,
                                pre.free_list()[k0].size as int,
                            ));
                        }
                        assert forall|rr: (int, int)|
                            mid.live_set().contains(rr) implies regions_disjoint(
                            alloc_end as int,
                            overhang as int,
                            rr.0,
                            rr.1,
                        ) by {
                            assert(pre.live_set().contains(rr));
                            assert(regions_disjoint(
                                rr.0,
                                rr.1,
                                pre.free_list()[i].addr as int,
                                pre.free_list()[i].size as int,
                            ));
                        }
                    }
                    self.add_free_region(alloc_end, overhang);
                }
                proof {
                    let ghost before_live = *self;
                    self.live@ = self.live@.insert((alloc_start as int, size as int));
                    assert(self.free@ == before_live.free@);
                    lemma_live_insert_keeps_wf(
                        before_live,
                        *self,
                        pre,
                        i,
                        alloc_start as int,
                        size as int,
                        overhang as int,
                    );
                }
                Some(alloc_start)
            },
            None => None,
        }
    }
}

impl LinkedListAlloc {
    /// Returns an allocated region to the allocator.  The region is
    /// reinserted at the head of the free list (last-in-first-out), without
    /// coalescing with adjacent free regions.  The request must describe a
    /// currently-live allocation made with the same layout.
    pub fn deallocate(&mut self, ptr: u64, layout_size: u64, layout_align: u64)
        requires
            old(self).wf(),
            old(self).is_initialized(),
            layout_align >= 1,
            is_power_of_2(layout_align as int),
            layout_size <= 0x1000_0000_0000_0000,
            layout_align <= 0x1000_0000_0000_0000,
            old(self).live_set().contains(
                (ptr as int, spec_size_align(layout_size as int, layout_align as int).0),
            ),
        ensures
            final(self).wf(),
            final(self).is_initialized(),
            final(self).heap_start() == old(self).heap_start(),
            final(self).heap_end() == old(self).heap_end(),
            ({
                let nsize = spec_size_align(layout_size as int, layout_align as int).0;
                &&& final(self).free_list() == seq![
                    ListNode { size: nsize as u64, addr: ptr },
                ].add(old(self).free_list())
                &&& final(self).live_set() == old(self).live_set().remove((ptr as int, nsize))
            }),
    {
        let ghost pre = *old(self);
        let (size, _align) = Self::size_align(layout_size, layout_align);
        proof {
            let freed = (ptr as int, size as int);
            assert(pre.live_set().contains(freed));
            assert(live_inv(freed, pre.heap_start(), pre.heap_end()));
            self.live@ = self.live@.remove(freed);
            assert forall|r: (int, int)|
                #[trigger] self.live_set().contains(r) implies live_inv(
                r,
                self.heap_start(),
                self.heap_end(),
            ) by {
                assert(pre.live_set().contains(r));
            }
            assert forall|r1: (int, int), r2: (int, int)|
                self.live_set().contains(r1) && self.live_set().contains(r2) && r1 != r2
                implies regions_disjoint(r1.0, r1.1, r2.0, r2.1) by {
                assert(pre.live_set().contains(r1) && pre.live_set().contains(r2));
            }
            assert forall|r: (int, int), k: int|
                #[trigger] self.live_set().contains(r) && 0 <= k < self.free_list().len()
                implies regions_disjoint(
                r.0,
                r.1,
                #[trigger] self.free_list()[k].addr as int,
                self.free_list()[k].size as int,
            ) by {
                assert(pre.live_set().contains(r) && 0 <= k < pre.free_list().len());
                assert(regions_disjoint(
                    r.0,
                    r.1,
                    pre.free_list()[k].addr as int,
                    pre.free_list()[k].size as int,
                ));
            }
            assert forall|k: int|
                0 <= k < self.free_list().len() implies regions_disjoint(
                ptr as int,
                size as int,
                #[trigger] self.free_list()[k].addr as int,
                self.free_list()[k].size as int,
            ) by {
                assert(pre.live_set().contains(freed) && 0 <= k < pre.free_list().len());
                assert(regions_disjoint(
                    freed.0,
                    freed.1,
                    pre.free_list()[k].addr as int,
                    pre.free_list()[k].size as int,
                ));
            }
        }
        self.add_free_region(ptr, size);
    }
}

/// Law: no two simultaneously-live allocations overlap, whatever sequence of
/// allocations and deallocations produced the allocator's state.  `allocate`
/// and `deallocate` preserve `wf`, and `wf` pins the live set down to
/// pairwise-disjoint regions.
pub proof fn lemma_live_allocations_disjoint(
    a: LinkedListAlloc,
    r1: (int, int),
    r2: (int, int),
)
    requires
        a.wf(),
        a.live_set().contains(r1),
        a.live_set().contains(r2),
        r1 != r2,
    ensures
        regions_disjoint(r1.0, r1.1, r2.0, r2.1),
{
}

/// Law: every live allocation lies inside the heap, so no allocation result
/// is ever an out-of-bounds address.
pub proof fn lemma_live_allocation_in_heap(a: LinkedListAlloc, r: (int, int))
    requires
        a.wf(),
        a.live_set().contains(r),
    ensures
        a.heap_start() <= r.0,
        r.0 + r.1 <= a.heap_end(),
{
}

/// Law: deallocating a region and then requesting a size of at most the
/// freed (normalized) size, at an alignment the freed address satisfies,
/// succeeds at the head of the free list — the scan reuses the just-freed
/// address, and serving the request never grows the free list beyond its
/// length right after the deallocation (for an equal-size request it is
/// restored exactly).  The one side condition is the overhang rule: what
/// would remain of the freed region must either be empty or large enough to
/// host a node header.
pub proof fn lemma_reuse_after_free(
    free: Seq<ListNode>,
    addr: u64,
    size: u64,
    size2: int,
    align2: int,
)
    requires
        align2 >= 1,
        addr as int % align2 == 0,
        addr + size <= u64::MAX,
        0 <= size2 <= size,
        size - size2 == 0 || size - size2 >= NODE_SIZE,
    ensures
        first_fit(seq![(ListNode { size, addr })].add(free), size2, align2) == Some(0int),
        spec_align_up(addr as int, align2) == addr as int,
        (seq![(ListNode { size, addr })].add(free).remove(0) =~= free),
        size2 == size ==> addr + size - (spec_align_up(addr as int, align2) + size2) == 0,
{
    let node = ListNode { size, addr };
    let s = seq![node].add(free);
    assert(s[0] == node);
    assert(spec_fits(node, size2, align2));
    assert(first_fit_from(s, size2, align2, 0) == Some(0int));
}

/// Inserting the freshly carved allocation into the ghost live set preserves
/// the allocator invariant: the allocation is carved out of the removed node
/// and is therefore disjoint from every remaining free node and from every
/// older live allocation.
proof fn lemma_live_insert_keeps_wf(
    pre_ins: LinkedListAlloc,
    post: LinkedListAlloc,
    orig: LinkedListAlloc,
    i: int,
    a: int,
    nsize: int,
    overhang: int,
)
    requires
        orig.wf(),
        orig.is_initialized(),
        pre_ins.wf(),
        pre_ins.is_initialized(),
        0 <= i < orig.free_list().len(),
        pre_ins.heap_start() == orig.heap_start(),
        pre_ins.heap_end() == orig.heap_end(),
        pre_ins.live_set() == orig.live_set(),
        orig.free_list()[i].addr as int <= a,
        a + nsize <= orig.free_list()[i].addr + orig.free_list()[i].size,
        overhang == orig.free_list()[i].addr + orig.free_list()[i].size - (a + nsize),
        nsize >= NODE_SIZE,
        a % NODE_ALIGN as int == 0,
        overhang == 0 ==> pre_ins.free_list() == orig.free_list().remove(i),
        overhang > 0 ==> pre_ins.free_list() == seq![
            ListNode { size: overhang as u64, addr: (a + nsize) as u64 },
        ].add(orig.free_list().remove(i)),
        post.free_list() == pre_ins.free_list(),
        post.is_initialized() == pre_ins.is_initialized(),
        post.heap_start() == pre_ins.heap_start(),
        post.heap_end() == pre_ins.heap_end(),
        post.live_set() == pre_ins.live_set().insert((a, nsize)),
    ensures
        post.wf(),
{
    let node = orig.free_list()[i];
    let fresh = (a, nsize);
    assert(node_inv(node, orig.heap_start(), orig.heap_end()));
    assert(live_inv(fresh, post.heap_start(), post.heap_end()));
    assert forall|r: (int, int)|
        #[trigger] post.live_set().contains(r) implies live_inv(
        r,
        post.heap_start(),
        post.heap_end(),
    ) by {
        if r != fresh {
            assert(orig.live_set().contains(r));
        }
    }
    assert forall|r1: (int, int), r2: (int, int)|
        post.live_set().contains(r1) && post.live_set().contains(r2) && r1 != r2
        implies regions_disjoint(r1.0, r1.1, r2.0, r2.1) by {
        if r1 != fresh && r2 != fresh {
            assert(orig.live_set().contains(r1) && orig.live_set().contains(r2));
        } else if r1 == fresh {
            assert(orig.live_set().contains(r2));
            assert(regions_disjoint(r2.0, r2.1, node.addr as int, node.size as int));
        } else {
            assert(orig.live_set().contains(r1));
            assert(regions_disjoint(r1.0, r1.1, node.addr as int, node.size as int));
        }
    }
    assert forall|r: (int, int), k: int|
        #[trigger] post.live_set().contains(r) && 0 <= k < post.free_list().len()
        implies regions_disjoint(
        r.0,
        r.1,
        #[trigger] post.free_list()[k].addr as int,
        post.free_list()[k].size as int,
    ) by {
        if r != fresh {
            assert(pre_ins.live_set().contains(r));
            assert(regions_disjoint(
                r.0,
                r.1,
                pre_ins.free_list()[k].addr as int,
                pre_ins.free_list()[k].size as int,
            ));
        } else {
            if overhang > 0 {
                if k == 0 {
                    assert(post.free_list()[0].addr as int == a + nsize);
                } else {
                    let k0 = if k - 1 < i {
                        k - 1
                    } else {
                        k
                    };
                    assert(post.free_list()[k] == orig.free_list()[k0]);
                    assert(regions_disjoint(
                        node.addr as int,
                        node.size as int,
                        orig.free_list()[k0].addr as int,
                        orig.free_list()[k0].size as int,
                    ));
                }
            } else {
                let k0 = if k < i {
                    k
                } else {
                    k + 1
                };
                assert(post.free_list()[k] == orig.free_list()[k0]);
                assert(regions_disjoint(
                    node.addr as int,
                    node.size as int,
                    orig.free_list()[k0].addr as int,
                    orig.free_list()[k0].size as int,
                ));
            }
        }
    }
}

/// Removing one node from the free list preserves the allocator invariant.
proof fn lemma_remove_keeps_wf(pre: LinkedListAlloc, post: LinkedListAlloc, i: int)
    requires
        pre.wf(),
        pre.is_initialized(),
        0 <= i < pre.free_list().len(),
        post.free_list() == pre.free_list().remove(i),
        post.is_initialized() == pre.is_initialized(),
        post.heap_start() == pre.heap_start(),
        post.heap_end() == pre.heap_end(),
        post.live_set() == pre.live_set(),
    ensures
        post.wf(),
{
    let pres = pre.free_list();
    let posts = post.free_list();
    assert forall|k: int| 0 <= k < posts.len() implies node_inv(
        #[trigger] posts[k],
        post.heap_start(),
        post.heap_end(),
    ) by {
        if k < i {
            assert(posts[k] == pres[k]);
        } else {
            assert(posts[k] == pres[k + 1]);
        }
    }
    assert forall|k: int, j: int| 0 <= k < j < posts.len() implies regions_disjoint(
        posts[k].addr as int,
        posts[k].size as int,
        posts[j].addr as int,
        posts[j].size as int,
    ) by {
        let k0 = if k < i {
            k
        } else {
            k + 1
        };
        let j0 = if j < i {
            j
        } else {
            j + 1
        };
        assert(posts[k] == pres[k0]);
        assert(posts[j] == pres[j0]);
        assert(regions_disjoint(
            pres[k0].addr as int,
            pres[k0].size as int,
            pres[j0].addr as int,
            pres[j0].size as int,
        ));
    }
    assert forall|r: (int, int), k: int|
        post.live_set().contains(r) && 0 <= k < posts.len() implies regions_disjoint(
        r.0,
        r.1,
        posts[k].addr as int,
        posts[k].size as int,
    ) by {
        let k0 = if k < i {
            k
        } else {
            k + 1
        };
        assert(posts[k] == pres[k0]);
        assert(pre.live_set().contains(r) && 0 <= k0 < pres.len());
        assert(regions_disjoint(r.0, r.1, pres[k0].addr as int, pres[k0].size as int));
    }
}

} // verus!
