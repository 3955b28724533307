//! Memory management: the physical frame allocator over a firmware-supplied
//! region map, the virtual page mapper, and kernel heap bring-up.
//!
//! Physical memory is described by an ordered list of regions, each marked
//! usable or reserved. The frame allocator hands out the 4096-byte frames of
//! the usable regions in ascending address order, each at most once, and
//! reports exhaustion once every usable frame has been issued. Heap bring-up
//! maps the fixed virtual heap range page by page onto freshly allocated
//! frames and only then activates the heap allocator.

use vstd::prelude::*;

verus! {

/// Size of one physical frame / virtual page, in bytes.
pub const PAGE_SIZE: u64 = 4096;

/// Kernel heap start address - a page-aligned virtual address.
pub const HEAP_START: u64 = 0x4444_4444_0000;

/// Kernel heap size: 1 MiB.
pub const HEAP_SIZE: u64 = 1024 * 1024;

/// Memory management errors.
#[derive(Debug, Clone, Copy, PartialEq, Eq, Structural)]
pub enum MemoryError {
    /// Out of physical memory.
    OutOfMemory,
    /// Invalid virtual address.
    InvalidVirtualAddress(u64),
    /// Invalid physical address.
    InvalidPhysicalAddress(u64),
    /// Page mapping failed.
    MappingFailed,
    /// Frame allocation failed.
    FrameAllocationFailed,
    /// Heap initialization failed.
    HeapInitializationFailed,
}

/// One region of physical memory: the addresses `[start, end)`, marked usable
/// or reserved.
#[derive(Debug, Clone, Copy, PartialEq, Eq, Structural)]
pub struct MemoryRegion {
    /// First address of the region.
    pub start: u64,
    /// First address past the region.
    pub end: u64,
    /// Whether the kernel may allocate frames from this region.
    pub usable: bool,
}

/// A single region is well-formed: non-inverted and page-aligned at both ends.
pub open spec fn region_wf(r: MemoryRegion) -> bool {
    &&& r.start <= r.end
    &&& r.start % PAGE_SIZE == 0
    &&& r.end % PAGE_SIZE == 0
}

/// A region list is well-formed: every region well-formed, and the regions
/// sorted by address and disjoint.
pub open spec fn regions_wf(s: Seq<MemoryRegion>) -> bool {
    &&& forall|i: int| 0 <= i < s.len() ==> region_wf(#[trigger] s[i])
    &&& forall|i: int, j: int| 0 <= i < j < s.len() ==> s[i].end <= s[j].start
}

/// The frames of one region, in ascending order: empty unless the region is
/// usable, else one frame base address every `PAGE_SIZE` bytes.
pub open spec fn region_frames(r: MemoryRegion) -> Seq<u64> {
    if r.usable {
        Seq::new((((r.end - r.start) / (PAGE_SIZE as int))) as nat, |k: int| (r.start + (PAGE_SIZE as int) * k) as u64)
    } else {
        Seq::empty()
    }
}

/// Every usable frame described by the region list, in ascending address
/// order.
pub open spec fn usable_frames(s: Seq<MemoryRegion>) -> Seq<u64>
    decreases s.len(),
{
    if s.len() == 0 {
        Seq::empty()
    } else {
        usable_frames(s.drop_last()) + region_frames(s.last())
    }
}

/// `frame` lies inside a region of `s` that is marked usable.
pub open spec fn frame_in_usable_region(s: Seq<MemoryRegion>, frame: u64) -> bool {
    exists|j: int|
        0 <= j < s.len() && (#[trigger] s[j]).usable && s[j].start <= frame && frame + PAGE_SIZE
            <= s[j].end
}

/// An immutable, validated description of the machine's physical memory
/// regions, as supplied by the boot environment.
#[derive(Debug)]
pub struct MemoryMap {
    regions: Vec<MemoryRegion>,
}

impl MemoryMap {
    /// The region list.
    pub closed spec fn regions(self) -> Seq<MemoryRegion> {
        self.regions@
    }

    /// Validate a region list. A malformed list (an inverted or unaligned
    /// region, or regions out of order or overlapping) is rejected before any
    /// other memory state is touched.
    pub fn new(regions: Vec<MemoryRegion>) -> (r: Result<MemoryMap, MemoryError>)
        ensures
            regions_wf(regions@) <==> r is Ok,
            r matches Ok(m) ==> m.regions() == regions@,
            r matches Err(e) ==> e matches MemoryError::InvalidPhysicalAddress(_),
    {
        let n = regions.len();
        let mut i: usize = 0;
        while i < n
            invariant
                0 <= i <= n,
                n == regions@.len(),
                forall|k: int| 0 <= k < i ==> region_wf(#[trigger] regions@[k]),
                forall|k: int, l: int| 0 <= k < l < i ==> regions@[k].end <= regions@[l].start,
            decreases n - i,
        {
            let r = regions[i];
            if r.start > r.end || r.start % PAGE_SIZE != 0 || r.end % PAGE_SIZE != 0 {
                return Err(MemoryError::InvalidPhysicalAddress(r.start));
            }
            if i > 0 {
                let prev = regions[i - 1];
                if prev.end > r.start {
                    return Err(MemoryError::InvalidPhysicalAddress(r.start));
                }
            }
            proof {
                // Disjointness with every earlier region follows from the
                // sortedness accumulated so far.
                assert forall|k: int| 0 <= k < i implies regions@[k].end <= regions@[i as int].start
                    by {
                    if k < i - 1 {
                        assert(regions@[k].end <= regions@[i - 1].start);
                        assert(regions@[i - 1].start <= regions@[i - 1].end);
                    }
                }
            }
            i = i + 1;
        }
        Ok(MemoryMap { regions })
    }

    /// The number of regions.
    pub fn len(&self) -> (r: usize)
        ensures
            r == self.regions().len(),
    {
        self.regions.len()
    }

    /// The region at `i`.
    pub fn region(&self, i: usize) -> (r: MemoryRegion)
        requires
            i < self.regions().len(),
        ensures
            r == self.regions()[i as int],
    {
        self.regions[i]
    }
}

/// Frame allocator fed by the boot environment's memory region map: hands out
/// the usable frames in ascending address order, never reusing one, and
/// reports out-of-memory once they are exhausted. No deallocation exists by
/// design; the allocator backs the one permanent heap mapping.
pub struct BootInfoFrameAllocator {
    memory_map: MemoryMap,
    next: u64,
}

impl BootInfoFrameAllocator {
    /// The region map the allocator draws from.
    pub closed spec fn spec_map(self) -> Seq<MemoryRegion> {
        self.memory_map.regions()
    }

    /// How many frames have been handed out.
    pub closed spec fn spec_next(self) -> u64 {
        self.next
    }

    /// The allocator's frame pool: every usable frame of its map, in order.
    pub open spec fn frames(self) -> Seq<u64> {
        usable_frames(self.spec_map())
    }

    /// Well-formed: the map is valid and no more frames have been handed out
    /// than exist.
    pub open spec fn wf(self) -> bool {
        &&& regions_wf(self.spec_map())
        &&& self.spec_next() <= self.frames().len()
    }

    /// Create a frame allocator over a validated memory map. No frames have
    /// been handed out yet.
    pub fn init(memory_map: MemoryMap) -> (r: Self)
        requires
            regions_wf(memory_map.regions()),
        ensures
            r.spec_map() == memory_map.regions(),
            r.spec_next() == 0,
            r.wf(),
    {
        BootInfoFrameAllocator { memory_map, next: 0 }
    }

    /// Hand out the next not-yet-issued usable frame, in ascending address
    /// order, or report exhaustion.
    pub fn allocate_frame(&mut self) -> (r: Option<u64>)
        requires
            old(self).wf(),
        ensures
            final(self).wf(),
            final(self).spec_map() == old(self).spec_map(),
            old(self).spec_next() < old(self).frames().len() ==> {
                &&& r == Some(old(self).frames()[old(self).spec_next() as int])
                &&& final(self).spec_next() == old(self).spec_next() + 1
            },
            old(self).spec_next() >= old(self).frames().len() ==> {
                &&& r is None
                &&& final(self).spec_next() == old(self).spec_next()
            },
    {
        let ghost s = self.spec_map();
        let n = self.memory_map.len();
        let mut remaining: u64 = self.next;
        let mut idx: usize = 0;
        proof {
            assert(s.take(0) =~= Seq::<MemoryRegion>::empty());
        }
        while idx < n
            invariant
                0 <= idx <= n,
                n == s.len(),
                s == self.spec_map(),
                self.wf(),
                self.spec_next() == old(self).spec_next(),
                self.memory_map == old(self).memory_map,
                usable_frames(s.take(idx as int)).len() <= self.next,
                remaining == self.next - usable_frames(s.take(idx as int)).len(),
            decreases n - idx,
        {
            let r = self.memory_map.region(idx);
            proof {
                lemma_usable_frames_split(s, idx as int);
                assert(region_wf(s[idx as int]));
            }
            if r.usable {
                let cnt = (r.end - r.start) / PAGE_SIZE;
                if remaining < cnt {
                    proof {
                        lemma_usable_frames_prefix(s, idx as int + 1);
                        lemma_usable_frames_bounds(s);
                        assert(usable_frames(s.take(idx as int + 1)).len() <= usable_frames(
                            s,
                        ).len());
                        assert(self.next < usable_frames(s).len());
                        assert(usable_frames(s)[self.next as int] == usable_frames(
                            s.take(idx as int + 1),
                        )[self.next as int]);
                        assert(usable_frames(s.take(idx as int + 1))[self.next as int]
                            == region_frames(r)[remaining as int]);
                        assert(remaining * PAGE_SIZE <= (cnt - 1) * PAGE_SIZE) by (nonlinear_arith)
                            requires
                                remaining <= cnt - 1,
                                PAGE_SIZE > 0,
                        ;
                        assert(cnt * PAGE_SIZE == r.end - r.start);
                    }
                    let frame = r.start + remaining * PAGE_SIZE;
                    self.next = self.next + 1;
                    return Some(frame);
                } else {
                    remaining = remaining - cnt;
                }
            }
            proof {
                lemma_usable_frames_split(s, idx as int);
            }
            idx = idx + 1;
        }
        proof {
            assert(s.take(n as int) =~= s);
        }
        None
    }
}

/// Unfolding step: the frames of one more region append to the frames of the
/// prefix before it.
proof fn lemma_usable_frames_split(s: Seq<MemoryRegion>, i: int)
    requires
        0 <= i < s.len(),
    ensures
        usable_frames(s.take(i + 1)) == usable_frames(s.take(i)) + region_frames(s[i]),
{
    assert(s.take(i + 1).drop_last() =~= s.take(i));
    assert(s.take(i + 1).last() == s[i]);
}

/// The frames of a prefix of the region list are a prefix of the frames of
/// the whole list.
proof fn lemma_usable_frames_prefix(s: Seq<MemoryRegion>, i: int)
    requires
        0 <= i <= s.len(),
    ensures
        usable_frames(s.take(i)).len() <= usable_frames(s).len(),
        forall|k: int|
            0 <= k < usable_frames(s.take(i)).len() ==> #[trigger] usable_frames(s)[k]
                == usable_frames(s.take(i))[k],
    decreases s.len() - i,
{
    if i == s.len() {
        assert(s.take(i) =~= s);
    } else {
        lemma_usable_frames_split(s, i);
        lemma_usable_frames_prefix(s, i + 1);
    }
}

/// The frame pool of a well-formed region list is sound: every frame is
/// page-aligned and lies in a usable region, the pool is strictly ascending
/// (so no frame appears twice), every frame ends at or before the last
/// region's end, and the pool's total size is bounded by the last region's
/// end address.
pub proof fn lemma_usable_frames_bounds(s: Seq<MemoryRegion>)
    requires
        regions_wf(s),
    ensures
        forall|i: int|
            0 <= i < usable_frames(s).len() ==> #[trigger] usable_frames(s)[i] % PAGE_SIZE == 0,
        forall|i: int|
            0 <= i < usable_frames(s).len() ==> frame_in_usable_region(
                s,
                #[trigger] usable_frames(s)[i],
            ),
        forall|i: int, j: int|
            0 <= i < j < usable_frames(s).len() ==> usable_frames(s)[i] < usable_frames(s)[j],
        s.len() > 0 ==> forall|i: int|
            0 <= i < usable_frames(s).len() ==> #[trigger] usable_frames(s)[i] + PAGE_SIZE
                <= s.last().end,
        usable_frames(s).len() * PAGE_SIZE <= (if s.len() == 0 {
            0int
        } else {
            s.last().end as int
        }),
    decreases s.len(),
{
    if s.len() == 0 {
    } else {
        let s0 = s.drop_last();
        let r = s.last();
        let f0 = usable_frames(s0);
        let fr = region_frames(r);
        let f = usable_frames(s);
        assert(regions_wf(s0)) by {
            assert(forall|i: int| 0 <= i < s0.len() ==> s0[i] == s[i]);
        }
        lemma_usable_frames_bounds(s0);
        assert(region_wf(r));

        // The last region's own frames: aligned, inside it, ascending.
        assert((r.end - r.start) % (PAGE_SIZE as int) == 0);
        let cnt = (r.end - r.start) / (PAGE_SIZE as int);
        assert(cnt * (PAGE_SIZE as int) == r.end - r.start);
        assert forall|k: int| 0 <= k < fr.len() implies {
            &&& #[trigger] fr[k] == r.start + (PAGE_SIZE as int) * k
            &&& fr[k] % PAGE_SIZE == 0
            &&& r.start <= fr[k]
            &&& fr[k] + PAGE_SIZE <= r.end
        } by {
            assert(r.usable);
            assert(fr[k] == (r.start + (PAGE_SIZE as int) * k) as u64);
            assert((PAGE_SIZE as int) * k <= (PAGE_SIZE as int) * (cnt - 1)) by (nonlinear_arith)
                requires
                    k <= cnt - 1,
                    PAGE_SIZE > 0,
            ;
            assert(r.start + (PAGE_SIZE as int) * k + PAGE_SIZE <= r.end);
            assert((PAGE_SIZE as int) * k >= 0) by (nonlinear_arith)
                requires
                    k >= 0,
                    PAGE_SIZE > 0,
            ;
            assert((r.start + (PAGE_SIZE as int) * k) % (PAGE_SIZE as int) == 0)
                by (nonlinear_arith)
                requires
                    r.start as int % (PAGE_SIZE as int) == 0,
                    PAGE_SIZE > 0,
                    k >= 0,
            ;
        }
        assert forall|k1: int, k2: int| 0 <= k1 < k2 < fr.len() implies fr[k1] < fr[k2] by {
            assert((PAGE_SIZE as int) * k1 < (PAGE_SIZE as int) * k2) by (nonlinear_arith)
                requires
                    k1 < k2,
                    PAGE_SIZE > 0,
            ;
        }

        // Every earlier region ends at or before this one's start.
        if s0.len() > 0 {
            assert(s0.last() == s[s.len() - 2]);
            assert(s0.last().end <= r.start);
        }

        // Alignment of the whole pool.
        assert forall|i: int| 0 <= i < f.len() implies #[trigger] f[i] % PAGE_SIZE == 0 by {
            if i < f0.len() {
                assert(f[i] == f0[i]);
            } else {
                assert(f[i] == fr[i - f0.len()]);
            }
        }

        // Containment of the whole pool.
        assert forall|i: int| 0 <= i < f.len() implies frame_in_usable_region(s, #[trigger] f[i])
            by {
            if i < f0.len() {
                assert(f[i] == f0[i]);
                assert(frame_in_usable_region(s0, f0[i]));
                let j = choose|j: int|
                    0 <= j < s0.len() && (#[trigger] s0[j]).usable && s0[j].start <= f0[i] && f0[i]
                        + PAGE_SIZE <= s0[j].end;
                assert(s[j] == s0[j]);
            } else {
                assert(f[i] == fr[i - f0.len()]);
                assert(s[s.len() - 1] == r);
            }
        }

        // Strict ascent of the whole pool.
        assert forall|i: int, j: int| 0 <= i < j < f.len() implies f[i] < f[j] by {
            if j < f0.len() {
            } else if i < f0.len() && j >= f0.len() {
                assert(f[i] == f0[i]);
                assert(f[j] == fr[j - f0.len()]);
                if s0.len() > 0 {
                    assert(f0[i] + PAGE_SIZE <= s0.last().end);
                    assert(s0.last().end <= r.start);
                    assert(fr[j - f0.len()] >= r.start);
                }
            } else {
                assert(f[i] == fr[i - f0.len()]);
                assert(f[j] == fr[j - f0.len()]);
            }
        }

        // Upper bound on every frame.
        assert forall|i: int| 0 <= i < f.len() implies #[trigger] f[i] + PAGE_SIZE <= r.end by {
            if i < f0.len() {
                assert(f[i] == f0[i]);
                if s0.len() > 0 {
                    assert(f0[i] + PAGE_SIZE <= s0.last().end);
                    assert(s0.last().end <= r.start);
                    assert(r.start <= r.end);
                }
            } else {
                assert(f[i] == fr[i - f0.len()]);
            }
        }

        // Size bound: the pool cannot hold more frames than fit below the
        // last region's end.
        assert(f.len() == f0.len() + fr.len());
        assert(fr.len() * PAGE_SIZE <= r.end - r.start) by {
            if r.usable {
                assert(fr.len() == cnt);
            } else {
                assert(fr.len() == 0);
            }
        }
        if s0.len() == 0 {
            assert(f0.len() == 0);
        } else {
            assert(f0.len() * PAGE_SIZE <= s0.last().end as int);
            assert(s0.last().end <= r.start);
            assert((f0.len() + fr.len()) * PAGE_SIZE == f0.len() * PAGE_SIZE + fr.len()
                * PAGE_SIZE) by (nonlinear_arith);
        }
    }
}

/// Mapping flags bit: the mapping is present.
pub const PAGE_PRESENT: u64 = 1;

/// Mapping flags bit: the mapping is writable.
pub const PAGE_WRITABLE: u64 = 2;

/// One installed virtual-to-physical mapping.
#[derive(Debug, Clone, Copy, PartialEq, Eq, Structural)]
pub struct PageMapping {
    /// The virtual page base address.
    pub page: u64,
    /// The physical frame base address backing it.
    pub frame: u64,
    /// The mapping's attribute flags.
    pub flags: u64,
}

/// The mappings as a finite map from page address to installed mapping.
pub open spec fn as_page_table(s: Seq<PageMapping>) -> Map<u64, PageMapping>
    decreases s.len(),
{
    if s.len() == 0 {
        Map::empty()
    } else {
        as_page_table(s.drop_last()).insert(s.last().page, s.last())
    }
}

/// A page table holds a page exactly when some entry installed it.
proof fn lemma_page_table_contains(s: Seq<PageMapping>, page: u64)
    ensures
        as_page_table(s).contains_key(page) <==> exists|i: int|
            0 <= i < s.len() && (#[trigger] s[i]).page == page,
    decreases s.len(),
{
    if s.len() > 0 {
        lemma_page_table_contains(s.drop_last(), page);
        if as_page_table(s).contains_key(page) {
            if s.last().page != page {
                let i = choose|i: int|
                    0 <= i < s.drop_last().len() && (#[trigger] s.drop_last()[i]).page == page;
                assert(s[i].page == page);
            } else {
                assert(s[s.len() - 1].page == page);
            }
        }
        if exists|i: int| 0 <= i < s.len() && (#[trigger] s[i]).page == page {
            let i = choose|i: int| 0 <= i < s.len() && (#[trigger] s[i]).page == page;
            if i < s.len() - 1 {
                assert(s.drop_last()[i].page == page);
            }
        }
    }
}

/// The virtual memory mapper: installs present mappings from virtual pages to
/// physical frames. A page can be mapped only once; re-mapping is refused.
/// Applying a mapping to the hardware translation structures (and flushing
/// the stale translation-cache entry) is the shim's job; the model records
/// exactly what was installed.
pub struct PageMapper {
    mappings: Vec<PageMapping>,
}

impl PageMapper {
    /// The installed mappings, oldest first.
    pub closed spec fn entries(self) -> Seq<PageMapping> {
        self.mappings@
    }

    /// The installed mappings as a map from page to mapping.
    pub open spec fn page_table(self) -> Map<u64, PageMapping> {
        as_page_table(self.entries())
    }

    /// No page is installed twice, and every entry is keyed by its own page.
    pub open spec fn wf(self) -> bool {
        forall|i: int, j: int|
            0 <= i < j < self.entries().len() ==> (#[trigger] self.entries()[i]).page
                != (#[trigger] self.entries()[j]).page
    }

    /// An empty mapper: nothing is mapped.
    pub fn new() -> (r: Self)
        ensures
            r.page_table() == Map::<u64, PageMapping>::empty(),
            r.wf(),
    {
        let r = PageMapper { mappings: Vec::new() };
        proof {
            assert(r.entries() =~= Seq::<PageMapping>::empty());
        }
        r
    }

    /// Is `page` currently mapped?
    #[verifier::loop_isolation(false)]
    pub fn is_mapped(&self, page: u64) -> (r: bool)
        ensures
            r == self.page_table().contains_key(page),
    {
        proof {
            lemma_page_table_contains(self.entries(), page);
        }
        let n = self.mappings.len();
        let mut i: usize = 0;
        while i < n
            invariant
                0 <= i <= n,
                n == self.entries().len(),
                forall|k: int| 0 <= k < i ==> (#[trigger] self.entries()[k]).page != page,
            decreases n - i,
        {
            if self.mappings[i].page == page {
                return true;
            }
            i = i + 1;
        }
        false
    }

    /// Install a mapping from `page` to `frame` with the given flags. Fails,
    /// changing nothing, when the page is already mapped.
    pub fn map_to(&mut self, page: u64, frame: u64, flags: u64) -> (r: Result<(), MemoryError>)
        requires
            old(self).wf(),
        ensures
            final(self).wf(),
            old(self).page_table().contains_key(page) ==> {
                &&& r == Err::<(), MemoryError>(MemoryError::MappingFailed)
                &&& final(self).page_table() == old(self).page_table()
                &&& final(self).entries() == old(self).entries()
            },
            !old(self).page_table().contains_key(page) ==> {
                &&& r is Ok
                &&& final(self).page_table() == old(self).page_table().insert(
                    page,
                    (PageMapping { page, frame, flags }),
                )
            },
    {
        if self.is_mapped(page) {
            return Err(MemoryError::MappingFailed);
        }
        proof {
            lemma_page_table_contains(self.entries(), page);
        }
        self.mappings.push(PageMapping { page, frame, flags });
        proof {
            assert(self.entries().drop_last() =~= old(self).entries());
            assert forall|i: int, j: int|
                0 <= i < j < self.entries().len() implies (#[trigger] self.entries()[i]).page
                != (#[trigger] self.entries()[j]).page by {
                if j == self.entries().len() - 1 {
                    assert(self.entries()[i] == old(self).entries()[i]);
                }
            }
        }
        Ok(())
    }

    /// The installed mapping for `page`, if any.
    #[verifier::loop_isolation(false)]
    pub fn translate(&self, page: u64) -> (r: Option<PageMapping>)
        requires
            self.wf(),
        ensures
            self.page_table().contains_key(page) ==> r == Some(self.page_table()[page]),
            !self.page_table().contains_key(page) ==> r is None,
    {
        proof {
            lemma_page_table_contains(self.entries(), page);
            lemma_page_table_value(self.entries(), page);
        }
        let n = self.mappings.len();
        let mut i: usize = 0;
        while i < n
            invariant
                0 <= i <= n,
                n == self.entries().len(),
                self.wf(),
                forall|k: int| 0 <= k < i ==> (#[trigger] self.entries()[k]).page != page,
            decreases n - i,
        {
            let m = self.mappings[i];
            if m.page == page {
                return Some(m);
            }
            i = i + 1;
        }
        None
    }
}

/// In a table without duplicate pages, the map carries each entry at its page.
proof fn lemma_page_table_value(s: Seq<PageMapping>, page: u64)
    requires
        forall|i: int, j: int|
            0 <= i < j < s.len() ==> (#[trigger] s[i]).page != (#[trigger] s[j]).page,
    ensures
        forall|i: int|
            0 <= i < s.len() && (#[trigger] s[i]).page == page ==> as_page_table(s).contains_key(
                page,
            ) && as_page_table(s)[page] == s[i],
    decreases s.len(),
{
    if s.len() > 0 {
        assert(s.drop_last().len() == s.len() - 1);
        assert forall|i: int, j: int|
            0 <= i < j < s.drop_last().len() implies (#[trigger] s.drop_last()[i]).page
            != (#[trigger] s.drop_last()[j]).page by {
            assert(s.drop_last()[i] == s[i]);
            assert(s.drop_last()[j] == s[j]);
        }
        lemma_page_table_value(s.drop_last(), page);
        assert forall|i: int|
            0 <= i < s.len() && (#[trigger] s[i]).page == page implies as_page_table(
            s,
        ).contains_key(page) && as_page_table(s)[page] == s[i] by {
            if i == s.len() - 1 {
            } else {
                assert(s.drop_last()[i] == s[i]);
                assert(s[i].page != s[s.len() - 1].page);
            }
        }
    }
}

/// The `i`-th page of the fixed virtual heap range.
pub open spec fn heap_page(i: int) -> u64 {
    (HEAP_START + (PAGE_SIZE as int) * i) as u64
}

/// How many pages cover the heap range `[HEAP_START, HEAP_START + HEAP_SIZE)`.
pub open spec fn heap_page_count() -> int {
    HEAP_SIZE as int / PAGE_SIZE as int
}

/// Some heap page with index below `j` is already present in page table `m`.
pub open spec fn premapped_before(m: Map<u64, PageMapping>, j: int) -> bool {
    exists|i: int| 0 <= i < j && m.contains_key(#[trigger] heap_page(i))
}

/// Bring up the memory subsystem: construct the frame allocator over the
/// memory map, then back every page of the heap range with a freshly
/// allocated frame, installed present and writable. Runs out of memory when
/// the map's usable frames cannot cover the heap; fails when a heap page is
/// already mapped. On failure nothing is rolled back — the caller must treat
/// the heap as unusable and abort boot.
#[verifier::loop_isolation(false)]
pub fn init_memory_management(memory_map: MemoryMap, mapper: &mut PageMapper) -> (r: Result<
    (),
    MemoryError,
>)
    requires
        regions_wf(memory_map.regions()),
        old(mapper).wf(),
    ensures
        final(mapper).wf(),
        ({
            let frames = usable_frames(memory_map.regions());
            let n = frames.len() as int;
            let pc = heap_page_count();
            let pt0 = old(mapper).page_table();
            &&& (r is Ok <==> n >= pc && !premapped_before(pt0, pc))
            &&& (r == Err::<(), MemoryError>(MemoryError::OutOfMemory) <==> n < pc
                && !premapped_before(pt0, n))
            &&& (r == Err::<(), MemoryError>(MemoryError::MappingFailed) <==> premapped_before(
                pt0,
                if n < pc {
                    n
                } else {
                    pc
                },
            ))
            &&& r is Ok ==> forall|i: int|
                0 <= i < pc ==> final(mapper).page_table().contains_key(#[trigger] heap_page(i))
                    && final(mapper).page_table()[heap_page(i)] == (PageMapping {
                    page: heap_page(i),
                    frame: frames[i],
                    flags: PAGE_PRESENT | PAGE_WRITABLE,
                })
            &&& forall|p: u64|
                #[trigger] pt0.contains_key(p) ==> final(mapper).page_table().contains_key(p)
                    && final(mapper).page_table()[p] == pt0[p]
            &&& forall|p: u64|
                #[trigger] final(mapper).page_table().contains_key(p) ==> pt0.contains_key(p)
                    || exists|i: int| 0 <= i < pc && p == heap_page(i)
        }),
{
    let ghost regs = memory_map.regions();
    let ghost pt0 = old(mapper).page_table();
    let mut allocator = BootInfoFrameAllocator::init(memory_map);
    let ghost frames = allocator.frames();
    proof {
        lemma_usable_frames_bounds(regs);
    }

    let page_count: u64 = HEAP_SIZE / PAGE_SIZE;
    let mut i: u64 = 0;
    while i < page_count
        invariant
            0 <= i <= page_count,
            page_count == heap_page_count(),
            allocator.wf(),
            allocator.spec_map() == regs,
            regions_wf(regs),
            frames == usable_frames(regs),
            allocator.spec_next() == i,
            i <= frames.len(),
            mapper.wf(),
            !premapped_before(pt0, i as int),
            forall|j: int|
                0 <= j < i ==> mapper.page_table().contains_key(#[trigger] heap_page(j))
                    && mapper.page_table()[heap_page(j)] == (PageMapping {
                    page: heap_page(j),
                    frame: frames[j],
                    flags: PAGE_PRESENT | PAGE_WRITABLE,
                }),
            forall|p: u64|
                #[trigger] pt0.contains_key(p) ==> mapper.page_table().contains_key(p)
                    && mapper.page_table()[p] == pt0[p],
            forall|p: u64|
                #[trigger] mapper.page_table().contains_key(p) ==> pt0.contains_key(p) || exists|
                    j: int,
                |
                    0 <= j < i && p == heap_page(j),
        decreases page_count - i,
    {
        let frame = match allocator.allocate_frame() {
            Some(f) => f,
            None => {
                // The usable frames are exhausted before the heap is covered.
                proof {
                    assert(frames.len() <= i < page_count);
                    assert(!premapped_before(pt0, frames.len() as int));
                }
                return Err(MemoryError::OutOfMemory);
            },
        };
        let page = HEAP_START + i * PAGE_SIZE;
        proof {
            assert(page == heap_page(i as int));
        }
        match mapper.map_to(page, frame, PAGE_PRESENT | PAGE_WRITABLE) {
            Ok(_) => {},
            Err(_) => {
                // The page was already mapped before bring-up started: the
                // new heap pages installed so far all differ from it.
                proof {
                    assert(pt0.contains_key(page)) by {
                        if !pt0.contains_key(page) {
                            let j = choose|j: int|
                                0 <= j < i && heap_page(i as int) == heap_page(j);
                            assert((PAGE_SIZE as int) * j < (PAGE_SIZE as int) * (i as int))
                                by (nonlinear_arith)
                                requires
                                    0 <= j < i as int,
                                    PAGE_SIZE > 0,
                            ;
                        }
                    }
                    assert(premapped_before(pt0, i as int + 1));
                    assert(i < frames.len());
                }
                return Err(MemoryError::MappingFailed);
            },
        }
        i = i + 1;
        proof {
            assert(!premapped_before(pt0, i as int)) by {
                if premapped_before(pt0, i as int) {
                    let j = choose|j: int| 0 <= j < i && pt0.contains_key(#[trigger] heap_page(j));
                    assert(j == i - 1);
                    assert(pt0.contains_key(heap_page(i - 1)));
                }
            }
        }
    }
    proof {
        assert(frames.len() >= page_count);
    }
    Ok(())
}

#[verifier::external_type_specification]
#[verifier::external_body]
pub struct ExHeap(linked_list_allocator::Heap);

/// Relies on `linked_list_allocator::Heap::empty`: creates a heap with no
/// memory attached; every allocation on it fails until a region is bound.
#[verifier::external_body]
fn heap_empty_raw() -> linked_list_allocator::Heap {
    linked_list_allocator::Heap::empty()
}

/// The kernel heap: a general-purpose first-fit allocator bound to the heap
/// region once that region is mapped. Two ghost fields model the underlying
/// allocator's state: `initialized` says whether it has been handed its
/// region — set by the one operation that binds a region and required false
/// there, so the region is bound exactly once — and `fresh`, together with
/// `region_size`, says that the region was just bound and nothing has been
/// allocated from it yet, which is when the allocator's free space is one
/// known block.
pub struct KernelHeap {
    heap: linked_list_allocator::Heap,
    initialized: Ghost<bool>,
    fresh: Ghost<bool>,
    region_size: Ghost<nat>,
}

impl KernelHeap {
    /// Whether the heap has been bound to a memory region.
    pub closed spec fn is_initialized(self) -> bool {
        self.initialized@
    }

    /// Whether the heap is freshly bound: a region was bound and no
    /// allocation has been made from it yet.
    pub closed spec fn is_fresh(self) -> bool {
        self.fresh@
    }

    /// The size in bytes of the region the heap was bound to.
    pub closed spec fn spec_size(self) -> nat {
        self.region_size@
    }

    /// A heap with no memory attached, on which every allocation fails until
    /// a region is bound.
    pub fn empty() -> (r: Self)
        ensures
            !r.is_initialized(),
    {
        KernelHeap {
            heap: heap_empty_raw(),
            initialized: Ghost(false),
            fresh: Ghost(false),
            region_size: Ghost(0),
        }
    }

    /// Relies on `linked_list_allocator::Heap::init_from_slice`: binds the
    /// heap to a fresh static region of `size` bytes (a leaked host
    /// allocation standing in for the mapped heap range). That call panics on
    /// a heap that already has a region — ruled out by the `initialized`
    /// flag — and on a region too small for the allocator's metadata, whose
    /// documented worst case is three words — ruled out by the size bound.
    /// Afterwards the heap is freshly bound: its free space is a single
    /// word-aligned block of at least `size` minus 14 bytes (at most 7 bytes
    /// lost aligning each end of the region to the word size).
    #[verifier::external_body]
    pub fn init(&mut self, size: usize)
        requires
            !old(self).is_initialized(),
            size >= 24,
        ensures
            final(self).is_initialized(),
            final(self).is_fresh(),
            final(self).spec_size() == size,
    {
        let region = Box::leak(Box::new_uninit_slice(size));
        self.heap.init_from_slice(region);
    }

    /// Relies on `linked_list_allocator::Heap::allocate_first_fit`: scans the
    /// free blocks for the first that fits `size` bytes at alignment `align`;
    /// success returns the block's address, which is non-null and aligned as
    /// asked. Exhaustion — and a size/alignment pair the layout rules refuse
    /// — is reported as `Err`, never by panicking.
    ///
    /// On a freshly bound heap a small word-aligned request cannot fail: the
    /// free space is one word-aligned block of at least the region size minus
    /// 14 bytes; the request is padded to a word multiple of at least two
    /// words, so to at most `size` plus 22 bytes; an alignment up to one word
    /// needs no front padding on a word-aligned block; and first fit carves
    /// the block whenever it fits exactly or leaves at least two words for
    /// the remainder's header. A region 64 bytes larger than the request
    /// covers all of that slack.
    #[verifier::external_body]
    pub fn allocate(&mut self, size: usize, align: usize) -> (r: Result<usize, ()>)
        requires
            old(self).is_initialized(),
            1 <= size,
            1 <= align,
        ensures
            final(self).is_initialized(),
            r matches Ok(addr) ==> addr > 0 && addr % align == 0,
            (old(self).is_fresh() && size + 64 <= old(self).spec_size() && (align == 1 || align
                == 2 || align == 4 || align == 8)) ==> r is Ok,
    {
        let layout = match core::alloc::Layout::from_size_align(size, align) {
            Ok(l) => l,
            Err(_) => return Err(()),
        };
        match self.heap.allocate_first_fit(layout) {
            Ok(p) => Ok(p.addr().get()),
            Err(()) => Err(()),
        }
    }
}

/// Verify that dynamic allocation works: a boxed scalar reads back, and a
/// 100-element vector holds its index at every position — checked at index
/// 99. The checks are also proved, so this self-test is proved to pass.
pub fn test_heap_allocation() -> (r: Result<(), MemoryError>)
    ensures
        r is Ok,
{
    // Test basic allocation.
    let test_box: Box<u64> = Box::new(42);
    if *test_box != 42 {
        return Err(MemoryError::HeapInitializationFailed);
    }

    // Test vector allocation.
    let mut test_vec: Vec<u64> = Vec::new();
    let mut i: u64 = 0;
    while i < 100
        invariant
            0 <= i <= 100,
            test_vec@.len() == i,
            forall|k: int| 0 <= k < i ==> test_vec@[k] == k,
        decreases 100 - i,
    {
        test_vec.push(i);
        i = i + 1;
    }

    if test_vec.len() != 100 {
        return Err(MemoryError::HeapInitializationFailed);
    }
    if test_vec[99] != 99 {
        return Err(MemoryError::HeapInitializationFailed);
    }
    Ok(())
}

/// Activate the kernel heap: bind a fresh allocator to a region of
/// `HEAP_SIZE` bytes, make one probe allocation, and run the allocation
/// self-test. A probe failure would be reported as heap-initialization
/// failure so boot can abort instead of proceeding on unreliable dynamic
/// memory — and activation is proved to succeed: the probe cannot fail on a
/// freshly bound region of this size, and the self-test is proved to pass.
pub fn init_heap() -> (r: Result<KernelHeap, MemoryError>)
    ensures
        r matches Ok(h) && h.is_initialized(),
{
    let mut heap = KernelHeap::empty();
    let size: usize = HEAP_SIZE as usize;
    assert(size >= 24);
    heap.init(size);

    // Probe the allocator once before anything depends on it.
    match heap.allocate(8, 8) {
        Ok(_) => {},
        Err(_) => {
            return Err(MemoryError::HeapInitializationFailed);
        },
    }

    // Test heap allocation to ensure it's working.
    match test_heap_allocation() {
        Ok(_) => {},
        Err(e) => {
            return Err(e);
        },
    }
    Ok(heap)
}

/// Memory statistics for monitoring and debugging.
#[derive(Debug, Clone, Copy, PartialEq, Eq, Structural)]
pub struct MemoryStats {
    pub total_memory: u64,
    pub used_memory: u64,
    pub free_memory: u64,
    pub heap_size: u64,
    pub heap_used: u64,
}

/// Current memory statistics. Only the fixed heap size is tracked so far;
/// the remaining counters await proper accounting and read zero.
pub fn get_memory_stats() -> (r: MemoryStats)
    ensures
        r.heap_size == HEAP_SIZE,
        r.total_memory == 0,
        r.used_memory == 0,
        r.free_memory == 0,
        r.heap_used == 0,
{
    MemoryStats {
        total_memory: 0,
        used_memory: 0,
        free_memory: 0,
        heap_size: HEAP_SIZE,
        heap_used: 0,
    }
}

/// Platform-specific memory management.
pub trait PlatformMemoryManager {
    type Error;

    /// Initialize platform-specific memory management.
    fn init(&mut self) -> Result<(), Self::Error>;

    /// Allocate physical pages.
    fn allocate_pages(&mut self, count: usize) -> Result<u64, Self::Error>;

    /// Deallocate physical pages.
    fn deallocate_pages(&mut self, addr: u64, count: usize) -> Result<(), Self::Error>;

    /// Map virtual pages to physical pages.
    fn map_pages(&mut self, virt: u64, phys: u64, count: usize, flags: u64) -> Result<
        (),
        Self::Error,
    >;

    /// Unmap virtual pages.
    fn unmap_pages(&mut self, virt: u64, count: usize) -> Result<(), Self::Error>;
}

/// x86-64 specific memory manager implementation. The paging operations are
/// not wired up yet and report failure.
pub struct X86MemoryManager {
    frame_allocator: Option<BootInfoFrameAllocator>,
}

impl X86MemoryManager {
    /// Whether a frame allocator has been attached.
    pub closed spec fn has_allocator(self) -> bool {
        self.frame_allocator is Some
    }

    pub fn new() -> (r: Self)
        ensures
            !r.has_allocator(),
    {
        Self { frame_allocator: None }
    }
}

impl PlatformMemoryManager for X86MemoryManager {
    type Error = MemoryError;

    fn init(&mut self) -> (r: Result<(), Self::Error>)
        ensures
            *final(self) == *old(self),
            r is Ok,
    {
        Ok(())
    }

    fn allocate_pages(&mut self, _count: usize) -> (r: Result<u64, Self::Error>)
        ensures
            *final(self) == *old(self),
            r == Err::<u64, MemoryError>(MemoryError::FrameAllocationFailed),
    {
        Err(MemoryError::FrameAllocationFailed)
    }

    fn deallocate_pages(&mut self, _addr: u64, _count: usize) -> (r: Result<(), Self::Error>)
        ensures
            *final(self) == *old(self),
            r is Ok,
    {
        Ok(())
    }

    fn map_pages(&mut self, _virt: u64, _phys: u64, _count: usize, _flags: u64) -> (r: Result<
        (),
        Self::Error,
    >)
        ensures
            *final(self) == *old(self),
            r == Err::<(), MemoryError>(MemoryError::MappingFailed),
    {
        Err(MemoryError::MappingFailed)
    }

    fn unmap_pages(&mut self, _virt: u64, _count: usize) -> (r: Result<(), Self::Error>)
        ensures
            *final(self) == *old(self),
            r is Ok,
    {
        Ok(())
    }
}

/// The allocation law: within one region map, the usable frame pool never
/// repeats an address and every address lies inside a region marked usable;
/// `allocate_frame` walks this pool in order, so no two successful calls
/// return the same frame, and the call after the pool is exhausted reports
/// out-of-memory.
pub proof fn lemma_frames_distinct_and_usable(s: Seq<MemoryRegion>)
    requires
        regions_wf(s),
    ensures
        forall|i: int, j: int|
            0 <= i < j < usable_frames(s).len() ==> usable_frames(s)[i] != usable_frames(s)[j],
        forall|i: int|
            0 <= i < usable_frames(s).len() ==> frame_in_usable_region(
                s,
                #[trigger] usable_frames(s)[i],
            ),
{
    lemma_usable_frames_bounds(s);
}

} // verus!
