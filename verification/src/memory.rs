//! Physical frames from the boot memory map, and address spaces as tables
//! from pages to frames.

use std::collections::BTreeMap;
use vstd::prelude::*;
use x86_64::structures::paging::{Page, PhysFrame, Size4KiB};
use x86_64::{PhysAddr, VirtAddr};

verus! {

/// Size of a page and of a frame.
pub const PAGE_SIZE: u64 = 4096;

/// The first address that is no physical address: physical addresses have 52 bits.
pub const PHYSICAL_END: u64 = 0x10_0000_0000_0000;

/// The first address above the lower half of the virtual address space.
pub const LOWER_HALF_END: u64 = 0x8000_0000_0000;

/// Where the code of a process starts.
pub const CODE_START: u64 = 0x0000_0000_0000;

/// The size of the code range of a process: 1 MiB.
pub const CODE_SIZE: u64 = 1024 * 1024;

/// Where the heap of a process starts.
pub const PROCESS_HEAP_START: u64 = 0x4000_0000_0000;

/// The size of the heap range of a process: 1 MiB.
pub const PROCESS_HEAP_SIZE: u64 = 1024 * 1024;

/// The page is mapped.
pub const FLAG_PRESENT: u64 = 1;

/// The page may be written.
pub const FLAG_WRITABLE: u64 = 2;

/// User code may access the page.
pub const FLAG_USER_ACCESSIBLE: u64 = 4;

/// No code runs from the page.
pub const FLAG_NO_EXECUTE: u64 = 0x8000_0000_0000_0000;

/// The flags of kernel data: present, writable, not executable.
pub const KERNEL_DATA_FLAGS: u64 = 0x8000_0000_0000_0003;

/// The flags of kernel code: present and writable.
pub const KERNEL_CODE_FLAGS: u64 = 3;

/// The flags of the pages of a program: present, writable, open to user code.
pub const USER_FLAGS: u64 = 7;

/// The start of the frame or page that holds `address`.
pub open spec fn aligned_down(address: u64) -> u64 {
    (address - address % 4096) as u64
}

/// The start of the frame that contains the physical address `address`,
/// from `PhysFrame::containing_address` of the x86_64 crate. The crate
/// aligns the address down to the frame size of 4 KiB; it does not take
/// an address of more than 52 bits.
#[verifier::external_body]
fn frame_containing(address: u64) -> (start: u64)
    requires
        address < PHYSICAL_END,
    ensures
        start == aligned_down(address),
{
    PhysFrame::<Size4KiB>::containing_address(PhysAddr::new(address)).start_address().as_u64()
}

/// The start of the page that contains the virtual address `address`, from
/// `Page::containing_address` of the x86_64 crate. The crate aligns the
/// address down to the page size of 4 KiB. Only addresses of the lower
/// half are handed to it, which it takes as they are.
#[verifier::external_body]
pub(crate) fn page_containing(address: u64) -> (start: u64)
    requires
        address < LOWER_HALF_END,
    ensures
        start == aligned_down(address),
{
    Page::<Size4KiB>::containing_address(VirtAddr::new(address)).start_address().as_u64()
}

/// What a region of the boot memory map is used for.
#[derive(Debug, Clone, Copy, PartialEq, Eq, Structural)]
pub enum MemoryRegionType {
    Usable,
    Reserved,
    KernelCode,
    Other,
}

/// A region of the boot memory map: the addresses from `start` up to, not
/// including, `end`.
#[derive(Debug, Clone, Copy, PartialEq, Eq, Structural)]
pub struct MemoryRegion {
    pub start: u64,
    pub end: u64,
    pub region_type: MemoryRegionType,
}

/// The number of frames that a region yields: for a usable region one for
/// every step of 4 KiB from its start that stays below its end.
pub open spec fn frames_in(region: MemoryRegion) -> nat {
    if region.region_type == MemoryRegionType::Usable && region.start < region.end {
        ((region.end - region.start + 4095) / 4096) as nat
    } else {
        0
    }
}

/// The number of frames that the regions yield.
pub open spec fn frame_count(regions: Seq<MemoryRegion>) -> nat
    decreases regions.len(),
{
    if regions.len() == 0 {
        0
    } else {
        frames_in(regions[0]) + frame_count(regions.skip(1))
    }
}

/// The `n`-th frame that the regions yield, counted from zero: the regions
/// in their order, and in each the frames from its start upwards.
pub open spec fn nth_frame(regions: Seq<MemoryRegion>, n: nat) -> Option<u64>
    decreases regions.len(),
{
    if regions.len() == 0 {
        None
    } else if n < frames_in(regions[0]) {
        Some(aligned_down((regions[0].start + n * 4096) as u64))
    } else {
        nth_frame(regions.skip(1), (n - frames_in(regions[0])) as nat)
    }
}

/// There is an `n`-th frame exactly if `n` is below the number of frames.
pub proof fn lemma_nth_frame_exists(regions: Seq<MemoryRegion>, n: nat)
    ensures
        nth_frame(regions, n) is Some <==> n < frame_count(regions),
    decreases regions.len(),
{
    if regions.len() > 0 && n >= frames_in(regions[0]) {
        lemma_nth_frame_exists(regions.skip(1), (n - frames_in(regions[0])) as nat);
    }
}

/// The region that yields the `n`-th frame, by its place in the map.
pub open spec fn region_of(regions: Seq<MemoryRegion>, n: nat) -> int
    decreases regions.len(),
{
    if regions.len() == 0 || n < frames_in(regions[0]) {
        0
    } else {
        1 + region_of(regions.skip(1), (n - frames_in(regions[0])) as nat)
    }
}

/// The place of the `n`-th frame among the frames of its region.
pub open spec fn offset_of(regions: Seq<MemoryRegion>, n: nat) -> nat
    decreases regions.len(),
{
    if regions.len() == 0 || n < frames_in(regions[0]) {
        n
    } else {
        offset_of(regions.skip(1), (n - frames_in(regions[0])) as nat)
    }
}

/// Whether the regions of a memory map that yield frames start at the
/// start of a frame and share no address.
pub open spec fn laid_out(regions: Seq<MemoryRegion>) -> bool {
    &&& forall|i: int|
        0 <= i < regions.len() && frames_in(#[trigger] regions[i]) > 0 ==> regions[i].start % 4096
            == 0
    &&& forall|i: int, j: int|
        0 <= i < regions.len() && 0 <= j < regions.len() && i != j && frames_in(
            #[trigger] regions[i],
        ) > 0 && frames_in(#[trigger] regions[j]) > 0 ==> regions[i].end <= regions[j].start
            || regions[j].end <= regions[i].start
}

/// The `n`-th frame lies in its region, at its place.
pub proof fn lemma_frame_place(regions: Seq<MemoryRegion>, n: nat)
    requires
        n < frame_count(regions),
    ensures
        0 <= region_of(regions, n) < regions.len(),
        offset_of(regions, n) < frames_in(regions[region_of(regions, n)]),
        nth_frame(regions, n) == Some(
            aligned_down(
                (regions[region_of(regions, n)].start + offset_of(regions, n) * 4096) as u64,
            ),
        ),
    decreases regions.len(),
{
    if regions.len() > 0 && n >= frames_in(regions[0]) {
        let rest = regions.skip(1);
        let m = (n - frames_in(regions[0])) as nat;
        lemma_frame_place(rest, m);
        assert(rest[region_of(rest, m)] == regions[region_of(rest, m) + 1]);
    }
}

/// Two frames with different numbers differ in their region or in their
/// place in it.
pub proof fn lemma_places_differ(regions: Seq<MemoryRegion>, n: nat, m: nat)
    requires
        n != m,
        n < frame_count(regions),
        m < frame_count(regions),
    ensures
        region_of(regions, n) != region_of(regions, m) || offset_of(regions, n) != offset_of(
            regions,
            m,
        ),
    decreases regions.len(),
{
    if regions.len() > 0 {
        let first = frames_in(regions[0]);
        if n >= first && m >= first {
            lemma_places_differ(regions.skip(1), (n - first) as nat, (m - first) as nat);
        } else if n >= first {
            lemma_frame_place(regions.skip(1), (n - first) as nat);
        } else if m >= first {
            lemma_frame_place(regions.skip(1), (m - first) as nat);
        }
    }
}

/// No frame is handed out twice: where the regions of the memory map start
/// at the start of a frame and share no address, frames with different
/// numbers are different frames.
pub proof fn lemma_frames_distinct(regions: Seq<MemoryRegion>, n: nat, m: nat)
    requires
        BootInfoFrameAllocator::regions_valid(regions),
        laid_out(regions),
        n != m,
        nth_frame(regions, n) is Some,
        nth_frame(regions, m) is Some,
    ensures
        nth_frame(regions, n) != nth_frame(regions, m),
{
    lemma_nth_frame_exists(regions, n);
    lemma_nth_frame_exists(regions, m);
    lemma_frame_place(regions, n);
    lemma_frame_place(regions, m);
    lemma_places_differ(regions, n, m);
    let a = regions[region_of(regions, n)];
    let b = regions[region_of(regions, m)];
    let j = offset_of(regions, n);
    let k = offset_of(regions, m);
    assert(a.end <= PHYSICAL_END && b.end <= PHYSICAL_END);
    assert(a.start <= a.start + j * 4096 < a.end && (a.start + j * 4096) % 4096 == 0) by {
        lemma_in_region(a, j);
    }
    assert(b.start <= b.start + k * 4096 < b.end && (b.start + k * 4096) % 4096 == 0) by {
        lemma_in_region(b, k);
    }
}

/// The `k`-th frame of a region that starts at the start of a frame
/// starts within the region, at the start of a frame.
proof fn lemma_in_region(region: MemoryRegion, k: nat)
    requires
        k < frames_in(region),
        region.start % 4096 == 0,
    ensures
        region.start <= region.start + k * 4096 < region.end,
        (region.start + k * 4096) % 4096 == 0,
{
    let span = region.end - region.start;
    assert(k < (span + 4095) / 4096);
    assert(k * 4096 < span) by (nonlinear_arith)
        requires
            k < (span + 4095) / 4096,
            span > 0,
    ;
    assert((region.start + k * 4096) % 4096 == 0) by (nonlinear_arith)
        requires
            region.start % 4096 == 0,
    ;
}

/// Hands out the frames of the usable regions of the boot memory map, each
/// once, and takes none back.
pub struct BootInfoFrameAllocator {
    regions: Vec<MemoryRegion>,
    next: u64,
}

impl BootInfoFrameAllocator {
    pub closed spec fn regions(&self) -> Seq<MemoryRegion> {
        self.regions@
    }

    /// The number of frames handed out so far.
    pub closed spec fn next(&self) -> u64 {
        self.next
    }

    /// Every region ends within the physical addresses.
    pub open spec fn regions_valid(regions: Seq<MemoryRegion>) -> bool {
        forall|i: int| 0 <= i < regions.len() ==> (#[trigger] regions[i]).end <= PHYSICAL_END
    }

    pub open spec fn wf(&self) -> bool {
        Self::regions_valid(self.regions())
    }

    /// Whether every region ends within the physical addresses, so that an
    /// allocator can be made of them.
    pub fn valid(regions: &Vec<MemoryRegion>) -> (r: bool)
        ensures
            r == Self::regions_valid(regions@),
    {
        let mut i: usize = 0;
        while i < regions.len()
            invariant
                i <= regions@.len(),
                forall|j: int| 0 <= j < i ==> (#[trigger] regions@[j]).end <= PHYSICAL_END,
            decreases regions@.len() - i,
        {
            if regions[i].end > PHYSICAL_END {
                return false;
            }
            i = i + 1;
        }
        true
    }

    /// An allocator over the regions of the boot memory map that has
    /// handed out nothing yet.
    pub fn init(regions: Vec<MemoryRegion>) -> (r: Self)
        requires
            Self::regions_valid(regions@),
        ensures
            r.wf(),
            r.regions() == regions@,
            r.next() == 0,
    {
        BootInfoFrameAllocator { regions, next: 0 }
    }

    fn frames_of(region: &MemoryRegion) -> (r: u64)
        requires
            region.end <= PHYSICAL_END,
        ensures
            r == frames_in(*region),
    {
        if region.region_type == MemoryRegionType::Usable && region.start < region.end {
            (region.end - region.start + (PAGE_SIZE - 1)) / PAGE_SIZE
        } else {
            0
        }
    }

    /// The `n`-th frame that the regions yield.
    pub fn frame_at(&self, n: u64) -> (r: Option<u64>)
        requires
            self.wf(),
        ensures
            r == nth_frame(self.regions(), n as nat),
    {
        let mut remaining: u64 = n;
        let mut i: usize = 0;
        assert(self.regions@.skip(0) =~= self.regions@);
        while i < self.regions.len()
            invariant
                i <= self.regions@.len(),
                self.wf(),
                nth_frame(self.regions@, n as nat) == nth_frame(
                    self.regions@.skip(i as int),
                    remaining as nat,
                ),
            decreases self.regions@.len() - i,
        {
            let region = &self.regions[i];
            let count = Self::frames_of(region);
            assert(self.regions@.skip(i as int)[0] == self.regions@[i as int]);
            if remaining < count {
                assert(region.start + remaining * 4096 < region.end);
                return Some(frame_containing(region.start + remaining * PAGE_SIZE));
            }
            remaining = remaining - count;
            assert(self.regions@.skip(i as int).skip(1) =~= self.regions@.skip(i + 1));
            i = i + 1;
        }
        None
    }

    /// Hands out the next frame: the `n`-th frame on the `n`-th call,
    /// counted from zero, and nothing once the frames are used up.
    pub fn allocate_frame(&mut self) -> (r: Option<u64>)
        requires
            old(self).wf(),
        ensures
            final(self).wf(),
            final(self).regions() == old(self).regions(),
            r == (if old(self).next() == u64::MAX {
                None
            } else {
                nth_frame(old(self).regions(), old(self).next() as nat)
            }),
            final(self).next() == (if r is Some {
                old(self).next() + 1
            } else {
                old(self).next() as int
            }),
    {
        if self.next == u64::MAX {
            return None;
        }
        let frame = self.frame_at(self.next);
        if frame.is_some() {
            self.next = self.next + 1;
        }
        frame
    }
}

/// The place of the one frame allocator of the kernel: empty until the
/// boot path has filled it.
pub struct FrameAllocatorSlot {
    pub allocator: Option<BootInfoFrameAllocator>,
}

impl FrameAllocatorSlot {
    /// An empty place.
    pub fn new() -> (r: Self)
        ensures
            r.allocator is None,
    {
        FrameAllocatorSlot { allocator: None }
    }
}

/// Puts an allocator over the regions of the boot memory map into the
/// place, which must be empty: the allocator is set up once.
pub fn init_frame_allocator(slot: &mut FrameAllocatorSlot, regions: Vec<MemoryRegion>)
    requires
        old(slot).allocator is None,
        BootInfoFrameAllocator::regions_valid(regions@),
    ensures
        final(slot).allocator matches Some(a) && a.wf() && a.regions() == regions@ && a.next() == 0,
{
    slot.allocator = Some(BootInfoFrameAllocator::init(regions));
}

/// Whether the frame allocator has been set up.
pub fn ensure_frame_allocator_initialized(slot: &FrameAllocatorSlot) -> (r: Result<
    (),
    &'static str,
>)
    ensures
        r == (if slot.allocator is Some {
            Ok::<(), &'static str>(())
        } else {
            Err::<(), &'static str>("Frame allocator not initialized")
        }),
{
    if slot.allocator.is_some() {
        Ok(())
    } else {
        Err("Frame allocator not initialized")
    }
}

/// Why a page could not be mapped.
#[derive(Debug, Clone, Copy, PartialEq, Eq, Structural)]
pub enum MapError {
    /// No frame is left.
    FrameAllocationFailed,
    /// The page is mapped already.
    MappingFailed,
}

/// What a page is mapped to.
#[derive(Debug, Clone, Copy, PartialEq, Eq, Structural)]
pub struct PageEntry {
    pub frame: u64,
    pub flags: u64,
}

/// A part of a program and the frame that it goes to.
#[derive(Debug, Clone, Copy, PartialEq, Eq, Structural)]
pub struct LoadedChunk {
    pub page: u64,
    pub frame: u64,
    /// Where the part starts in the program.
    pub offset: usize,
    pub len: usize,
}

/// The frame that the allocator hands out `k` calls from now.
pub open spec fn upcoming(regions: Seq<MemoryRegion>, next: u64, k: nat) -> Option<u64> {
    if next + k >= u64::MAX {
        None
    } else {
        nth_frame(regions, next as nat + k)
    }
}

/// Page `j` of the run that starts at `first`.
pub open spec fn run_page(first: u64, j: nat) -> int {
    first + j * 4096
}

/// Whether `p` is one of the first `k` pages of the run that starts at `first`.
pub open spec fn in_run(first: u64, k: nat, p: u64) -> bool {
    p >= first && (p - first) % 4096 == 0 && (p - first) / 4096 < k
}

/// The place of page `p` in the run that starts at `first`.
pub open spec fn run_index(first: u64, p: u64) -> nat {
    ((p - first) / 4096) as nat
}

/// The table `pages` after the first `k` pages of the run that starts at
/// `first` were mapped, each to the frame that the allocator hands out
/// for it.
pub open spec fn mapped_run(
    pages: Map<u64, PageEntry>,
    regions: Seq<MemoryRegion>,
    next: u64,
    first: u64,
    flags: u64,
    k: nat,
) -> Map<u64, PageEntry> {
    Map::new(
        |p: u64| pages.contains_key(p) || in_run(first, k, p),
        |p: u64|
            if in_run(first, k, p) {
                PageEntry { frame: upcoming(regions, next, run_index(first, p))->0, flags }
            } else {
                pages[p]
            },
    )
}

/// The table `pages` without the first `k` pages of the run that starts at `first`.
pub open spec fn without_run(pages: Map<u64, PageEntry>, first: u64, k: nat) -> Map<u64, PageEntry> {
    Map::new(|p: u64| pages.contains_key(p) && !in_run(first, k, p), |p: u64| pages[p])
}

/// Whether page `k` of the run that starts at `first` can be mapped: a
/// frame is left for it and the page is not mapped in `pages`.
pub open spec fn mappable(
    pages: Map<u64, PageEntry>,
    regions: Seq<MemoryRegion>,
    next: u64,
    first: u64,
    k: nat,
) -> bool {
    upcoming(regions, next, k) is Some && !pages.contains_key(run_page(first, k) as u64)
}

/// The number of pages of the run that get mapped before one fails, out
/// of `count`: `count` itself if none fails.
pub open spec fn mapped_before_failure(
    pages: Map<u64, PageEntry>,
    regions: Seq<MemoryRegion>,
    next: u64,
    first: u64,
    count: nat,
) -> nat
    decreases count,
{
    if count == 0 {
        0
    } else {
        let before = mapped_before_failure(pages, regions, next, first, (count - 1) as nat);
        if before == count - 1 && mappable(pages, regions, next, first, (count - 1) as nat) {
            count
        } else {
            before
        }
    }
}

/// Part `k` of a program of `len` bytes loaded from `first` on: its page,
/// the frame that the allocator hands out for it, and the bytes that go there.
pub open spec fn chunk_at(
    first: u64,
    regions: Seq<MemoryRegion>,
    next: u64,
    len: nat,
    k: nat,
) -> LoadedChunk {
    LoadedChunk {
        page: run_page(first, k) as u64,
        frame: upcoming(regions, next, k)->0,
        offset: (k * 4096) as usize,
        len: (if len - k * 4096 < 4096 {
            len - k * 4096
        } else {
            4096
        }) as usize,
    }
}

/// Once a page of the run cannot be mapped, the count of pages mapped stays.
pub proof fn lemma_stops(
    pages: Map<u64, PageEntry>,
    regions: Seq<MemoryRegion>,
    next: u64,
    first: u64,
    i: nat,
    count: nat,
)
    requires
        i < count,
        i == mapped_before_failure(pages, regions, next, first, i),
        !mappable(pages, regions, next, first, i),
    ensures
        mapped_before_failure(pages, regions, next, first, count) == i,
    decreases count,
{
    if count > i + 1 {
        lemma_stops(pages, regions, next, first, i, (count - 1) as nat);
    }
}

/// No more pages are mapped than the run has, and the pages that are
/// mapped of a longer run are mapped of the shorter one too.
pub proof fn lemma_count_bound(
    pages: Map<u64, PageEntry>,
    regions: Seq<MemoryRegion>,
    next: u64,
    first: u64,
    count: nat,
)
    ensures
        mapped_before_failure(pages, regions, next, first, count) <= count,
        mapped_before_failure(
            pages,
            regions,
            next,
            first,
            mapped_before_failure(pages, regions, next, first, count),
        ) == mapped_before_failure(pages, regions, next, first, count),
    decreases count,
{
    if count > 0 {
        lemma_count_bound(pages, regions, next, first, (count - 1) as nat);
    }
}

/// Where the whole run was mapped, every page of it could be mapped.
pub proof fn lemma_all_mappable(
    pages: Map<u64, PageEntry>,
    regions: Seq<MemoryRegion>,
    next: u64,
    first: u64,
    count: nat,
    k: nat,
)
    requires
        k < count,
        mapped_before_failure(pages, regions, next, first, count) == count,
    ensures
        mappable(pages, regions, next, first, k),
    decreases count,
{
    lemma_count_bound(pages, regions, next, first, (count - 1) as nat);
    if k < count - 1 {
        lemma_all_mappable(pages, regions, next, first, (count - 1) as nat, k);
    }
}

/// Unmapping a run that was mapped into free pages gives the table as it
/// was: loading is all or nothing.
pub proof fn lemma_rollback(
    pages: Map<u64, PageEntry>,
    regions: Seq<MemoryRegion>,
    next: u64,
    first: u64,
    flags: u64,
    k: nat,
)
    requires
        mapped_before_failure(pages, regions, next, first, k) == k,
        first + k * 4096 <= u64::MAX,
    ensures
        without_run(mapped_run(pages, regions, next, first, flags, k), first, k) == pages,
{
    let m = mapped_run(pages, regions, next, first, flags, k);
    let w = without_run(m, first, k);
    assert forall|p: u64| pages.contains_key(p) implies !in_run(first, k, p) by {
        if in_run(first, k, p) {
            let j = run_index(first, p);
            lemma_all_mappable(pages, regions, next, first, k, j);
            assert(run_page(first, j) == p);
        }
    }
    assert(w =~= pages);
}

/// The number of pages that `len` bytes fill, the last one perhaps in part.
pub open spec fn pages_for(len: nat) -> nat {
    (len + 4095) / 4096
}

/// An address space: the table from the pages that are mapped to their
/// frames, and where code and heap lie.
pub struct MemorySpace {
    pub pages: BTreeMap<u64, PageEntry>,
    pub heap_start: u64,
    pub heap_size: u64,
    pub code_start: u64,
    pub code_size: u64,
}

impl View for MemorySpace {
    type V = Map<u64, PageEntry>;

    open spec fn view(&self) -> Map<u64, PageEntry> {
        self.pages@
    }
}

impl MemorySpace {
    /// An address space with nothing mapped and the fixed layout of a process.
    pub fn new() -> (r: Result<Self, MapError>)
        ensures
            r matches Ok(space) && space@ == Map::<u64, PageEntry>::empty() && space.heap_start
                == PROCESS_HEAP_START && space.heap_size == PROCESS_HEAP_SIZE && space.code_start
                == CODE_START && space.code_size == CODE_SIZE,
    {
        Ok(
            MemorySpace {
                pages: BTreeMap::new(),
                heap_start: PROCESS_HEAP_START,
                heap_size: PROCESS_HEAP_SIZE,
                code_start: CODE_START,
                code_size: CODE_SIZE,
            },
        )
    }

    /// Where a loaded program starts to run: at the start of the code range.
    pub fn entry_point(&self) -> (r: u64)
        ensures
            r == self.code_start,
    {
        self.code_start
    }

    /// What `page` is mapped to.
    pub fn translate(&self, page: u64) -> (r: Option<PageEntry>)
        ensures
            r == (if self@.contains_key(page) {
                Some(self@[page])
            } else {
                None
            }),
    {
        match self.pages.get(&page) {
            Some(entry) => Some(*entry),
            None => None,
        }
    }

    /// Maps `page` to `frame`; a page that is mapped stays as it is and the
    /// call fails with `MappingFailed`.
    pub fn map_to(&mut self, page: u64, frame: u64, flags: u64) -> (r: Result<(), MapError>)
        ensures
            final(self).heap_start == old(self).heap_start,
            final(self).heap_size == old(self).heap_size,
            final(self).code_start == old(self).code_start,
            final(self).code_size == old(self).code_size,
            old(self)@.contains_key(page) ==> r == Err::<(), MapError>(MapError::MappingFailed)
                && final(self)@ == old(self)@,
            !old(self)@.contains_key(page) ==> r is Ok && final(self)@ == old(self)@.insert(
                page,
                PageEntry { frame, flags },
            ),
    {
        if self.pages.contains_key(&page) {
            return Err(MapError::MappingFailed);
        }
        let _ = self.pages.insert(page, PageEntry { frame, flags });
        Ok(())
    }

    /// Unmaps `page` and says what it was mapped to.
    pub fn unmap(&mut self, page: u64) -> (r: Option<PageEntry>)
        ensures
            final(self).heap_start == old(self).heap_start,
            final(self).heap_size == old(self).heap_size,
            final(self).code_start == old(self).code_start,
            final(self).code_size == old(self).code_size,
            final(self)@ == old(self)@.remove(page),
            r == (if old(self)@.contains_key(page) {
                Some(old(self)@[page])
            } else {
                None
            }),
    {
        self.pages.remove(&page)
    }

    /// Maps the `count` pages from `first` on, each to the next frame of
    /// the allocator, and stops at the first page for which no frame is
    /// left or which is mapped already. The answer is the number of pages
    /// mapped and, if that is less than `count`, why the next one failed.
    /// The frame taken for a page that is mapped already is lost.
    pub fn map_run(
        &mut self,
        frames: &mut BootInfoFrameAllocator,
        first: u64,
        count: u64,
        flags: u64,
    ) -> (r: (u64, Option<MapError>))
        requires
            old(frames).wf(),
            first + count * 4096 <= u64::MAX,
        ensures
            final(frames).wf(),
            final(frames).regions() == old(frames).regions(),
            final(self).heap_start == old(self).heap_start,
            final(self).heap_size == old(self).heap_size,
            final(self).code_start == old(self).code_start,
            final(self).code_size == old(self).code_size,
            r.0 == mapped_before_failure(
                old(self)@,
                old(frames).regions(),
                old(frames).next(),
                first,
                count as nat,
            ),
            final(self)@ == mapped_run(
                old(self)@,
                old(frames).regions(),
                old(frames).next(),
                first,
                flags,
                r.0 as nat,
            ),
            r.0 <= count,
            r.1 is None <==> r.0 == count,
            r.1 == Some(MapError::FrameAllocationFailed) ==> upcoming(
                old(frames).regions(),
                old(frames).next(),
                r.0 as nat,
            ) is None && final(frames).next() == old(frames).next() + r.0,
            r.1 == Some(MapError::MappingFailed) ==> upcoming(
                old(frames).regions(),
                old(frames).next(),
                r.0 as nat,
            ) is Some && old(self)@.contains_key(run_page(first, r.0 as nat) as u64)
                && final(frames).next() == old(frames).next() + r.0 + 1,
            r.1 is None ==> final(frames).next() == old(frames).next() + count,
    {
        let ghost pages0 = self@;
        let ghost regions = frames.regions();
        let ghost next0 = frames.next();
        let mut i: u64 = 0;
        assert(self@ =~= mapped_run(pages0, regions, next0, first, flags, 0));
        while i < count
            invariant
                i <= count,
                pages0 == old(self)@,
                regions == old(frames).regions(),
                next0 == old(frames).next(),
                frames.wf(),
                frames.regions() == regions,
                frames.next() == next0 + i,
                first + count * 4096 <= u64::MAX,
                self.heap_start == old(self).heap_start,
                self.heap_size == old(self).heap_size,
                self.code_start == old(self).code_start,
                self.code_size == old(self).code_size,
                i == mapped_before_failure(pages0, regions, next0, first, i as nat),
                self@ == mapped_run(pages0, regions, next0, first, flags, i as nat),
            decreases count - i,
        {
            let page: u64 = first + i * PAGE_SIZE;
            assert(!in_run(first, i as nat, page));
            assert(page == run_page(first, i as nat));
            let frame = match frames.allocate_frame() {
                Some(frame) => frame,
                None => {
                    proof {
                        lemma_stops(pages0, regions, next0, first, i as nat, count as nat);
                    }
                    return (i, Some(MapError::FrameAllocationFailed));
                },
            };
            match self.map_to(page, frame, flags) {
                Ok(()) => {},
                Err(e) => {
                    proof {
                        lemma_stops(pages0, regions, next0, first, i as nat, count as nat);
                    }
                    return (i, Some(MapError::MappingFailed));
                },
            }
            proof {
                assert forall|p: u64| in_run(first, (i + 1) as nat, p) <==> (in_run(
                    first,
                    i as nat,
                    p,
                ) || p == page) by {}
                assert(run_index(first, page) == i);
                assert(self@ =~= mapped_run(pages0, regions, next0, first, flags, (i + 1) as nat));
            }
            i = i + 1;
        }
        (i, None)
    }

    /// Unmaps the first `count` pages of the run that starts at `first`.
    pub fn unmap_run(&mut self, first: u64, count: u64)
        requires
            first + count * 4096 <= u64::MAX,
        ensures
            final(self).heap_start == old(self).heap_start,
            final(self).heap_size == old(self).heap_size,
            final(self).code_start == old(self).code_start,
            final(self).code_size == old(self).code_size,
            final(self)@ == without_run(old(self)@, first, count as nat),
    {
        let mut i: u64 = 0;
        assert(self@ =~= without_run(old(self)@, first, 0));
        while i < count
            invariant
                i <= count,
                first + count * 4096 <= u64::MAX,
                self.heap_start == old(self).heap_start,
                self.heap_size == old(self).heap_size,
                self.code_start == old(self).code_start,
                self.code_size == old(self).code_size,
                self@ == without_run(old(self)@, first, i as nat),
            decreases count - i,
        {
            let page: u64 = first + i * PAGE_SIZE;
            let _ = self.unmap(page);
            proof {
                assert forall|p: u64| in_run(first, (i + 1) as nat, p) <==> (in_run(
                    first,
                    i as nat,
                    p,
                ) || p == page) by {}
                assert(self@ =~= without_run(old(self)@, first, (i + 1) as nat));
            }
            i = i + 1;
        }
    }

    /// Loads the program `program` into the code range: it is split into
    /// parts of 4 KiB, and for each part the next frame of the allocator
    /// is mapped at the next page of the code range, open to user code.
    /// The answer lists the parts with their pages and frames, for the
    /// copying. If a frame is missing or a page is mapped already, the
    /// pages mapped so far are unmapped again and the table is as before;
    /// the frames taken are lost.
    pub fn load_program(&mut self, frames: &mut BootInfoFrameAllocator, program: &[u8]) -> (r:
        Result<Vec<LoadedChunk>, MapError>)
        requires
            old(frames).wf(),
            old(self).code_start % PAGE_SIZE == 0,
            old(self).code_start + program@.len() + PAGE_SIZE <= LOWER_HALF_END,
        ensures
            final(frames).wf(),
            final(frames).regions() == old(frames).regions(),
            final(self).heap_start == old(self).heap_start,
            final(self).heap_size == old(self).heap_size,
            final(self).code_start == old(self).code_start,
            final(self).code_size == old(self).code_size,
            ({
                let count = pages_for(program@.len());
                let done = mapped_before_failure(
                    old(self)@,
                    old(frames).regions(),
                    old(frames).next(),
                    old(self).code_start,
                    count,
                );
                match r {
                    Ok(chunks) => {
                        &&& done == count
                        &&& final(frames).next() == old(frames).next() + count
                        &&& final(self)@ == mapped_run(
                            old(self)@,
                            old(frames).regions(),
                            old(frames).next(),
                            old(self).code_start,
                            USER_FLAGS,
                            count,
                        )
                        &&& chunks@.len() == count
                        &&& forall|k: int|
                            0 <= k < count ==> (#[trigger] chunks@[k]) == chunk_at(
                                old(self).code_start,
                                old(frames).regions(),
                                old(frames).next(),
                                program@.len(),
                                k as nat,
                            )
                    },
                    Err(e) => {
                        &&& done < count
                        &&& final(self)@ == old(self)@
                        &&& e == (if upcoming(
                            old(frames).regions(),
                            old(frames).next(),
                            done,
                        ) is None {
                            MapError::FrameAllocationFailed
                        } else {
                            MapError::MappingFailed
                        })
                        &&& final(frames).next() == old(frames).next() + done + (if e
                            == MapError::MappingFailed {
                            1int
                        } else {
                            0int
                        })
                    },
                }
            }),
    {
        let len = program.len();
        let count: u64 = ((len as u64) + (PAGE_SIZE - 1)) / PAGE_SIZE;
        let first = self.code_start;
        assert(count * 4096 <= len + 4096);
        let ghost pages0 = self@;
        let ghost regions = frames.regions();
        let ghost next0 = frames.next();
        let (done, failure) = self.map_run(frames, first, count, USER_FLAGS);
        match failure {
            Some(e) => {
                proof {
                    lemma_count_bound(pages0, regions, next0, first, count as nat);
                    lemma_rollback(pages0, regions, next0, first, USER_FLAGS, done as nat);
                }
                self.unmap_run(first, done);
                Err(e)
            },
            None => {
                let mut chunks: Vec<LoadedChunk> = Vec::new();
                let mut k: u64 = 0;
                while k < count
                    invariant
                        k <= count,
                        count == pages_for(len as nat),
                        len == program@.len(),
                        first == self.code_start,
                        first % PAGE_SIZE == 0,
                        first + len + PAGE_SIZE <= LOWER_HALF_END,
                        count * 4096 <= len + 4096,
                        count == mapped_before_failure(
                            pages0,
                            regions,
                            next0,
                            first,
                            count as nat,
                        ),
                        self@ == mapped_run(pages0, regions, next0, first, USER_FLAGS, count as nat),
                        chunks@.len() == k,
                        forall|j: int|
                            0 <= j < k ==> (#[trigger] chunks@[j]) == chunk_at(
                                first,
                                regions,
                                next0,
                                len as nat,
                                j as nat,
                            ),
                    decreases count - k,
                {
                    assert(k * 4096 < len);
                    let offset: u64 = k * PAGE_SIZE;
                    let rest: u64 = (len as u64) - offset;
                    let part: u64 = if rest < PAGE_SIZE {
                        rest
                    } else {
                        PAGE_SIZE
                    };
                    let page = page_containing(first + offset);
                    assert(page == run_page(first, k as nat));
                    assert(in_run(first, count as nat, page) && run_index(first, page) == k);
                    let frame = match self.translate(page) {
                        Some(entry) => entry.frame,
                        None => 0,
                    };
                    chunks.push(
                        LoadedChunk { page, frame, offset: offset as usize, len: part as usize },
                    );
                    k = k + 1;
                }
                Ok(chunks)
            },
        }
    }
}

} // verus!
