//! The kernel heap: where it lies, how it grows, and what it counts.

use vstd::prelude::*;
use crate::memory::{
    aligned_down, mapped_before_failure, mapped_run, page_containing, BootInfoFrameAllocator,
    MapError, MemorySpace, KERNEL_DATA_FLAGS, PAGE_SIZE,
};

verus! {

/// The first address of the heap.
pub const HEAP_START: u64 = 0x4444_4444_0000;

/// The size of the heap at start: 100 KiB.
pub const HEAP_SIZE: u64 = 100 * 1024;

/// The size that the heap never exceeds: 1 MiB.
pub const HEAP_MAX_SIZE: u64 = 1024 * 1024;

/// The usage of the heap.
#[derive(Debug, Clone, Copy, PartialEq, Eq, Structural)]
pub struct HeapStats {
    pub allocated_bytes: usize,
    pub allocation_count: usize,
    pub peak_memory_usage: usize,
    pub current_heap_size: usize,
}

impl HeapStats {
    /// The peak is never below what is allocated.
    pub open spec fn wf(&self) -> bool {
        self.allocated_bytes <= self.peak_memory_usage
    }

    /// The statistics of a heap of `heap_size` bytes of which nothing is allocated.
    pub fn new(heap_size: usize) -> (r: Self)
        ensures
            r == (HeapStats {
                allocated_bytes: 0,
                allocation_count: 0,
                peak_memory_usage: 0,
                current_heap_size: heap_size,
            }),
            r.wf(),
    {
        HeapStats {
            allocated_bytes: 0,
            allocation_count: 0,
            peak_memory_usage: 0,
            current_heap_size: heap_size,
        }
    }
}

/// A copy of the statistics as they stand.
pub fn get_heap_stats(stats: &HeapStats) -> (r: HeapStats)
    ensures
        r == *stats,
{
    *stats
}

/// Counts an allocation of `size` bytes: the allocated bytes grow by
/// `size`, the count by one, and the peak follows where it is exceeded.
/// Neither number runs over: each stops at the largest.
pub fn track_allocation(stats: &mut HeapStats, size: usize)
    requires
        old(stats).wf(),
    ensures
        final(stats).wf(),
        final(stats).allocated_bytes == (if old(stats).allocated_bytes + size <= usize::MAX {
            old(stats).allocated_bytes + size
        } else {
            usize::MAX as int
        }),
        final(stats).allocation_count == (if old(stats).allocation_count < usize::MAX {
            old(stats).allocation_count + 1
        } else {
            usize::MAX as int
        }),
        final(stats).peak_memory_usage
            == (if final(stats).allocated_bytes > old(stats).peak_memory_usage {
            final(stats).allocated_bytes
        } else {
            old(stats).peak_memory_usage
        }),
        final(stats).current_heap_size == old(stats).current_heap_size,
{
    stats.allocated_bytes = if stats.allocated_bytes <= usize::MAX - size {
        stats.allocated_bytes + size
    } else {
        usize::MAX
    };
    if stats.allocation_count < usize::MAX {
        stats.allocation_count = stats.allocation_count + 1;
    }
    if stats.allocated_bytes > stats.peak_memory_usage {
        stats.peak_memory_usage = stats.allocated_bytes;
    }
}

/// Counts the release of `size` bytes: the allocated bytes shrink by
/// `size`, to zero at most. The peak stays.
pub fn track_deallocation(stats: &mut HeapStats, size: usize)
    requires
        old(stats).wf(),
    ensures
        final(stats).wf(),
        final(stats).allocated_bytes == (if size <= old(stats).allocated_bytes {
            old(stats).allocated_bytes - size
        } else {
            0
        }),
        final(stats).allocation_count == old(stats).allocation_count,
        final(stats).peak_memory_usage == old(stats).peak_memory_usage,
        final(stats).current_heap_size == old(stats).current_heap_size,
{
    stats.allocated_bytes = if size <= stats.allocated_bytes {
        stats.allocated_bytes - size
    } else {
        0
    };
}

/// What the heap that a failed allocation came from looked like.
#[derive(Debug, Clone, Copy, PartialEq, Eq, Structural)]
pub struct AllocationFailure {
    pub size: usize,
    pub align: usize,
    pub stats: HeapStats,
}

/// What the kernel reports before it gives up on a failed allocation of
/// `size` bytes aligned to `align`: the request and the statistics.
pub fn alloc_error_handler(stats: &HeapStats, size: usize, align: usize) -> (r: AllocationFailure)
    ensures
        r == (AllocationFailure { size, align, stats: *stats }),
{
    AllocationFailure { size, align, stats: *stats }
}

/// The number of pages of the heap at start.
pub const HEAP_PAGES: u64 = 25;

/// The number of pages from the one that holds `from` to the one that
/// holds `to`, both included; none if `to` lies below `from`'s page.
pub open spec fn pages_between(from: u64, to: u64) -> nat {
    if aligned_down(to) >= aligned_down(from) {
        ((aligned_down(to) - aligned_down(from)) / 4096 + 1) as nat
    } else {
        0
    }
}

/// Maps the heap at start into `space`: its 25 pages, each to the next
/// frame of the allocator, as kernel data. The mapping stops at the first
/// page for which no frame is left or which is mapped already, and what
/// was mapped until then stays. On success the answer is the statistics
/// of the new heap.
pub fn init_heap(space: &mut MemorySpace, frames: &mut BootInfoFrameAllocator) -> (r: Result<
    HeapStats,
    MapError,
>)
    requires
        old(frames).wf(),
    ensures
        final(frames).wf(),
        final(frames).regions() == old(frames).regions(),
        ({
            let done = mapped_before_failure(
                old(space)@,
                old(frames).regions(),
                old(frames).next(),
                HEAP_START,
                HEAP_PAGES as nat,
            );
            &&& final(space)@ == mapped_run(
                old(space)@,
                old(frames).regions(),
                old(frames).next(),
                HEAP_START,
                KERNEL_DATA_FLAGS,
                done,
            )
            &&& r is Ok <==> done == HEAP_PAGES
            &&& r matches Ok(stats) ==> stats == (HeapStats {
                allocated_bytes: 0,
                allocation_count: 0,
                peak_memory_usage: 0,
                current_heap_size: HEAP_SIZE as usize,
            })
            &&& r matches Err(e) ==> e == (if crate::memory::upcoming(
                old(frames).regions(),
                old(frames).next(),
                done,
            ) is None {
                MapError::FrameAllocationFailed
            } else {
                MapError::MappingFailed
            })
        }),
{
    let first = page_containing(HEAP_START);
    let last = page_containing(HEAP_START + HEAP_SIZE - 1);
    let count: u64 = (last - first) / PAGE_SIZE + 1;
    let (_done, failure) = space.map_run(frames, first, count, KERNEL_DATA_FLAGS);
    match failure {
        Some(e) => Err(e),
        None => Ok(HeapStats::new(HEAP_SIZE as usize)),
    }
}

/// Grows the heap by `additional_size` bytes. If that would take it over
/// the greatest heap size the call fails with `FrameAllocationFailed` and
/// nothing changes. Otherwise the pages from the one that holds the first
/// new byte to the one that holds the last are mapped as kernel data; the
/// mapping stops at the first failure, what was mapped stays, and only on
/// success the heap counts as grown.
pub fn try_expand_heap(
    space: &mut MemorySpace,
    frames: &mut BootInfoFrameAllocator,
    stats: &mut HeapStats,
    additional_size: usize,
) -> (r: Result<(), MapError>)
    requires
        old(frames).wf(),
        old(stats).wf(),
    ensures
        final(frames).wf(),
        final(frames).regions() == old(frames).regions(),
        final(stats).wf(),
        final(stats).allocated_bytes == old(stats).allocated_bytes,
        final(stats).allocation_count == old(stats).allocation_count,
        final(stats).peak_memory_usage == old(stats).peak_memory_usage,
        old(stats).current_heap_size + additional_size > HEAP_MAX_SIZE ==> r == Err::<(), MapError>(
            MapError::FrameAllocationFailed,
        ) && final(space)@ == old(space)@ && *final(stats) == *old(stats) && final(frames).next()
            == old(frames).next(),
        old(stats).current_heap_size + additional_size <= HEAP_MAX_SIZE ==> ({
            let first = aligned_down((HEAP_START + old(stats).current_heap_size) as u64);
            let count = pages_between(
                (HEAP_START + old(stats).current_heap_size) as u64,
                (HEAP_START + old(stats).current_heap_size + additional_size - 1) as u64,
            );
            let done = mapped_before_failure(
                old(space)@,
                old(frames).regions(),
                old(frames).next(),
                first,
                count,
            );
            &&& final(space)@ == mapped_run(
                old(space)@,
                old(frames).regions(),
                old(frames).next(),
                first,
                KERNEL_DATA_FLAGS,
                done,
            )
            &&& r is Ok <==> done == count
            &&& final(stats).current_heap_size == (if r is Ok {
                old(stats).current_heap_size + additional_size
            } else {
                old(stats).current_heap_size as int
            })
        }),
{
    let current = stats.current_heap_size;
    if current as u64 > HEAP_MAX_SIZE || additional_size as u64 > HEAP_MAX_SIZE - current as u64 {
        return Err(MapError::FrameAllocationFailed);
    }
    let new_size: u64 = current as u64 + additional_size as u64;
    let first = page_containing(HEAP_START + current as u64);
    let last = page_containing(HEAP_START + new_size - 1);
    let count: u64 = if last >= first {
        (last - first) / PAGE_SIZE + 1
    } else {
        0
    };
    let (_done, failure) = space.map_run(frames, first, count, KERNEL_DATA_FLAGS);
    match failure {
        Some(e) => Err(e),
        None => {
            stats.current_heap_size = new_size as usize;
            Ok(())
        },
    }
}

} // verus!
