//! Resolving the running partition: the pure arithmetic of the flash MMU
//! (page size, entry index, page offset) and the containment scan that maps
//! a physical address to the OTA partition holding it. Reading the MMU
//! registers themselves is hardware work and happens outside the library.

use vstd::prelude::*;

verus! {

/// An 8 KiB MMU page.
pub const MMU_PAGE_8KB: u32 = 0x2000;

/// A 16 KiB MMU page.
pub const MMU_PAGE_16KB: u32 = 0x4000;

/// A 32 KiB MMU page.
pub const MMU_PAGE_32KB: u32 = 0x8000;

/// A 64 KiB MMU page.
pub const MMU_PAGE_64KB: u32 = 0x10000;

/// The virtual-address mask of the flash MMU.
pub const SOC_MMU_VADDR_MASK: u32 = 0x7FFFFF;

/// The flash MMU's page size: this target maps 64 KiB pages.
pub fn mmu_ll_get_page_size(mmu_id: u32) -> (r: u32)
    ensures
        r == MMU_PAGE_64KB,
{
    let _ = mmu_id;
    MMU_PAGE_64KB
}

/// The MMU entry a virtual address falls into: the masked address divided
/// by the page size.
pub fn mmu_ll_get_entry_id(mmu_id: u32, vaddr: u32) -> (r: u32)
    ensures
        r == (vaddr & SOC_MMU_VADDR_MASK) >> 16u32,
{
    let _ = mmu_id;
    (vaddr & SOC_MMU_VADDR_MASK) >> 16
}

/// Pages to bytes at the 64 KiB page size.
pub fn mmu_hal_pages_to_bytes(mmu_id: u32, page_num: u32) -> (r: u32)
    requires
        page_num <= 0xFFFF,
    ensures
        r == page_num * MMU_PAGE_64KB,
{
    let _ = mmu_id;
    proof {
        assert(page_num <= 0xFFFFu32 ==> page_num << 16u32 == page_num * 0x10000) by (bit_vector);
    }
    page_num << 16
}

/// The physical address a code address resolves to, given the page base the
/// MMU reports: the base plus the in-page offset.
pub fn mmu_resolve_paddr(vaddr: u32, paddr_base: u32, page_size: u32) -> (r: u32)
    requires
        page_size > 0,
        paddr_base + page_size <= u32::MAX,
        vaddr % page_size < page_size,
    ensures
        r == paddr_base + (vaddr % page_size),
{
    paddr_base + vaddr % page_size
}

/// The index of the first partition containing `paddr`, if any.
pub open spec fn spec_partition_containing(parts: Seq<(u32, u32)>, paddr: u32, i: int) -> Option<
    int,
>
    decreases parts.len() - i,
{
    if i < 0 || i >= parts.len() {
        None
    } else if parts[i].0 <= paddr && paddr < parts[i].0 + parts[i].1 {
        Some(i)
    } else {
        spec_partition_containing(parts, paddr, i + 1)
    }
}

/// Scans the OTA partitions for the one containing the given physical
/// address: the partition the running image was loaded from.
pub fn esp_get_current_running_partition(partitions: &Vec<(u32, u32)>, paddr: u32) -> (r: Option<
    usize,
>)
    ensures
        match r {
            Some(i) => spec_partition_containing(partitions@, paddr, 0) == Some(i as int),
            None => spec_partition_containing(partitions@, paddr, 0) is None,
        },
{
    let n: usize = partitions.len();
    let mut i: usize = 0;
    while i < n
        invariant
            i <= n,
            n == partitions@.len(),
            spec_partition_containing(partitions@, paddr, 0) == spec_partition_containing(
                partitions@,
                paddr,
                i as int,
            ),
        decreases n - i,
    {
        let (off, size) = partitions[i];
        if off <= paddr && (paddr as u64) < (off as u64) + (size as u64) {
            return Some(i);
        }
        i = i + 1;
    }
    None
}

} // verus!
