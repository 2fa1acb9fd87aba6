//! Physical memory manager: one bit per 4 KiB frame, set when the frame is in use.
//!
//! The bitmap is built from the bootloader's memory map: every frame starts out
//! locked, the frames of usable regions are freed, and the frames that hold the
//! bitmap itself are locked again.
use vstd::prelude::*;
use crate::bits::{bit_set, lemma_and_not_bit, lemma_full_byte, lemma_mask_bit, lemma_or_bit};

verus! {

/// Size of one physical frame.
pub const PAGE_SIZE: u64 = 4096;

/// Largest bitmap, in bytes, whose frames all have addresses that fit in a `u64`.
pub const MAX_BITMAP_BYTES: u64 = 0x2_0000_0000_0000;

/// What the bootloader reports about one region of physical memory.
#[derive(Clone, Copy, Debug, PartialEq, Eq, Structural)]
pub enum MemoryKind {
    Usable,
    Reserved,
    AcpiReclaimable,
    AcpiNvs,
    BadMemory,
    BootloaderReclaimable,
    KernelAndModules,
    Framebuffer,
}

impl MemoryKind {
    /// The name under which the memory map printout lists this kind.
    pub fn label(&self) -> (s: &'static str)
        ensures
            s@ == kind_label(*self)@,
    {
        match self {
            MemoryKind::Usable => "Usable",
            MemoryKind::Reserved => "Reserved",
            MemoryKind::AcpiReclaimable => "ACPI Reclaim",
            MemoryKind::AcpiNvs => "ACPI NVS",
            MemoryKind::BadMemory => "Bad",
            MemoryKind::BootloaderReclaimable => "Bootloader Reclaim",
            MemoryKind::KernelAndModules => "Kernel/Modules",
            MemoryKind::Framebuffer => "Framebuffer",
        }
    }
}

/// The printout name of each memory kind.
pub open spec fn kind_label(k: MemoryKind) -> &'static str {
    match k {
        MemoryKind::Usable => "Usable",
        MemoryKind::Reserved => "Reserved",
        MemoryKind::AcpiReclaimable => "ACPI Reclaim",
        MemoryKind::AcpiNvs => "ACPI NVS",
        MemoryKind::BadMemory => "Bad",
        MemoryKind::BootloaderReclaimable => "Bootloader Reclaim",
        MemoryKind::KernelAndModules => "Kernel/Modules",
        MemoryKind::Framebuffer => "Framebuffer",
    }
}

/// One entry of the bootloader's memory map.
#[derive(Clone, Copy, Debug, PartialEq, Eq, Structural)]
pub struct MemoryRegion {
    pub base: u64,
    pub len: u64,
    pub kind: MemoryKind,
}

/// The frame view of a bitmap: frame `i` is bit `i % 8` of byte `i / 8`.
pub open spec fn frames_of(bytes: Seq<u8>) -> Seq<bool> {
    Seq::new(bytes.len() * 8, |i: int| bit_set(bytes[i / 8], (i % 8) as u8))
}

/// The index of the frame that holds physical address `addr`.
pub open spec fn frame_index(addr: u64) -> int {
    addr as int / PAGE_SIZE as int
}

/// The region is usable and the page walk over it frees frame `i`.
pub open spec fn region_frees(r: MemoryRegion, i: int) -> bool {
    &&& r.kind == MemoryKind::Usable
    &&& frame_index(r.base) <= i < frame_index(r.base) + r.len as int / PAGE_SIZE as int
}

/// One of the first `n` regions frees frame `i`.
pub open spec fn freed_by(regions: Seq<MemoryRegion>, n: int, i: int) -> bool {
    exists|k: int| 0 <= k < n && #[trigger] region_frees(regions[k], i)
}

/// Number of frames the page walk frees over the first `n` regions.
pub open spec fn usable_pages(regions: Seq<MemoryRegion>, n: int) -> int
    decreases n,
{
    if n <= 0 {
        0
    } else {
        usable_pages(regions, n - 1) + (if regions[n - 1].kind == MemoryKind::Usable {
            regions[n - 1].len as int / PAGE_SIZE as int
        } else {
            0
        })
    }
}

/// Number of frames the bitmap tracks: those below the end of the last region.
pub open spec fn tracked_pages(regions: Seq<MemoryRegion>) -> int {
    (regions.last().base + regions.last().len) / PAGE_SIZE as int
}

/// Size of the bitmap in bytes.
pub open spec fn bitmap_bytes(regions: Seq<MemoryRegion>) -> int {
    (tracked_pages(regions) + 7) / 8
}

/// Number of frames that the bitmap itself occupies.
pub open spec fn bitmap_pages(regions: Seq<MemoryRegion>) -> int {
    (bitmap_bytes(regions) + 4095) / 4096
}

/// Base of the first usable region, from index `k` on, that can hold `needed`
/// bytes; zero when there is none.
pub open spec fn site_from(regions: Seq<MemoryRegion>, needed: int, k: int) -> u64
    decreases regions.len() - k,
{
    if k < 0 || k >= regions.len() {
        0
    } else if regions[k].kind == MemoryKind::Usable && regions[k].len >= needed {
        regions[k].base
    } else {
        site_from(regions, needed, k + 1)
    }
}

/// Where the bitmap goes: the first usable region large enough for it.
pub open spec fn bitmap_site(regions: Seq<MemoryRegion>) -> u64 {
    site_from(regions, bitmap_bytes(regions), 0)
}

/// The memory maps that `FrameBitmap::init` accepts.
pub open spec fn init_accepts(regions: Seq<MemoryRegion>, hhdm_offset: u64) -> bool {
    let n = bitmap_bytes(regions);
    let site = bitmap_site(regions);
    &&& regions.len() > 0
    &&& forall|k: int| 0 <= k < regions.len() ==> #[trigger] regions[k].base + regions[k].len <= u64::MAX
    &&& site != 0
    &&& site + hhdm_offset <= u64::MAX
    &&& forall|k: int|
        0 <= k < regions.len() && #[trigger] regions[k].kind == MemoryKind::Usable ==>
            frame_index(regions[k].base) + regions[k].len as int / PAGE_SIZE as int <= 8 * n
    &&& frame_index(site) + bitmap_pages(regions) <= 8 * n
    &&& 8 * n <= usize::MAX
    &&& usable_pages(regions, regions.len() as int) <= usize::MAX
    &&& usable_pages(regions, regions.len() as int) >= bitmap_pages(regions)
}

/// `addr` is the start of the lowest free frame of `before`, and `after` is
/// `before` with that frame locked.
pub open spec fn takes_lowest_free(before: Seq<bool>, after: Seq<bool>, addr: u64) -> bool {
    &&& addr % PAGE_SIZE == 0
    &&& frame_index(addr) < before.len()
    &&& !before[frame_index(addr)]
    &&& forall|j: int| 0 <= j < frame_index(addr) ==> before[j]
    &&& after == before.update(frame_index(addr), true)
}

/// Every frame is in use.
pub open spec fn all_locked(v: Seq<bool>) -> bool {
    forall|j: int| 0 <= j < v.len() ==> v[j]
}

/// The physical frame bitmap.
pub struct FrameBitmap {
    bitmap: Vec<u8>,
    bitmap_phys: u64,
    bitmap_addr: u64,
    total_pages: usize,
    free_pages: usize,
}

impl View for FrameBitmap {
    type V = Seq<bool>;

    /// Frame `i` is locked exactly when `self@[i]` holds.
    closed spec fn view(&self) -> Seq<bool> {
        frames_of(self.bitmap@)
    }
}

/// Setting byte `b` of the bitmap to `newb`, which differs from the old byte in
/// bit `i % 8` only, updates exactly frame `i`.
proof fn lemma_frames_update(bytes: Seq<u8>, i: int, newb: u8, val: bool)
    requires
        0 <= i < bytes.len() * 8,
        forall|j: u8| j < 8 ==> #[trigger] bit_set(newb, j) == (if j as int == i % 8 {
            val
        } else {
            bit_set(bytes[i / 8], j)
        }),
    ensures
        frames_of(bytes.update(i / 8, newb)) =~= frames_of(bytes).update(i, val),
{
    let nb = bytes.update(i / 8, newb);
    assert forall|x: int| 0 <= x < bytes.len() * 8 implies #[trigger] frames_of(nb)[x] == frames_of(
        bytes,
    ).update(i, val)[x] by {
        if x / 8 == i / 8 {
            assert(bit_set(newb, (x % 8) as u8) == (if (x % 8) == i % 8 {
                val
            } else {
                bit_set(bytes[i / 8], (x % 8) as u8)
            }));
            assert((x % 8 == i % 8) == (x == i));
        } else {
            assert(x != i);
        }
    }
}

/// Page `page` of a region starting at `base` lies in frame `base / 4096 + page`.
proof fn lemma_page_step(base: int, page: int)
    requires
        0 <= base,
        0 <= page,
    ensures
        (base + page * 4096) / 4096 == base / 4096 + page,
{
    vstd::arithmetic::div_mod::lemma_fundamental_div_mod(base, 4096);
    vstd::arithmetic::div_mod::lemma_fundamental_div_mod_converse(
        base + page * 4096,
        4096,
        base / 4096 + page,
        base % 4096,
    );
}

/// Taking one more region into account frees what that region frees.
proof fn lemma_freed_step(regions: Seq<MemoryRegion>, e: int, i: int)
    requires
        0 <= e < regions.len(),
    ensures
        freed_by(regions, e + 1, i) == (freed_by(regions, e, i) || region_frees(regions[e], i)),
{
    if region_frees(regions[e], i) {
        assert(freed_by(regions, e + 1, i));
    }
    if freed_by(regions, e + 1, i) {
        let k = choose|k: int| 0 <= k < e + 1 && #[trigger] region_frees(regions[k], i);
        if k < e {
            assert(freed_by(regions, e, i));
        }
    }
    if freed_by(regions, e, i) {
        let k = choose|k: int| 0 <= k < e && #[trigger] region_frees(regions[k], i);
        assert(0 <= k < e + 1 && region_frees(regions[k], i));
    }
}

/// The count of usable frames grows with the number of regions counted.
proof fn lemma_usable_pages_mono(regions: Seq<MemoryRegion>, a: int, b: int)
    requires
        0 <= a <= b,
    ensures
        usable_pages(regions, a) <= usable_pages(regions, b),
    decreases b - a,
{
    if a < b {
        lemma_usable_pages_mono(regions, a, b - 1);
    }
}

/// The first `len * 8` frames of an all-ones bitmap are locked.
proof fn lemma_all_locked(bytes: Seq<u8>)
    requires
        forall|k: int| 0 <= k < bytes.len() ==> bytes[k] == 0xFFu8,
    ensures
        forall|i: int| 0 <= i < frames_of(bytes).len() ==> frames_of(bytes)[i],
{
    assert forall|i: int| 0 <= i < frames_of(bytes).len() implies frames_of(bytes)[i] by {
        lemma_full_byte(bytes[i / 8]);
        assert(bit_set(0xFFu8, (i % 8) as u8));
    }
}

/// The base of the first usable region of at least `needed` bytes; zero when
/// there is none.
fn find_bitmap_site(mmap: &Vec<MemoryRegion>, needed: u64) -> (site: u64)
    ensures
        site == site_from(mmap@, needed as int, 0),
{
    let ghost regions = mmap@;
    let n = mmap.len();
    let mut site: u64 = 0;
    let mut found = false;
    let mut k: usize = 0;
    while k < n && !found
        invariant
            n == regions.len(),
            mmap@ == regions,
            k <= n,
            !found ==> site_from(regions, needed as int, 0) == site_from(regions, needed as int, k as int),
            found ==> site == site_from(regions, needed as int, 0),
            !found ==> site == 0,
        decreases n - k + (if found { 0int } else { 1int }),
    {
        let entry = mmap[k];
        if entry.kind == MemoryKind::Usable && entry.len >= needed {
            site = entry.base;
            found = true;
        } else {
            k = k + 1;
        }
    }
    proof {
        if !found {
            assert(k == n);
            assert(site_from(regions, needed as int, k as int) == 0);
        }
    }
    site
}

/// Whether `FrameBitmap::init` accepts a memory map.
pub fn init_accepted(mmap: &Vec<MemoryRegion>, hhdm_offset: u64) -> (r: bool)
    ensures
        r == init_accepts(mmap@, hhdm_offset),
{
    let ghost regions = mmap@;
    let n = mmap.len();
    if n == 0 {
        return false;
    }
    let mut k: usize = 0;
    while k < n
        invariant
            n == regions.len(),
            mmap@ == regions,
            k <= n,
            forall|j: int| 0 <= j < k ==> #[trigger] regions[j].base + regions[j].len <= u64::MAX,
        decreases n - k,
    {
        let entry = mmap[k];
        if entry.base as u128 + entry.len as u128 > u64::MAX as u128 {
            return false;
        }
        k = k + 1;
    }
    let last = mmap[n - 1];
    assert(regions[n - 1].base + regions[n - 1].len <= u64::MAX);
    let total = last.base + last.len;
    let needed = (total / 4096 + 7) / 8;
    assert(needed == bitmap_bytes(regions));
    if needed as u128 * 8 > usize::MAX as u128 {
        return false;
    }
    let site = find_bitmap_site(mmap, needed);
    if site == 0 {
        return false;
    }
    if site as u128 + hhdm_offset as u128 > u64::MAX as u128 {
        return false;
    }
    let limit = needed as u128 * 8;
    k = 0;
    while k < n
        invariant
            n == regions.len(),
            mmap@ == regions,
            k <= n,
            limit == 8 * bitmap_bytes(regions),
            forall|j: int|
                0 <= j < k && #[trigger] regions[j].kind == MemoryKind::Usable ==> frame_index(
                    regions[j].base,
                ) + regions[j].len as int / PAGE_SIZE as int <= limit,
        decreases n - k,
    {
        let entry = mmap[k];
        if entry.kind == MemoryKind::Usable && (entry.base / 4096) as u128 + (entry.len / 4096) as u128
            > limit {
            return false;
        }
        k = k + 1;
    }
    let pages_of_bitmap = (needed + 4095) / 4096;
    assert(pages_of_bitmap == bitmap_pages(regions));
    if (site / 4096) as u128 + pages_of_bitmap as u128 > limit {
        return false;
    }
    let mut sum: u128 = 0;
    k = 0;
    while k < n
        invariant
            n == regions.len(),
            mmap@ == regions,
            k <= n,
            sum == usable_pages(regions, k as int),
            sum <= k * 0x10_0000_0000_0000,
        decreases n - k,
    {
        let entry = mmap[k];
        if entry.kind == MemoryKind::Usable {
            sum = sum + (entry.len / 4096) as u128;
        }
        k = k + 1;
    }
    if sum > usize::MAX as u128 {
        return false;
    }
    sum >= pages_of_bitmap as u128
}

impl FrameBitmap {
    /// The bitmap is small enough that every frame has an address in a `u64`.
    pub closed spec fn wf(&self) -> bool {
        &&& self.bitmap@.len() <= MAX_BITMAP_BYTES
        &&& self.bitmap@.len() * 8 <= usize::MAX
    }

    /// The counter of free frames, as the kernel keeps it.
    pub closed spec fn spec_free_pages(&self) -> usize {
        self.free_pages
    }

    /// The number of frames below the end of physical memory.
    pub closed spec fn spec_total_pages(&self) -> usize {
        self.total_pages
    }

    /// Physical address of the bitmap.
    pub closed spec fn spec_bitmap_phys(&self) -> u64 {
        self.bitmap_phys
    }

    /// Address, in the higher-half direct map, through which the bitmap is written.
    pub closed spec fn spec_bitmap_addr(&self) -> u64 {
        self.bitmap_addr
    }

    /// Number of bytes in the bitmap.
    pub closed spec fn spec_bitmap_len(&self) -> nat {
        self.bitmap@.len()
    }


    /// Builds the bitmap from the bootloader's memory map: the bitmap goes in the
    /// first usable region large enough for it, every frame starts locked, the
    /// frames of usable regions are freed, and the bitmap's own frames are locked
    /// again. The free counter is the number of frames freed minus the bitmap's.
    pub fn init(mmap: &Vec<MemoryRegion>, hhdm_offset: u64) -> (r: Self)
        requires
            init_accepts(mmap@, hhdm_offset),
        ensures
            r.wf(),
            r@.len() == 8 * bitmap_bytes(mmap@),
            forall|i: int|
                0 <= i < r@.len() ==> #[trigger] r@[i] == (!freed_by(mmap@, mmap@.len() as int, i)
                    || (frame_index(bitmap_site(mmap@)) <= i < frame_index(bitmap_site(mmap@))
                    + bitmap_pages(mmap@))),
            r.spec_total_pages() == tracked_pages(mmap@),
            r.spec_free_pages() == usable_pages(mmap@, mmap@.len() as int) - bitmap_pages(mmap@),
            r.spec_bitmap_phys() == bitmap_site(mmap@),
            r.spec_bitmap_addr() == bitmap_site(mmap@) + hhdm_offset,
    {
        let ghost regions = mmap@;
        let n = mmap.len();
        let last = mmap[n - 1];
        assert(regions[n - 1].base + regions[n - 1].len <= u64::MAX);
        let total_mem = last.base + last.len;
        let page_count = (total_mem / 4096) as usize;
        let needed = (page_count + 7) / 8;

        let site = find_bitmap_site(mmap, needed as u64);
        assert(site == bitmap_site(regions));

        let mut bytes: Vec<u8> = Vec::new();
        while bytes.len() < needed
            invariant
                bytes@.len() <= needed,
                forall|j: int| 0 <= j < bytes@.len() ==> bytes@[j] == 0xFFu8,
            decreases needed - bytes@.len(),
        {
            bytes.push(0xFFu8);
        }
        proof {
            lemma_all_locked(bytes@);
        }
        let mut pmm = FrameBitmap {
            bitmap: bytes,
            bitmap_phys: site,
            bitmap_addr: site + hhdm_offset,
            total_pages: page_count,
            free_pages: 0,
        };

        // Free the frames of the usable regions.
        let mut free_count: usize = 0;
        let mut e: usize = 0;
        while e < n
            invariant
                n == regions.len(),
                mmap@ == regions,
                init_accepts(regions, hhdm_offset),
                e <= n,
                needed == bitmap_bytes(regions),
                pmm.wf(),
                pmm@.len() == 8 * needed,
                forall|i: int| 0 <= i < pmm@.len() ==> #[trigger] pmm@[i] == !freed_by(regions, e as int, i),
                free_count == usable_pages(regions, e as int),
                pmm.total_pages == page_count,
                pmm.bitmap_phys == site,
                pmm.bitmap_addr == site + hhdm_offset,
            decreases n - e,
        {
            let entry = mmap[e];
            if entry.kind == MemoryKind::Usable {
                let count = entry.len / 4096;
                let mut page: u64 = 0;
                proof {
                    lemma_usable_pages_mono(regions, e as int + 1, n as int);
                }
                while page < count
                    invariant
                        n == regions.len(),
                        init_accepts(regions, hhdm_offset),
                        e < n,
                        entry == regions[e as int],
                        entry.kind == MemoryKind::Usable,
                        count == entry.len / 4096,
                        page <= count,
                        needed == bitmap_bytes(regions),
                        pmm.wf(),
                        pmm@.len() == 8 * needed,
                        forall|i: int|
                            0 <= i < pmm@.len() ==> #[trigger] pmm@[i] == !(freed_by(regions, e as int, i)
                                || (frame_index(entry.base) <= i < frame_index(entry.base) + page)),
                        free_count == usable_pages(regions, e as int) + page,
                        usable_pages(regions, e as int + 1) <= usize::MAX,
                        pmm.total_pages == page_count,
                        pmm.bitmap_phys == site,
                        pmm.bitmap_addr == site + hhdm_offset,
                    decreases count - page,
                {
                    proof {
                        lemma_page_step(entry.base as int, page as int);
                        assert(entry.base + entry.len <= u64::MAX);
                        assert(page * 4096 <= entry.len);
                    }
                    let phys_addr = entry.base + page * 4096;
                    let ghost before = pmm@;
                    pmm.free_frame(phys_addr);
                    free_count = free_count + 1;
                    page = page + 1;
                    proof {
                        assert forall|i: int| 0 <= i < pmm@.len() implies #[trigger] pmm@[i] == !(
                        freed_by(regions, e as int, i) || (frame_index(entry.base) <= i
                            < frame_index(entry.base) + page)) by {
                            if i != frame_index(phys_addr) {
                                assert(pmm@[i] == before[i]);
                            }
                        }
                    }
                }
                proof {
                    assert forall|i: int| 0 <= i < pmm@.len() implies #[trigger] pmm@[i] == !freed_by(
                        regions,
                        e as int + 1,
                        i,
                    ) by {
                        lemma_freed_step(regions, e as int, i);
                    }
                }
            } else {
                proof {
                    assert forall|i: int| 0 <= i < pmm@.len() implies #[trigger] pmm@[i] == !freed_by(
                        regions,
                        e as int + 1,
                        i,
                    ) by {
                        lemma_freed_step(regions, e as int, i);
                    }
                }
            }
            e = e + 1;
        }

        // Lock the frames that hold the bitmap itself.
        let bitmap_frames = (needed + 4095) / 4096;
        let mut i: usize = 0;
        while i < bitmap_frames
            invariant
                n == regions.len(),
                init_accepts(regions, hhdm_offset),
                i <= bitmap_frames,
                bitmap_frames == bitmap_pages(regions),
                needed == bitmap_bytes(regions),
                site == bitmap_site(regions),
                pmm.wf(),
                pmm@.len() == 8 * needed,
                forall|x: int|
                    0 <= x < pmm@.len() ==> #[trigger] pmm@[x] == (!freed_by(regions, n as int, x) || (
                    frame_index(site) <= x < frame_index(site) + i)),
                free_count == usable_pages(regions, n as int) - i,
                pmm.total_pages == page_count,
                pmm.bitmap_phys == site,
                pmm.bitmap_addr == site + hhdm_offset,
            decreases bitmap_frames - i,
        {
            proof {
                lemma_page_step(site as int, i as int);
            }
            let phys_addr = site + (i as u64) * 4096;
            let ghost before = pmm@;
            pmm.lock_frame(phys_addr);
            free_count = free_count - 1;
            i = i + 1;
            proof {
                assert forall|x: int| 0 <= x < pmm@.len() implies #[trigger] pmm@[x] == (!freed_by(
                    regions,
                    n as int,
                    x,
                ) || (frame_index(site) <= x < frame_index(site) + i)) by {
                    if x != frame_index(phys_addr) {
                        assert(pmm@[x] == before[x]);
                    }
                }
            }
        }
        pmm.free_pages = free_count;
        pmm
    }

    /// Builds the bitmap when `FrameBitmap::init` accepts the memory map;
    /// `None` otherwise.
    pub fn init_checked(mmap: &Vec<MemoryRegion>, hhdm_offset: u64) -> (r: Option<Self>)
        ensures
            r is Some <==> init_accepts(mmap@, hhdm_offset),
            r matches Some(pmm) ==> {
                &&& pmm.wf()
                &&& pmm@.len() == 8 * bitmap_bytes(mmap@)
                &&& forall|i: int|
                    0 <= i < pmm@.len() ==> #[trigger] pmm@[i] == (!freed_by(mmap@, mmap@.len() as int, i)
                        || (frame_index(bitmap_site(mmap@)) <= i < frame_index(bitmap_site(mmap@))
                        + bitmap_pages(mmap@)))
                &&& pmm.spec_total_pages() == tracked_pages(mmap@)
                &&& pmm.spec_free_pages() == usable_pages(mmap@, mmap@.len() as int) - bitmap_pages(mmap@)
                &&& pmm.spec_bitmap_phys() == bitmap_site(mmap@)
                &&& pmm.spec_bitmap_addr() == bitmap_site(mmap@) + hhdm_offset
            },
    {
        if init_accepted(mmap, hhdm_offset) {
            Some(Self::init(mmap, hhdm_offset))
        } else {
            None
        }
    }

    /// Number of frames the kernel counts as free.
    pub fn free_pages(&self) -> (r: usize)
        ensures
            r == self.spec_free_pages(),
    {
        self.free_pages
    }

    /// Number of frames below the end of physical memory.
    pub fn total_pages(&self) -> (r: usize)
        ensures
            r == self.spec_total_pages(),
    {
        self.total_pages
    }

    /// Physical address of the bitmap.
    pub fn bitmap_phys(&self) -> (r: u64)
        ensures
            r == self.spec_bitmap_phys(),
    {
        self.bitmap_phys
    }

    /// Address, in the higher-half direct map, through which the bitmap is written.
    pub fn bitmap_addr(&self) -> (r: u64)
        ensures
            r == self.spec_bitmap_addr(),
    {
        self.bitmap_addr
    }

    /// Number of frames the bitmap tracks: eight per byte.
    pub fn frame_count(&self) -> (r: usize)
        requires
            self.wf(),
        ensures
            r == self@.len(),
    {
        self.bitmap.len() * 8
    }

    /// Whether the frame with index `index` is in use.
    pub fn is_locked(&self, index: usize) -> (r: bool)
        requires
            index < self@.len(),
        ensures
            r == self@[index as int],
    {
        let byte = self.bitmap[index / 8];
        let bit = (index % 8) as u8;
        proof {
            lemma_mask_bit(byte, bit);
        }
        (byte & (1u8 << bit)) != 0
    }

    /// The bitmap holds eight frames per byte.
    pub proof fn lemma_view_len(&self)
        ensures
            self@.len() == self.spec_bitmap_len() * 8,
    {
    }

    /// Marks the frame that holds `addr` as in use.
    pub fn lock_frame(&mut self, addr: u64)
        requires
            old(self).wf(),
            frame_index(addr) < old(self)@.len(),
        ensures
            final(self).wf(),
            final(self)@ == old(self)@.update(frame_index(addr), true),
            final(self).spec_free_pages() == old(self).spec_free_pages(),
            final(self).spec_total_pages() == old(self).spec_total_pages(),
            final(self).spec_bitmap_phys() == old(self).spec_bitmap_phys(),
            final(self).spec_bitmap_addr() == old(self).spec_bitmap_addr(),
    {
        let index = (addr / 4096) as usize;
        let byte_idx = index / 8;
        let bit_idx = (index % 8) as u8;
        let old_byte = self.bitmap[byte_idx];
        let new_byte = old_byte | (1u8 << bit_idx);
        proof {
            assert forall|j: u8| j < 8 implies #[trigger] bit_set(new_byte, j) == (if j as int
                == index as int % 8 {
                true
            } else {
                bit_set(self.bitmap@[index as int / 8], j)
            }) by {
                lemma_or_bit(old_byte, bit_idx, j);
            }
            lemma_frames_update(self.bitmap@, index as int, new_byte, true);
        }
        self.bitmap[byte_idx] = new_byte;
    }

    /// Marks the frame that holds `addr` as free.
    pub fn free_frame(&mut self, addr: u64)
        requires
            old(self).wf(),
            frame_index(addr) < old(self)@.len(),
        ensures
            final(self).wf(),
            final(self)@ == old(self)@.update(frame_index(addr), false),
            final(self).spec_free_pages() == old(self).spec_free_pages(),
            final(self).spec_total_pages() == old(self).spec_total_pages(),
            final(self).spec_bitmap_phys() == old(self).spec_bitmap_phys(),
            final(self).spec_bitmap_addr() == old(self).spec_bitmap_addr(),
    {
        let index = (addr / 4096) as usize;
        let byte_idx = index / 8;
        let bit_idx = (index % 8) as u8;
        let old_byte = self.bitmap[byte_idx];
        let new_byte = old_byte & !(1u8 << bit_idx);
        proof {
            assert forall|j: u8| j < 8 implies #[trigger] bit_set(new_byte, j) == (if j as int
                == index as int % 8 {
                false
            } else {
                bit_set(self.bitmap@[index as int / 8], j)
            }) by {
                lemma_and_not_bit(old_byte, bit_idx, j);
            }
            lemma_frames_update(self.bitmap@, index as int, new_byte, false);
        }
        self.bitmap[byte_idx] = new_byte;
    }

    /// Takes the lowest free frame, marks it in use and returns its address; the
    /// free counter drops by one, wrapping like the atomic it stands for.
    /// Returns `None`, changing nothing, when every frame is in use.
    pub fn find_free_frame(&mut self) -> (r: Option<u64>)
        requires
            old(self).wf(),
        ensures
            final(self).wf(),
            final(self).spec_total_pages() == old(self).spec_total_pages(),
            final(self).spec_bitmap_phys() == old(self).spec_bitmap_phys(),
            final(self).spec_bitmap_addr() == old(self).spec_bitmap_addr(),
            match r {
                Some(addr) => {
                    &&& takes_lowest_free(old(self)@, final(self)@, addr)
                    &&& final(self).spec_free_pages() == (if old(self).spec_free_pages() == 0 {
                        usize::MAX
                    } else {
                        (old(self).spec_free_pages() - 1) as usize
                    })
                },
                None => {
                    &&& all_locked(old(self)@)
                    &&& *final(self) == *old(self)
                },
            },
    {
        let len = self.bitmap.len();
        let mut i: usize = 0;
        while i < len
            invariant
                len == self.bitmap@.len(),
                self.wf(),
                *self == *old(self),
                i <= len,
                forall|j: int| 0 <= j < i * 8 ==> self@[j],
            decreases len - i,
        {
            let byte = self.bitmap[i];
            if byte != 0xFF {
                let mut bit: u8 = 0;
                while bit < 8
                    invariant
                        len == self.bitmap@.len(),
                        self.wf(),
                        *self == *old(self),
                        i < len,
                        bit <= 8,
                        byte == self.bitmap@[i as int],
                        forall|j: int| 0 <= j < i * 8 + bit ==> self@[j],
                    decreases 8 - bit,
                {
                    proof {
                        lemma_mask_bit(byte, bit);
                    }
                    if (byte & (1u8 << bit)) == 0 {
                        let index = i * 8 + bit as usize;
                        let addr = (index as u64) * 4096;
                        proof {
                            assert(addr / 4096 == index);
                            assert(self@[index as int] == bit_set(byte, bit));
                        }
                        self.lock_frame(addr);
                        self.free_pages = self.free_pages.wrapping_sub(1);
                        return Some(addr);
                    }
                    proof {
                        assert(self@[(i * 8 + bit) as int] == bit_set(byte, bit));
                    }
                    bit = bit + 1;
                }
            } else {
                proof {
                    lemma_full_byte(byte);
                    assert forall|j: int| 0 <= j < (i + 1) * 8 implies self@[j] by {
                        if j >= i * 8 {
                            assert(self@[j] == bit_set(byte, (j % 8) as u8));
                        }
                    }
                }
            }
            i = i + 1;
        }
        None
    }
}


/// A freed frame can be found again: after frame `i` is freed, not every frame
/// is in use, and the lowest free frame, which `find_free_frame` returns, is at
/// or below `i`.
pub proof fn law_freed_frame_is_found(v: Seq<bool>, i: int, a: int)
    requires
        0 <= i < v.len(),
    ensures
        !(forall|j: int| 0 <= j < v.len() ==> v.update(i, false)[j]),
        0 <= a < v.len() && !v.update(i, false)[a] && (forall|j: int|
            0 <= j < a ==> v.update(i, false)[j]) ==> a <= i,
{
    assert(!v.update(i, false)[i]);
}

/// Locking a free frame and freeing it again leaves the bitmap as it was.
pub proof fn law_lock_then_free_restores(v: Seq<bool>, i: int)
    requires
        0 <= i < v.len(),
        !v[i],
    ensures
        v.update(i, true).update(i, false) == v,
{
    assert(v.update(i, true).update(i, false) =~= v);
}

/// A frame just handed out is never handed out again before it is freed: the
/// frame found next differs from it.
pub proof fn law_found_frames_differ(v: Seq<bool>, a: int, b: int)
    requires
        0 <= a < v.len(),
        0 <= b < v.len(),
        !v.update(a, true)[b],
    ensures
        a != b,
{
}

/// A usable region of at least `needed` bytes.
pub open spec fn usable_with(r: MemoryRegion, needed: int) -> bool {
    r.kind == MemoryKind::Usable && r.len >= needed
}

/// From index `k` on, the site found is the base of the first usable region
/// that can hold `needed` bytes; zero when there is none.
proof fn lemma_site_from_first_fit(regions: Seq<MemoryRegion>, needed: int, k: int)
    requires
        0 <= k,
    ensures
        site_from(regions, needed, k) != 0 ==> exists|j: int|
            k <= j < regions.len() && #[trigger] usable_with(regions[j], needed)
                && regions[j].base == site_from(regions, needed, k) && forall|i: int|
                k <= i < j ==> !#[trigger] usable_with(regions[i], needed),
        (forall|i: int| k <= i < regions.len() ==> !#[trigger] usable_with(regions[i], needed))
            ==> site_from(regions, needed, k) == 0,
    decreases regions.len() - k,
{
    if k < regions.len() {
        lemma_site_from_first_fit(regions, needed, k + 1);
        if usable_with(regions[k], needed) {
            if site_from(regions, needed, k) != 0 {
                assert(usable_with(regions[k], needed));
            }
        } else {
            if site_from(regions, needed, k) != 0 {
                let j = choose|j: int|
                    k + 1 <= j < regions.len() && #[trigger] usable_with(regions[j], needed)
                        && regions[j].base == site_from(regions, needed, k + 1) && forall|i: int|
                        k + 1 <= i < j ==> !#[trigger] usable_with(regions[i], needed);
                assert(usable_with(regions[j], needed));
            }
        }
    }
}

/// The bitmap goes to the first fit: when the map has a place for it, that
/// place is the base of a usable region large enough for the bitmap, and no
/// earlier usable region is large enough; when no usable region is large
/// enough, there is no place (and `FrameBitmap::init` does not accept the map).
pub proof fn law_bitmap_in_first_usable_fit(regions: Seq<MemoryRegion>)
    ensures
        bitmap_site(regions) != 0 ==> exists|k: int|
            0 <= k < regions.len() && #[trigger] regions[k].kind == MemoryKind::Usable
                && regions[k].base == bitmap_site(regions) && regions[k].len >= bitmap_bytes(regions)
                && forall|i: int|
                0 <= i < k ==> !(#[trigger] regions[i].kind == MemoryKind::Usable && regions[i].len
                    >= bitmap_bytes(regions)),
        (forall|i: int|
            0 <= i < regions.len() ==> !(#[trigger] regions[i].kind == MemoryKind::Usable
                && regions[i].len >= bitmap_bytes(regions))) ==> bitmap_site(regions) == 0,
{
    let n = bitmap_bytes(regions);
    lemma_site_from_first_fit(regions, n, 0);
    if bitmap_site(regions) != 0 {
        let k = choose|j: int|
            0 <= j < regions.len() && #[trigger] usable_with(regions[j], n)
                && regions[j].base == site_from(regions, n, 0) && forall|i: int|
                0 <= i < j ==> !#[trigger] usable_with(regions[i], n);
        assert(regions[k].kind == MemoryKind::Usable);
        assert forall|i: int| 0 <= i < k implies !(#[trigger] regions[i].kind == MemoryKind::Usable
            && regions[i].len >= n) by {
            assert(!usable_with(regions[i], n));
        }
    }
    assert((forall|i: int|
        0 <= i < regions.len() ==> !(#[trigger] regions[i].kind == MemoryKind::Usable
            && regions[i].len >= n)) ==> forall|i: int|
        0 <= i < regions.len() ==> !#[trigger] usable_with(regions[i], n));
}

} // verus!
