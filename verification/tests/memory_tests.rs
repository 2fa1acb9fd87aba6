use aether_kernel::paging::BootFrameAllocator;
use aether_kernel::pmm::{FrameBitmap, MemoryKind, MemoryRegion};

fn region(base: u64, len: u64, kind: MemoryKind) -> MemoryRegion {
    MemoryRegion { base, len, kind }
}

/// 64 frames of memory: frames 0-1 reserved, 2-9 usable (bitmap lands at
/// frame 2), 10-15 kernel, 16-31 usable, 32-63 reserved.
fn sample_map() -> Vec<MemoryRegion> {
    vec![
        region(0, 2 * 4096, MemoryKind::Reserved),
        region(2 * 4096, 8 * 4096, MemoryKind::Usable),
        region(10 * 4096, 6 * 4096, MemoryKind::KernelAndModules),
        region(16 * 4096, 16 * 4096, MemoryKind::Usable),
        region(32 * 4096, 32 * 4096, MemoryKind::Reserved),
    ]
}

#[test]
fn pmm_init_marks_usable_frames_free() {
    let map = sample_map();
    let pmm = FrameBitmap::init(&map, 0xFFFF_8000_0000_0000);
    assert_eq!(pmm.total_pages(), 64);
    assert_eq!(pmm.bitmap_phys(), 2 * 4096);
    assert_eq!(pmm.bitmap_addr(), 0xFFFF_8000_0000_0000 + 2 * 4096);
    // 8 + 16 usable frames, minus the bitmap's one frame.
    assert_eq!(pmm.free_pages(), 23);
    for i in 0..64 {
        let expect_free = (3..10).contains(&i) || (16..32).contains(&i);
        assert_eq!(pmm.is_locked(i), !expect_free, "frame {}", i);
    }
}

#[test]
fn pmm_find_free_frame_takes_lowest() {
    let map = sample_map();
    let mut pmm = FrameBitmap::init(&map, 0);
    assert_eq!(pmm.find_free_frame(), Some(3 * 4096));
    assert!(pmm.is_locked(3));
    assert_eq!(pmm.free_pages(), 22);
    assert_eq!(pmm.find_free_frame(), Some(4 * 4096));
    // A freed frame is found again before higher ones.
    pmm.free_frame(3 * 4096);
    assert!(!pmm.is_locked(3));
    assert_eq!(pmm.find_free_frame(), Some(3 * 4096));
}

#[test]
fn pmm_lock_and_free_are_per_frame() {
    let map = sample_map();
    let mut pmm = FrameBitmap::init(&map, 0);
    pmm.lock_frame(20 * 4096 + 123);
    assert!(pmm.is_locked(20));
    assert!(!pmm.is_locked(19));
    assert!(!pmm.is_locked(21));
    pmm.free_frame(20 * 4096);
    assert!(!pmm.is_locked(20));
    pmm.free_frame(0);
    assert!(!pmm.is_locked(0));
    assert!(pmm.is_locked(1));
    assert_eq!(pmm.free_pages(), 23);
}

#[test]
fn pmm_exhausted_returns_none() {
    let map = vec![
        region(0, 4096, MemoryKind::Reserved),
        region(4096, 3 * 4096, MemoryKind::Usable),
        region(4 * 4096, 4 * 4096, MemoryKind::Reserved),
    ];
    let mut pmm = FrameBitmap::init(&map, 0);
    // Frame 1 holds the bitmap; frames 2 and 3 are free.
    assert_eq!(pmm.free_pages(), 2);
    assert_eq!(pmm.find_free_frame(), Some(2 * 4096));
    assert_eq!(pmm.find_free_frame(), Some(3 * 4096));
    assert_eq!(pmm.free_pages(), 0);
    assert_eq!(pmm.find_free_frame(), None);
    assert_eq!(pmm.free_pages(), 0);
}

#[test]
fn pmm_free_counter_wraps_like_the_atomic() {
    let map = vec![
        region(0, 4096, MemoryKind::Reserved),
        region(4096, 2 * 4096, MemoryKind::Usable),
        region(3 * 4096, 5 * 4096, MemoryKind::Reserved),
    ];
    let mut pmm = FrameBitmap::init(&map, 0);
    assert_eq!(pmm.free_pages(), 1);
    pmm.free_frame(5 * 4096);
    assert_eq!(pmm.find_free_frame(), Some(2 * 4096));
    assert_eq!(pmm.free_pages(), 0);
    assert_eq!(pmm.find_free_frame(), Some(5 * 4096));
    assert_eq!(pmm.free_pages(), usize::MAX);
}

#[test]
fn pmm_memory_kind_labels() {
    assert_eq!(MemoryKind::Usable.label(), "Usable");
    assert_eq!(MemoryKind::AcpiReclaimable.label(), "ACPI Reclaim");
    assert_eq!(MemoryKind::KernelAndModules.label(), "Kernel/Modules");
    assert_eq!(MemoryKind::BadMemory.label(), "Bad");
}

#[test]
fn boot_frame_allocator_hands_out_frames() {
    let map = sample_map();
    let mut pmm = FrameBitmap::init(&map, 0);
    let mut alloc = BootFrameAllocator;
    assert_eq!(alloc.allocate_frame(&mut pmm), Some(3 * 4096));
    assert_eq!(alloc.allocate_frame(&mut pmm), Some(4 * 4096));
    assert!(pmm.is_locked(4));
}

#[test]
fn boot_frame_allocator_none_when_full() {
    let map = vec![
        region(0, 4096, MemoryKind::Reserved),
        region(4096, 4096, MemoryKind::Usable),
        region(2 * 4096, 6 * 4096, MemoryKind::Reserved),
    ];
    let mut pmm = FrameBitmap::init(&map, 0);
    let mut alloc = BootFrameAllocator;
    assert_eq!(alloc.allocate_frame(&mut pmm), None);
}
