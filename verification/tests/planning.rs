use sel4_root_logic::allocator::{plan_badged_copy, ObjectAllocator};
use sel4_root_logic::bits::{ilog2, pow2_usize};
use sel4_root_logic::boot::{
    find_largest_kernel_untyped, find_untyped_containing, get_user_image_frame_slot,
    largest_kernel_untyped_index, BootInfo, SlotRegion, UntypedDesc,
};
use sel4_root_logic::invocation::{CapRights, Invocation, ObjectBlueprint};
use sel4_root_logic::trim::trim_untyped;

fn ut(paddr: usize, size_bits: usize, is_device: bool) -> UntypedDesc {
    UntypedDesc { paddr, size_bits, is_device }
}

fn sample_bootinfo() -> BootInfo {
    BootInfo {
        untyped: SlotRegion { start: 100, end: 105 },
        untyped_list: vec![
            ut(0x0900_0000, 12, true),
            ut(0x4000_0000, 20, false),
            ut(0x8000_0000, 28, true),
            ut(0x4100_0000, 24, false),
            ut(0x4200_0000, 24, false),
        ],
        empty: SlotRegion { start: 200, end: 300 },
        user_image_frames: SlotRegion { start: 10, end: 20 },
    }
}

fn untyped_retype(untyped: usize, size_bits: usize, dest_slot: usize) -> Invocation {
    Invocation::Retype { untyped, blueprint: ObjectBlueprint::Untyped { size_bits }, dest_slot }
}

#[test]
fn ilog2_exact_values() {
    assert_eq!(ilog2(1), 0);
    assert_eq!(ilog2(2), 1);
    assert_eq!(ilog2(3), 1);
    assert_eq!(ilog2(4096), 12);
    assert_eq!(ilog2(4097), 12);
    assert_eq!(ilog2(usize::MAX), usize::BITS - 1);
}

#[test]
fn pow2_usize_exact_values() {
    assert_eq!(pow2_usize(0), 1);
    assert_eq!(pow2_usize(12), 4096);
    assert_eq!(pow2_usize(usize::BITS - 1), 1usize << (usize::BITS - 1));
}

#[test]
fn slot_region_len_and_index() {
    let r = SlotRegion { start: 7, end: 12 };
    assert_eq!(r.len(), 5);
    assert_eq!(r.index(0), 7);
    assert_eq!(r.index(4), 11);
}

#[test]
fn untyped_contains_its_range_only() {
    let d = ut(0x1000, 12, false);
    assert!(!d.contains(0xfff));
    assert!(d.contains(0x1000));
    assert!(d.contains(0x1fff));
    assert!(!d.contains(0x2000));
    let whole = ut(0x1000, 64, false);
    assert!(whole.contains(usize::MAX));
    assert!(!whole.contains(0));
}

#[test]
fn largest_kernel_untyped_skips_device_and_takes_last_of_equals() {
    let bi = sample_bootinfo();
    assert_eq!(largest_kernel_untyped_index(&bi.untyped_list), 4);
    assert_eq!(find_largest_kernel_untyped(&bi), 104);
}

#[test]
fn largest_kernel_untyped_single_candidate() {
    let list = vec![ut(0, 30, true), ut(0x1000, 12, false), ut(0x10_0000, 29, true)];
    assert_eq!(largest_kernel_untyped_index(&list), 1);
}

#[test]
fn untyped_containing_finds_first() {
    let bi = sample_bootinfo();
    assert_eq!(find_untyped_containing(&bi.untyped_list, 0x0900_0000), Some(0));
    assert_eq!(find_untyped_containing(&bi.untyped_list, 0x4100_0040), Some(3));
    assert_eq!(find_untyped_containing(&bi.untyped_list, 0x10), None);
    let overlapping = vec![ut(0x1000, 16, false), ut(0x1000, 12, false)];
    assert_eq!(find_untyped_containing(&overlapping, 0x1800), Some(0));
}

#[test]
fn user_image_frame_slot_by_granule() {
    let bi = sample_bootinfo();
    assert_eq!(get_user_image_frame_slot(&bi, 0x40_0000, 0x40_0000), 10);
    assert_eq!(get_user_image_frame_slot(&bi, 0x40_3abc, 0x40_0010), 13);
}

#[test]
fn trim_to_same_address_plans_nothing() {
    assert!(trim_untyped(5, 0x1000, 0x1000, 1, 2).is_empty());
}

#[test]
fn trim_serial_device_region() {
    // 0x0900_0000 - 0x0800_0000 = 2^24
    let plan = trim_untyped(7, 0x0800_0000, 0x0900_0000, 30, 31);
    assert_eq!(
        plan,
        vec![
            untyped_retype(7, 24, 31),
            Invocation::Delete { slot: 30 },
            Invocation::Move { dest: 30, src: 31 },
        ]
    );
}

#[test]
fn trim_uses_binary_digits_largest_first() {
    // distance 0x0900_0000 = 2^27 + 2^24
    let plan = trim_untyped(7, 0, 0x0900_0000, 30, 31);
    assert_eq!(
        plan,
        vec![
            untyped_retype(7, 27, 31),
            Invocation::Delete { slot: 30 },
            Invocation::Move { dest: 30, src: 31 },
            untyped_retype(7, 24, 31),
            Invocation::Delete { slot: 30 },
            Invocation::Move { dest: 30, src: 31 },
        ]
    );
}

fn chunk_sizes(plan: &[Invocation]) -> Vec<usize> {
    plan.iter()
        .filter_map(|inv| match inv {
            Invocation::Retype { blueprint: ObjectBlueprint::Untyped { size_bits }, .. } => {
                Some(*size_bits)
            }
            _ => None,
        })
        .collect()
}

#[test]
fn trim_chunks_cover_distance_decreasing_and_aligned() {
    let base: usize = 0x4000_0000; // aligned to 2^30
    let target: usize = base + 0x2f_5a30;
    let sizes = chunk_sizes(&trim_untyped(1, base, target, 2, 3));
    assert_eq!(sizes.len(), (target - base).count_ones() as usize);
    let mut cur = base;
    for w in sizes.windows(2) {
        assert!(w[0] > w[1]);
    }
    for s in sizes {
        assert_eq!(cur % (1usize << s), 0);
        cur += 1usize << s;
    }
    assert_eq!(cur, target);
}

#[test]
fn allocator_hands_out_slots_in_order() {
    let bi = sample_bootinfo();
    let mut a = ObjectAllocator::new(&bi);
    assert_eq!(a.free_slots_start(), 200);
    assert_eq!(a.allocate_slot(), 200);
    assert_eq!(a.allocate_slot(), 201);
    assert_eq!(
        a.allocate(ObjectBlueprint::Notification),
        Invocation::Retype { untyped: 104, blueprint: ObjectBlueprint::Notification, dest_slot: 202 }
    );
    assert_eq!(a.free_slots_start(), 203);
}

#[test]
fn recklessly_allocate_at_device_address() {
    let bi = BootInfo {
        untyped: SlotRegion { start: 50, end: 53 },
        untyped_list: vec![
            ut(0x4000_0000, 20, false),
            ut(0x0800_0000, 27, true),
            ut(0x0900_0000, 12, true),
        ],
        empty: SlotRegion { start: 60, end: 70 },
        user_image_frames: SlotRegion { start: 1, end: 2 },
    };
    let mut a = ObjectAllocator::new(&bi);
    let plan = a.recklessly_allocate_at(ObjectBlueprint::Granule, 0x0900_0000);
    assert_eq!(
        plan,
        vec![
            untyped_retype(51, 24, 61),
            Invocation::Delete { slot: 60 },
            Invocation::Move { dest: 60, src: 61 },
            Invocation::Retype { untyped: 51, blueprint: ObjectBlueprint::Granule, dest_slot: 62 },
        ]
    );
    assert_eq!(a.free_slots_start(), 63);
}

#[test]
fn recklessly_allocate_at_region_start_needs_no_trim() {
    let bi = sample_bootinfo();
    let mut a = ObjectAllocator::new(&bi);
    let plan = a.recklessly_allocate_at(ObjectBlueprint::Granule, 0x4000_0000);
    assert_eq!(
        plan,
        vec![Invocation::Retype { untyped: 101, blueprint: ObjectBlueprint::Granule, dest_slot: 202 }]
    );
    assert_eq!(a.free_slots_start(), 203);
}

#[test]
fn badged_copy_goes_into_next_free_slot() {
    let bi = sample_bootinfo();
    let mut a = ObjectAllocator::new(&bi);
    let notification = a.allocate(ObjectBlueprint::Notification);
    assert_eq!(
        notification,
        Invocation::Retype { untyped: 104, blueprint: ObjectBlueprint::Notification, dest_slot: 200 }
    );
    assert_eq!(
        plan_badged_copy(&mut a, 200, 0x1337),
        Invocation::MintCopy { dest: 201, src: 200, rights: CapRights::All, badge: 0x1337 }
    );
    assert_eq!(a.free_slots_start(), 202);
}
