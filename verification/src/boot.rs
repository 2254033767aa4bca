//! What a root task reads from the kernel's boot information: the untyped
//! memory it was given and the ranges of capability slots.

use vstd::prelude::*;
use vstd::arithmetic::power2::pow2;
use crate::bits::pow2_usize;

verus! {

/// A run of consecutive capability slots `start..end` of the root CNode.
#[derive(PartialEq, Eq, Structural, Clone, Copy, Debug)]
pub struct SlotRegion {
    pub start: usize,
    pub end: usize,
}

impl SlotRegion {
    /// The region is a proper range.
    pub open spec fn wf(self) -> bool {
        self.start <= self.end
    }

    /// The number of slots in the region.
    pub open spec fn count(self) -> nat {
        (self.end - self.start) as nat
    }

    /// The number of slots in the region.
    pub fn len(&self) -> (n: usize)
        requires
            self.wf(),
        ensures
            n == self.count(),
    {
        self.end - self.start
    }

    /// The slot at position `i` of the region.
    pub fn index(&self, i: usize) -> (slot: usize)
        requires
            self.wf(),
            i < self.count(),
        ensures
            slot == self.start + i,
    {
        self.start + i
    }
}

/// One region of untyped memory: `2^size_bits` bytes from `paddr`.
#[derive(PartialEq, Eq, Structural, Clone, Copy, Debug)]
pub struct UntypedDesc {
    pub paddr: usize,
    pub size_bits: usize,
    pub is_device: bool,
}

impl UntypedDesc {
    /// `addr` lies in `paddr .. paddr + 2^size_bits`.
    pub open spec fn spec_contains(self, addr: usize) -> bool {
        self.paddr <= addr && addr < self.paddr + pow2(self.size_bits as nat)
    }

    /// Whether the region holds the byte at `addr`.
    pub fn contains(&self, addr: usize) -> (b: bool)
        ensures
            b == self.spec_contains(addr),
            b <==> (self.paddr <= addr && addr < self.paddr + pow2(self.size_bits as nat)),
    {
        if addr < self.paddr {
            false
        } else if self.size_bits >= usize::BITS as usize {
            proof {
                vstd::arithmetic::power2::lemma2_to64();
                vstd::arithmetic::power2::lemma2_to64_rest();
                if self.size_bits > usize::BITS {
                    vstd::arithmetic::power2::lemma_pow2_strictly_increases(
                        usize::BITS as nat,
                        self.size_bits as nat,
                    );
                }
            }
            true
        } else {
            let size: usize = pow2_usize(self.size_bits as u32);
            addr - self.paddr < size
        }
    }
}

/// The parts of the kernel's boot information that root tasks read.
pub struct BootInfo {
    /// The slots that hold the untyped capabilities, one per descriptor.
    pub untyped: SlotRegion,
    /// The descriptors of the untyped capabilities, in slot order.
    pub untyped_list: Vec<UntypedDesc>,
    /// The empty slots of the root CNode.
    pub empty: SlotRegion,
    /// The slots that hold the frames of the root task's own image, in
    /// address order.
    pub user_image_frames: SlotRegion,
}

impl BootInfo {
    /// The regions are ranges and there is one descriptor per untyped slot.
    pub open spec fn wf(&self) -> bool {
        &&& self.untyped.wf()
        &&& self.empty.wf()
        &&& self.user_image_frames.wf()
        &&& self.untyped_list.len() == self.untyped.count()
    }
}

/// Bytes in the smallest frame.
pub const GRANULE_SIZE: usize = 4096;

/// Whether some descriptor describes kernel (non-device) memory.
pub open spec fn has_kernel_untyped(s: Seq<UntypedDesc>) -> bool {
    exists|i: int| 0 <= i < s.len() && !(#[trigger] s[i]).is_device
}

/// `i` is the largest kernel untyped; among equally large ones, the last.
pub open spec fn is_largest_kernel_untyped(s: Seq<UntypedDesc>, i: int) -> bool {
    &&& 0 <= i < s.len()
    &&& !s[i].is_device
    &&& forall|j: int|
        0 <= j < s.len() && !(#[trigger] s[j]).is_device ==> s[j].size_bits <= s[i].size_bits
    &&& forall|j: int|
        i < j < s.len() && !(#[trigger] s[j]).is_device ==> s[j].size_bits < s[i].size_bits
}

/// The largest kernel untyped, spelled out: not device memory, at least as
/// large as every non-device region, and strictly larger than every
/// non-device region after it.
pub proof fn lemma_largest_kernel_untyped_meaning(s: Seq<UntypedDesc>, i: int)
    ensures
        is_largest_kernel_untyped(s, i) <==> {
            &&& 0 <= i < s.len()
            &&& !s[i].is_device
            &&& forall|j: int|
                0 <= j < s.len() && !(#[trigger] s[j]).is_device ==> s[j].size_bits
                    <= s[i].size_bits
            &&& forall|j: int|
                i < j < s.len() && !(#[trigger] s[j]).is_device ==> s[j].size_bits
                    < s[i].size_bits
        },
{
}

/// At most one descriptor is the largest kernel untyped.
pub proof fn lemma_largest_kernel_untyped_unique(s: Seq<UntypedDesc>, i: int, k: int)
    requires
        is_largest_kernel_untyped(s, i),
        is_largest_kernel_untyped(s, k),
    ensures
        i == k,
{
    if i < k {
        assert(s[k].size_bits < s[i].size_bits);
        assert(s[i].size_bits <= s[k].size_bits);
    } else if k < i {
        assert(s[i].size_bits < s[k].size_bits);
        assert(s[k].size_bits <= s[i].size_bits);
    }
}

/// The position of the largest kernel untyped in `list`.
pub fn largest_kernel_untyped_index(list: &Vec<UntypedDesc>) -> (i: usize)
    requires
        has_kernel_untyped(list@),
    ensures
        is_largest_kernel_untyped(list@, i as int),
        i < list@.len(),
        !list@[i as int].is_device,
        forall|j: int|
            0 <= j < list@.len() && !(#[trigger] list@[j]).is_device ==> list@[j].size_bits
                <= list@[i as int].size_bits,
        forall|j: int|
            i < j < list@.len() && !(#[trigger] list@[j]).is_device ==> list@[j].size_bits
                < list@[i as int].size_bits,
{
    let mut best: Option<usize> = None;
    let mut j: usize = 0;
    while j < list.len()
        invariant
            j <= list.len(),
            best is None ==> forall|t: int| 0 <= t < j ==> (#[trigger] list@[t]).is_device,
            best matches Some(b) ==> {
                &&& b < j
                &&& !list@[b as int].is_device
                &&& forall|t: int|
                    0 <= t < j && !(#[trigger] list@[t]).is_device ==> list@[t].size_bits
                        <= list@[b as int].size_bits
                &&& forall|t: int|
                    b < t < j && !(#[trigger] list@[t]).is_device ==> list@[t].size_bits
                        < list@[b as int].size_bits
            },
        decreases list.len() - j,
    {
        let d = list[j];
        if !d.is_device {
            match best {
                None => {
                    best = Some(j);
                },
                Some(b) => {
                    if d.size_bits >= list[b].size_bits {
                        best = Some(j);
                    }
                },
            }
        }
        j = j + 1;
    }
    match best {
        Some(b) => b,
        None => {
            proof {
                let w = choose|w: int| 0 <= w < list@.len() && !(#[trigger] list@[w]).is_device;
                assert(list@[w].is_device);
            }
            0
        },
    }
}

/// The capability slot of the largest untyped region that is not device
/// memory (the last of the largest, where several are equally large).
pub fn find_largest_kernel_untyped(bootinfo: &BootInfo) -> (slot: usize)
    requires
        bootinfo.wf(),
        has_kernel_untyped(bootinfo.untyped_list@),
    ensures
        bootinfo.untyped.start <= slot,
        is_largest_kernel_untyped(bootinfo.untyped_list@, slot - bootinfo.untyped.start),
{
    let ut_ix = largest_kernel_untyped_index(&bootinfo.untyped_list);
    bootinfo.untyped.index(ut_ix)
}

/// `i` is the first descriptor whose region holds `paddr`.
pub open spec fn is_first_containing(s: Seq<UntypedDesc>, paddr: usize, i: int) -> bool {
    &&& 0 <= i < s.len()
    &&& s[i].spec_contains(paddr)
    &&& forall|j: int| 0 <= j < i ==> !(#[trigger] s[j]).spec_contains(paddr)
}

/// The first region holding `paddr`, spelled out: its start is at most
/// `paddr`, `paddr` lies below its start plus `2^size_bits`, and no earlier
/// region has both.
pub proof fn lemma_first_containing_meaning(s: Seq<UntypedDesc>, paddr: usize, i: int)
    ensures
        is_first_containing(s, paddr, i) <==> {
            &&& 0 <= i < s.len()
            &&& s[i].paddr <= paddr
            &&& paddr < s[i].paddr + pow2(s[i].size_bits as nat)
            &&& forall|j: int|
                0 <= j < i ==> !((#[trigger] s[j]).paddr <= paddr && paddr < s[j].paddr + pow2(
                    s[j].size_bits as nat,
                ))
        },
{
}

/// At most one descriptor is the first to hold `paddr`.
pub proof fn lemma_first_containing_unique(s: Seq<UntypedDesc>, paddr: usize, i: int, k: int)
    requires
        is_first_containing(s, paddr, i),
        is_first_containing(s, paddr, k),
    ensures
        i == k,
{
    if i < k {
        assert(!s[i].spec_contains(paddr));
    } else if k < i {
        assert(!s[k].spec_contains(paddr));
    }
}

/// Whether some descriptor's region holds `paddr`.
pub open spec fn has_untyped_containing(s: Seq<UntypedDesc>, paddr: usize) -> bool {
    exists|i: int| 0 <= i < s.len() && (#[trigger] s[i]).spec_contains(paddr)
}

/// A region holds exactly the addresses from its start up to its start
/// plus `2^size_bits`, for every size.
pub proof fn lemma_contains_is_range(d: UntypedDesc, addr: usize)
    ensures
        d.spec_contains(addr) <==> (d.paddr <= addr && addr < d.paddr + pow2(d.size_bits as nat)),
{
}

/// The position of the first untyped region that holds `paddr`, if any.
pub fn find_untyped_containing(list: &Vec<UntypedDesc>, paddr: usize) -> (r: Option<usize>)
    ensures
        r matches Some(i) ==> is_first_containing(list@, paddr, i as int),
        r is None <==> !has_untyped_containing(list@, paddr),
        r matches Some(i) ==> {
            &&& i < list@.len()
            &&& list@[i as int].paddr <= paddr
            &&& paddr < list@[i as int].paddr + pow2(list@[i as int].size_bits as nat)
            &&& forall|j: int|
                0 <= j < i ==> !((#[trigger] list@[j]).paddr <= paddr && paddr < list@[j].paddr
                    + pow2(list@[j].size_bits as nat))
        },
        r is None ==> forall|j: int|
            0 <= j < list@.len() ==> !((#[trigger] list@[j]).paddr <= paddr && paddr
                < list@[j].paddr + pow2(list@[j].size_bits as nat)),
{
    let mut j: usize = 0;
    while j < list.len()
        invariant
            j <= list.len(),
            forall|t: int| 0 <= t < j ==> !(#[trigger] list@[t]).spec_contains(paddr),
        decreases list.len() - j,
    {
        if list[j].contains(paddr) {
            return Some(j);
        }
        j = j + 1;
    }
    None
}

/// The slot of the frame of the root task's image that holds `addr`, where
/// the image begins at `image_start`.
pub fn get_user_image_frame_slot(bootinfo: &BootInfo, addr: usize, image_start: usize) -> (slot: usize)
    requires
        bootinfo.wf(),
        image_start / GRANULE_SIZE <= addr / GRANULE_SIZE,
        addr / GRANULE_SIZE - image_start / GRANULE_SIZE < bootinfo.user_image_frames.count(),
    ensures
        slot == bootinfo.user_image_frames.start + (addr / GRANULE_SIZE - image_start
            / GRANULE_SIZE),
{
    bootinfo.user_image_frames.index(addr / GRANULE_SIZE - image_start / GRANULE_SIZE)
}

} // verus!
