//! A simple object allocator: every object comes from the largest kernel
//! untyped and goes into the next empty slot of the root CNode.

use vstd::prelude::*;
use vstd::arithmetic::power2::pow2;
use crate::boot::{
    BootInfo, SlotRegion, UntypedDesc, has_kernel_untyped, is_largest_kernel_untyped,
    find_largest_kernel_untyped, has_untyped_containing, is_first_containing,
    find_untyped_containing,
};
use crate::invocation::{CapRights, Invocation, ObjectBlueprint};
use crate::trim::{trim_untyped, trim_plan, trim_chunks, chunk_total, lemma_trim_chunks_total,
    lemma_trim_chunks_aligned};

verus! {

/// Hands out the root CNode's empty slots in order and retypes objects from
/// one untyped into them.
pub struct ObjectAllocator<'a> {
    bootinfo: &'a BootInfo,
    empty_slots: SlotRegion,
    ut: usize,
}

impl<'a> ObjectAllocator<'a> {
    /// The boot information the allocator was made from.
    pub closed spec fn spec_bootinfo(&self) -> &'a BootInfo {
        self.bootinfo
    }

    /// The slots not yet handed out.
    pub closed spec fn free_slots(&self) -> SlotRegion {
        self.empty_slots
    }

    /// The slot of the untyped capability that objects are made from.
    pub closed spec fn untyped_slot(&self) -> usize {
        self.ut
    }

    /// The free slots form a range that ends where the boot information's
    /// empty region ends and starts no lower than it starts.
    pub open spec fn wf(&self) -> bool {
        &&& self.free_slots().wf()
        &&& self.spec_bootinfo().empty.start <= self.free_slots().start
        &&& self.free_slots().end == self.spec_bootinfo().empty.end
    }

    /// The slots handed out so far: the empty region up to the free slots.
    pub open spec fn handed_out(&self) -> Set<int> {
        Set::new(|s: int| self.spec_bootinfo().empty.start <= s < self.free_slots().start)
    }

    /// Starts with all empty slots free and the largest kernel untyped.
    pub fn new(bootinfo: &'a BootInfo) -> (a: Self)
        requires
            bootinfo.wf(),
            has_kernel_untyped(bootinfo.untyped_list@),
        ensures
            a.wf(),
            a.spec_bootinfo() == bootinfo,
            a.free_slots() == bootinfo.empty,
            a.handed_out() == Set::<int>::empty(),
            bootinfo.untyped.start <= a.untyped_slot(),
            is_largest_kernel_untyped(
                bootinfo.untyped_list@,
                a.untyped_slot() - bootinfo.untyped.start,
            ),
    {
        let a = ObjectAllocator {
            bootinfo,
            empty_slots: bootinfo.empty,
            ut: find_largest_kernel_untyped(bootinfo),
        };
        proof {
            assert(a.handed_out() =~= Set::<int>::empty());
        }
        a
    }

    /// The first free slot.
    pub fn free_slots_start(&self) -> (s: usize)
        ensures
            s == self.free_slots().start,
    {
        self.empty_slots.start
    }

    /// The end of the free slots.
    pub fn free_slots_end(&self) -> (e: usize)
        ensures
            e == self.free_slots().end,
    {
        self.empty_slots.end
    }

    /// The boot information the allocator was made from.
    pub fn bootinfo(&self) -> (b: &'a BootInfo)
        ensures
            b == self.spec_bootinfo(),
    {
        self.bootinfo
    }

    /// Hands out the first free slot.
    pub fn allocate_slot(&mut self) -> (slot: usize)
        requires
            old(self).wf(),
            old(self).free_slots().start < old(self).free_slots().end,
        ensures
            final(self).wf(),
            slot == old(self).free_slots().start,
            !old(self).handed_out().contains(slot as int),
            final(self).handed_out() == old(self).handed_out().insert(slot as int),
            final(self).free_slots() == (SlotRegion {
                start: (slot + 1) as usize,
                end: old(self).free_slots().end,
            }),
            final(self).untyped_slot() == old(self).untyped_slot(),
            final(self).spec_bootinfo() == old(self).spec_bootinfo(),
    {
        let slot = self.empty_slots.start;
        self.empty_slots = SlotRegion { start: slot + 1, end: self.empty_slots.end };
        proof {
            assert(self.handed_out() =~= old(self).handed_out().insert(slot as int));
        }
        slot
    }

    /// Plans one object of the given kind in the first free slot; the slot
    /// is the invocation's destination.
    pub fn allocate(&mut self, blueprint: ObjectBlueprint) -> (retype: Invocation)
        requires
            old(self).wf(),
            old(self).free_slots().start < old(self).free_slots().end,
        ensures
            final(self).wf(),
            retype == (Invocation::Retype {
                untyped: old(self).untyped_slot(),
                blueprint,
                dest_slot: old(self).free_slots().start,
            }),
            !old(self).handed_out().contains(old(self).free_slots().start as int),
            final(self).handed_out() == old(self).handed_out().insert(
                old(self).free_slots().start as int,
            ),
            final(self).free_slots() == (SlotRegion {
                start: (old(self).free_slots().start + 1) as usize,
                end: old(self).free_slots().end,
            }),
            final(self).untyped_slot() == old(self).untyped_slot(),
            final(self).spec_bootinfo() == old(self).spec_bootinfo(),
    {
        let slot = self.allocate_slot();
        Invocation::Retype { untyped: self.ut, blueprint, dest_slot: slot }
    }

    /// Plans one object of the given kind at physical address `paddr`: the
    /// first untyped that holds `paddr` is carved down to it through two
    /// free slots, and the object goes into a third.
    pub fn recklessly_allocate_at(&mut self, blueprint: ObjectBlueprint, paddr: usize) -> (plan:
        Vec<Invocation>)
        requires
            old(self).wf(),
            old(self).spec_bootinfo().wf(),
            has_untyped_containing(old(self).spec_bootinfo().untyped_list@, paddr),
            old(self).free_slots().start + 3 <= old(self).free_slots().end,
        ensures
            final(self).wf(),
            ({
                let s = old(self).free_slots().start;
                let bi = old(self).spec_bootinfo();
                exists|i: int|
                    #![trigger bi.untyped_list@[i]]
                    is_first_containing(bi.untyped_list@, paddr, i) && plan@ == trim_plan(
                        (bi.untyped.start + i) as usize,
                        s,
                        (s + 1) as usize,
                        trim_chunks((paddr - bi.untyped_list@[i].paddr) as nat),
                    ) + seq![
                        Invocation::Retype {
                            untyped: (bi.untyped.start + i) as usize,
                            blueprint,
                            dest_slot: (s + 2) as usize,
                        },
                    ]
            }),
            ({
                let s = old(self).free_slots().start as int;
                &&& !old(self).handed_out().contains(s)
                &&& !old(self).handed_out().contains(s + 1)
                &&& !old(self).handed_out().contains(s + 2)
                &&& final(self).handed_out() == old(self).handed_out().insert(s).insert(
                    s + 1,
                ).insert(s + 2)
            }),
            final(self).free_slots() == (SlotRegion {
                start: (old(self).free_slots().start + 3) as usize,
                end: old(self).free_slots().end,
            }),
            final(self).untyped_slot() == old(self).untyped_slot(),
            final(self).spec_bootinfo() == old(self).spec_bootinfo(),
    {
        let bootinfo = self.bootinfo;
        let found = find_untyped_containing(&bootinfo.untyped_list, paddr);
        let ut_ix = match found {
            Some(i) => i,
            None => {
                proof {
                    assert(false);
                }
                0
            },
        };
        let ut_desc: UntypedDesc = bootinfo.untyped_list[ut_ix];
        let ut_cap = bootinfo.untyped.index(ut_ix);
        let free_slot_a = self.allocate_slot();
        let free_slot_b = self.allocate_slot();
        let mut plan = trim_untyped(ut_cap, ut_desc.paddr, paddr, free_slot_a, free_slot_b);
        let obj_slot = self.allocate_slot();
        let ghost trimmed = plan@;
        plan.push(Invocation::Retype { untyped: ut_cap, blueprint, dest_slot: obj_slot });
        proof {
            assert(plan@ == trimmed + seq![
                Invocation::Retype { untyped: ut_cap, blueprint, dest_slot: obj_slot },
            ]);
        }
        plan
    }
}

/// Plans a badged copy, with all rights, of the capability at `src_slot`
/// into the allocator's first free slot.
pub fn plan_badged_copy(allocator: &mut ObjectAllocator, src_slot: usize, badge: u64) -> (mint:
    Invocation)
    requires
        old(allocator).wf(),
        old(allocator).free_slots().start < old(allocator).free_slots().end,
    ensures
        final(allocator).wf(),
        mint == (Invocation::MintCopy {
            dest: old(allocator).free_slots().start,
            src: src_slot,
            rights: CapRights::All,
            badge,
        }),
        !old(allocator).handed_out().contains(old(allocator).free_slots().start as int),
        final(allocator).handed_out() == old(allocator).handed_out().insert(
            old(allocator).free_slots().start as int,
        ),
        final(allocator).free_slots() == (SlotRegion {
            start: (old(allocator).free_slots().start + 1) as usize,
            end: old(allocator).free_slots().end,
        }),
        final(allocator).untyped_slot() == old(allocator).untyped_slot(),
        final(allocator).spec_bootinfo() == old(allocator).spec_bootinfo(),
{
    let dest = allocator.allocate_slot();
    Invocation::MintCopy { dest, src: src_slot, rights: CapRights::All, badge }
}

/// Every slot an allocator has handed out lies in the boot information's
/// empty region.
pub proof fn lemma_handed_out_in_empty(a: ObjectAllocator)
    requires
        a.wf(),
    ensures
        forall|s: int|
            #[trigger] a.handed_out().contains(s) ==> a.spec_bootinfo().empty.start <= s
                < a.spec_bootinfo().empty.end,
{
}

/// Across any run of calls on one allocator, a slot once handed out stays
/// handed out.
pub proof fn lemma_handed_out_grows(a: ObjectAllocator, b: ObjectAllocator)
    requires
        a.wf(),
        b.wf(),
        a.spec_bootinfo() == b.spec_bootinfo(),
        a.free_slots().start <= b.free_slots().start,
    ensures
        a.handed_out().subset_of(b.handed_out()),
{
}

/// No slot is handed out twice: a slot already handed out by the time of
/// state `earlier` differs from every slot that a call from a later state
/// `later` hands out, since each call hands out only slots not yet handed out.
pub proof fn lemma_no_slot_handed_out_twice(
    earlier: ObjectAllocator,
    later: ObjectAllocator,
    x: int,
    y: int,
)
    requires
        earlier.wf(),
        later.wf(),
        earlier.spec_bootinfo() == later.spec_bootinfo(),
        earlier.free_slots().start <= later.free_slots().start,
        earlier.handed_out().contains(x),
        !later.handed_out().contains(y),
    ensures
        x != y,
{
    lemma_handed_out_grows(earlier, later);
}

/// Carving lands the object at `paddr`: when the untyped holding `paddr`
/// starts on a boundary of its own size (as seL4 hands them out), the
/// children of the carving plan each start on a boundary of their own size
/// and end exactly at `paddr`.
pub proof fn lemma_reckless_allocation_lands_at(desc: UntypedDesc, paddr: usize)
    requires
        desc.spec_contains(paddr),
        desc.paddr as nat % pow2(desc.size_bits as nat) == 0,
    ensures
        desc.paddr + chunk_total(trim_chunks((paddr - desc.paddr) as nat)) == paddr,
        forall|i: int|
            0 <= i < trim_chunks((paddr - desc.paddr) as nat).len() ==> #[trigger] ((desc.paddr as nat
                + chunk_total(trim_chunks((paddr - desc.paddr) as nat).take(i))) % pow2(
                trim_chunks((paddr - desc.paddr) as nat)[i],
            )) == 0,
{
    let r = (paddr - desc.paddr) as nat;
    lemma_trim_chunks_total(r);
    lemma_trim_chunks_aligned(desc.paddr as nat, r, desc.size_bits as nat);
}

} // verus!
