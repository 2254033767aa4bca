//! Setting up a child task: its objects, the capabilities in its CNode, and
//! where it starts running.

use vstd::prelude::*;
use vstd::arithmetic::power2::pow2;
use crate::allocator::ObjectAllocator;
use crate::boot::SlotRegion;
use crate::invocation::{CapRights, Invocation, ObjectBlueprint};

verus! {

/// Bits in a machine word of the target, and so in a capability address.
pub const WORD_SIZE: usize = usize::BITS as usize;

/// The child's CNode has `2^4` slots.
pub const CHILD_CNODE_SIZE_BITS: usize = 4;

/// The capability address at which the child finds its own TCB.
pub const CHILD_OWN_TCB: usize = 1;

/// The capability address at which the child finds the endpoint to its parent.
pub const CHILD_INTRA_TASK_EP: usize = 2;

/// The root CNode slots of the objects made for a child task.
#[derive(PartialEq, Eq, Structural, Clone, Copy, Debug)]
pub struct ChildObjects {
    pub endpoint: usize,
    pub cnode: usize,
    pub tcb: usize,
}

/// Plans the child's endpoint, its CNode of `2^CHILD_CNODE_SIZE_BITS` slots
/// and its TCB, in that order, in the allocator's next three free slots.
pub fn plan_child_objects(allocator: &mut ObjectAllocator) -> (r: (Vec<Invocation>, ChildObjects))
    requires
        old(allocator).wf(),
        old(allocator).free_slots().start + 3 <= old(allocator).free_slots().end,
    ensures
        final(allocator).wf(),
        ({
            let s = old(allocator).free_slots().start;
            let ut = old(allocator).untyped_slot();
            &&& r.1 == ChildObjects {
                endpoint: s,
                cnode: (s + 1) as usize,
                tcb: (s + 2) as usize,
            }
            &&& r.0@ == seq![
                Invocation::Retype {
                    untyped: ut,
                    blueprint: ObjectBlueprint::Endpoint,
                    dest_slot: s,
                },
                Invocation::Retype {
                    untyped: ut,
                    blueprint: ObjectBlueprint::CNode { size_bits: CHILD_CNODE_SIZE_BITS },
                    dest_slot: (s + 1) as usize,
                },
                Invocation::Retype {
                    untyped: ut,
                    blueprint: ObjectBlueprint::Tcb,
                    dest_slot: (s + 2) as usize,
                },
            ]
        }),
        ({
            let s = old(allocator).free_slots().start as int;
            &&& !old(allocator).handed_out().contains(s)
            &&& !old(allocator).handed_out().contains(s + 1)
            &&& !old(allocator).handed_out().contains(s + 2)
            &&& final(allocator).handed_out() == old(allocator).handed_out().insert(s).insert(
                s + 1,
            ).insert(s + 2)
        }),
        final(allocator).free_slots() == (SlotRegion {
            start: (old(allocator).free_slots().start + 3) as usize,
            end: old(allocator).free_slots().end,
        }),
        final(allocator).untyped_slot() == old(allocator).untyped_slot(),
        final(allocator).spec_bootinfo() == old(allocator).spec_bootinfo(),
{
    let s = allocator.free_slots_start();
    let mut plan: Vec<Invocation> = Vec::new();
    let ep = allocator.allocate(ObjectBlueprint::Endpoint);
    let cnode = allocator.allocate(ObjectBlueprint::CNode { size_bits: CHILD_CNODE_SIZE_BITS });
    let tcb = allocator.allocate(ObjectBlueprint::Tcb);
    plan.push(ep);
    plan.push(cnode);
    plan.push(tcb);
    proof {
        assert(plan@ =~= seq![ep, cnode, tcb]);
    }
    (plan, ChildObjects { endpoint: s, cnode: s + 1, tcb: s + 2 })
}

/// The capabilities that the child's CNode receives: its TCB with all
/// rights in slot `CHILD_OWN_TCB`, then the endpoint, write only, in slot
/// `CHILD_INTRA_TASK_EP`, neither badged.
pub open spec fn spec_child_cnode_mints(objects: ChildObjects) -> Seq<Invocation> {
    seq![
        Invocation::Mint {
            cnode_slot: objects.cnode,
            dest_index: 1,
            depth: CHILD_CNODE_SIZE_BITS,
            src_slot: objects.tcb,
            rights: CapRights::All,
            badge: 0,
        },
        Invocation::Mint {
            cnode_slot: objects.cnode,
            dest_index: 2,
            depth: CHILD_CNODE_SIZE_BITS,
            src_slot: objects.endpoint,
            rights: CapRights::WriteOnly,
            badge: 0,
        },
    ]
}

/// Plans the copies of the child's capabilities into its CNode, taking its
/// slots in order from 1.
pub fn child_cnode_mints(objects: ChildObjects) -> (plan: Vec<Invocation>)
    ensures
        plan@ == spec_child_cnode_mints(objects),
        plan@ == seq![
            Invocation::Mint {
                cnode_slot: objects.cnode,
                dest_index: 1,
                depth: 4,
                src_slot: objects.tcb,
                rights: CapRights::All,
                badge: 0,
            },
            Invocation::Mint {
                cnode_slot: objects.cnode,
                dest_index: 2,
                depth: 4,
                src_slot: objects.endpoint,
                rights: CapRights::WriteOnly,
                badge: 0,
            },
        ],
{
    let mut next_child_slot: usize = 1;
    let mut plan: Vec<Invocation> = Vec::new();
    plan.push(Invocation::Mint {
        cnode_slot: objects.cnode,
        dest_index: next_child_slot,
        depth: CHILD_CNODE_SIZE_BITS,
        src_slot: objects.tcb,
        rights: CapRights::All,
        badge: 0,
    });
    next_child_slot = next_child_slot + 1;
    plan.push(Invocation::Mint {
        cnode_slot: objects.cnode,
        dest_index: next_child_slot,
        depth: CHILD_CNODE_SIZE_BITS,
        src_slot: objects.endpoint,
        rights: CapRights::WriteOnly,
        badge: 0,
    });
    proof {
        assert(plan@ =~= spec_child_cnode_mints(objects));
    }
    plan
}

/// The guard of the child's CNode: the word bits that the CNode's own
/// index does not take up.
pub fn child_cnode_guard_size(cnode_size_bits: usize) -> (guard: usize)
    requires
        cnode_size_bits <= WORD_SIZE,
    ensures
        guard == WORD_SIZE - cnode_size_bits,
{
    WORD_SIZE - cnode_size_bits
}

/// The capabilities land where the child looks for them: the TCB at
/// `CHILD_OWN_TCB` and the endpoint at `CHILD_INTRA_TASK_EP`. Both addresses
/// fit the CNode, and a zero guard of `WORD_SIZE - CHILD_CNODE_SIZE_BITS`
/// bits makes each address resolve to the slot of the same index.
pub proof fn lemma_child_cspace_layout(objects: ChildObjects)
    ensures
        spec_child_cnode_mints(objects)[0]->dest_index == CHILD_OWN_TCB,
        spec_child_cnode_mints(objects)[0]->Mint_src_slot == objects.tcb,
        spec_child_cnode_mints(objects)[1]->dest_index == CHILD_INTRA_TASK_EP,
        spec_child_cnode_mints(objects)[1]->Mint_src_slot == objects.endpoint,
        CHILD_OWN_TCB < pow2(CHILD_CNODE_SIZE_BITS as nat),
        CHILD_INTRA_TASK_EP < pow2(CHILD_CNODE_SIZE_BITS as nat),
        CHILD_OWN_TCB != CHILD_INTRA_TASK_EP,
        (WORD_SIZE - CHILD_CNODE_SIZE_BITS) + CHILD_CNODE_SIZE_BITS == WORD_SIZE,
{
    vstd::arithmetic::power2::lemma2_to64();
}

/// The entry point of the ELF image `image`: what `object::File::parse`
/// followed by `object::Object::entry` gives, or `None` where the parse
/// fails. The crate is built with `object`'s `unaligned` feature, so the
/// parser reads its headers at any address and the result depends on the
/// bytes alone.
pub uninterp spec fn elf_entry_point(image: Seq<u8>) -> Option<u64>;

/// Parses `image` with `object::File::parse` and, where that succeeds, reads
/// the entry point with `object::Object::entry`. Trusted: the result is the
/// value named `elf_entry_point` of the bytes; nothing more about it (which
/// images parse, or which header field the entry comes from) is stated.
#[verifier::external_body]
fn parse_elf_entry(image: &[u8]) -> (entry: Option<u64>)
    ensures
        entry == elf_entry_point(image@),
{
    match object::File::parse(image) {
        Ok(file) => Some(object::Object::entry(&file)),
        Err(_) => None,
    }
}

/// The address at which the child task starts: the entry point of its ELF
/// image, or `None` where the image does not parse.
pub fn child_entry_point(image: &[u8]) -> (entry: Option<u64>)
    ensures
        entry == elf_entry_point(image@),
{
    parse_elf_entry(image)
}

} // verus!
