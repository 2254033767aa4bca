//! The kernel invocations that a plan asks the caller to perform, in order.
//!
//! Capability slots are named by their index in the root task's own CNode;
//! a caller performs each invocation and stops at the first error.

use vstd::prelude::*;

verus! {

/// The kind of kernel object that an untyped retype creates.
#[derive(PartialEq, Eq, Structural, Clone, Copy, Debug)]
pub enum ObjectBlueprint {
    /// Untyped memory of `2^size_bits` bytes.
    Untyped { size_bits: usize },
    /// A thread control block.
    Tcb,
    /// An IPC endpoint.
    Endpoint,
    /// A notification object.
    Notification,
    /// A CNode with `2^size_bits` slots.
    CNode { size_bits: usize },
    /// A frame of the smallest page size.
    Granule,
}

/// Access rights of a capability.
#[derive(PartialEq, Eq, Structural, Clone, Copy, Debug)]
pub enum CapRights {
    /// Read, write, grant and grant-reply.
    All,
    /// Write only.
    WriteOnly,
}

/// One kernel invocation.
#[derive(PartialEq, Eq, Structural, Clone, Copy, Debug)]
pub enum Invocation {
    /// Retype the untyped capability in slot `untyped` into one object,
    /// placed in the root CNode at `dest_slot`.
    Retype { untyped: usize, blueprint: ObjectBlueprint, dest_slot: usize },
    /// Delete the capability in the root CNode at `slot`.
    Delete { slot: usize },
    /// Move the capability at `src` to the empty slot `dest` of the root CNode.
    Move { dest: usize, src: usize },
    /// Mint a copy of the root CNode's capability at `src_slot` into slot
    /// `dest_index` of the CNode whose capability sits at `cnode_slot` (and
    /// whose radix is `depth` bits), with `rights` and `badge`.
    Mint {
        cnode_slot: usize,
        dest_index: usize,
        depth: usize,
        src_slot: usize,
        rights: CapRights,
        badge: u64,
    },
    /// Mint a copy of the capability at `src` into the empty slot `dest` of
    /// the root CNode, with `rights` and `badge`.
    MintCopy { dest: usize, src: usize, rights: CapRights, badge: u64 },
}

} // verus!
