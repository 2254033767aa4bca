//! Verified planning logic for seL4 root tasks and Microkit protection domains:
//! choosing untyped memory, handing out capability slots, carving untyped
//! memory down to a physical address, and the message protocols that the
//! example tasks exchange.

pub mod bits;
pub mod invocation;
pub mod trim;
pub mod boot;
pub mod allocator;
pub mod protocol;
pub mod child;
pub mod thread;
