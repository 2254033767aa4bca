# sel4_root_logic

The decisions that small seL4 root tasks and Microkit protection domains
make, written in Verus and proved against their contracts:

- `boot`: the boot information a root task reads (untyped descriptors and
  slot regions), choosing the largest kernel untyped, finding the untyped
  that holds a physical address, and locating the task's own image frames.
- `allocator`: an object allocator that hands out empty slots in order and
  plans retypes from one untyped, including placing an object at a fixed
  physical address.
- `trim`: carving an untyped down to a target address, with the laws that
  the carved pieces are naturally aligned, strictly shrinking, and end
  exactly at the target.
- `child`: the objects and CNode layout of a spawned child task, and its
  ELF entry point (read with the `object` crate).
- `thread`: the thread-local storage template and the IPC buffer frame of a
  new thread.
- `protocol`: the messages the example tasks exchange and what each side
  accepts.

The library only plans: it returns `invocation::Invocation` values, and the
program in `app/` performs them with the seL4 crates, reads the boot
information, and runs the tasks.
