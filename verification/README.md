# aurora_kernel

The core of the Aurora OS kernel as a verified library. The functions in
`src/` carry `requires`/`ensures` contracts that Verus proves, with two
exceptions: the small wrappers marked `#[verifier::external_body]` (around the
`x86_64` descriptor and page tables and the `linked_list_allocator` heap),
whose contracts are believed as stated from those crates' sources, and the
ACPI sleep and hibernate requests, which do nothing and state nothing.

## Layout

- `src/vfs`: paths, file metadata, mount points and the virtual filesystem
  (longest-prefix mount resolution, descriptor table).
- `src/fs`: the filesystem interface and tmpfs, an in-memory filesystem whose
  inodes live in an arena and whose directories keep their entries sorted.
- `src/mm`: memory regions, the bitmap frame allocator, the first-fit region
  allocator, a wrapper around a hardware page table and heap statistics.
- `src/sched`: threads, processes, priority run queues and the scheduler.
- `src/ipc`: message queues and port numbering, pipes, shared memory.
- `src/security`: capability sets, security contexts, sandboxes.
- `src/syscall`: system call numbers and the dispatch table.
- `src/drivers`: the device interface, placeholder and storage devices, the
  device registry.
- `src/arch`: CPU feature decoding, the descriptor tables, the interrupt
  controllers' port writes and the serial port's registers and encoding.
- `src/text.rs`, `src/fmt.rs`: string comparison and decimal formatting.
- `app/`: the boot sequence, the global instance of each subsystem behind its
  lock, port and register access, the bootloader's memory map, the heap
  allocator and logging.
- `tests/`: tests of the library on concrete values.

Public proof functions named `lemma_*` state the laws that relate several
operations (for example, that a pipe gives bytes back in the order they were
written, or that normalising a path twice changes nothing).
