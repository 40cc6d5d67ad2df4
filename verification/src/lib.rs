//! Aurora OS kernel core: the verified data structures and policies of the
//! kernel (path handling, frame and region allocation, page tables, run
//! queues, IPC queues and pipes, capabilities, the in-memory filesystem and
//! the system-call table).

pub mod acpi;
pub mod arch;
pub mod drivers;
pub mod fmt;
pub mod fs;
pub mod ipc;
pub mod mm;
pub mod sched;
pub mod security;
pub mod syscall;
pub mod text;
pub mod vfs;
