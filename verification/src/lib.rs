//! Verified core of a small supervisor-mode kernel for a single RISC-V hart.
//!
//! The crate holds the kernel's decisions and data structures as plain,
//! machine-independent code: page-granular addresses, the frame and
//! address-space-identifier allocators, the multi-level page table, the
//! classification of traps and system calls, and the round-robin scheduler.
//! Everything that touches the machine itself (registers, raw memory, the
//! console) is left to the code that embeds this crate.

pub mod addr;
pub mod frame_alloc;
pub mod asid;
pub mod paging;
pub mod sv39;
pub mod addr_space;
pub mod syscall;
pub mod trap;
pub mod batch;
pub mod task;
pub mod loader;
pub mod user_task;
pub mod kernel;
