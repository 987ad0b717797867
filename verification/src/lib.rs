//! Heap-management core of a freestanding kernel: a first-fit free-list
//! allocator seeded from a firmware memory map, the spin-lock mutex that
//! guards shared state before any scheduler exists, and the bit-level
//! helpers of the surrounding boot code (ACPI tables, HPET timer, CPU
//! descriptor tables).
//!
//! The allocator threads self-describing block headers through the managed
//! memory itself. Here the chain is modelled as an arena of header records
//! held in chain order; a header records the start address and total byte
//! span of its block and whether the block is currently handed out. Headers
//! are never unlinked: freeing only clears the allocation flag.

pub mod arith;
pub mod allocator;
pub mod mutex;
pub mod acpi;
pub mod hpet;
pub mod init;
pub mod x86;

