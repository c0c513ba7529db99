//! Runtime-support primitives for a 32-bit, single-core target whose
//! processor lacks native compare-and-swap instructions and whose
//! environment offers no hosted heap.
//!
//! The crate supplies three layers:
//!
//! * a typed gateway over a small kernel trap interface
//!   (virtual-memory allocate/deallocate, byte-stream read/write,
//!   process exit), stated against an explicit model of the kernel
//!   ([`kernel::Kernel`]) so that every layer above the traps is
//!   verified against a precise statement of what the kernel does;
//! * a page-granular memory allocator that services every request by
//!   mapping whole pages through the kernel's virtual-memory service;
//! * software-emulated atomic operations (load, store, exchange,
//!   compare-and-swap, fetch-and-add, fence) for 1-, 2- and 4-byte
//!   words, built on a fixed table of striped spinlocks.

pub mod allocator;
pub mod atomics;
pub mod io;
pub mod kernel;
pub mod sys;
