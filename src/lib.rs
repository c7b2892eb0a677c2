//! A verified engine core for a kernel submission/completion I/O ring.
//!
//! The library decides everything that does not need the kernel: the ring's
//! lifecycle, the construction and validation of submission entries, the
//! registry that owns every piece of memory the kernel may touch, and the
//! draining of completions. The caller performs the kernel calls themselves
//! and hands their outcomes back.

pub mod addr;
pub mod error;
pub mod layout;
pub mod registry;
pub mod ring;
