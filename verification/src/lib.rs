//! A verified instruction-set simulator for the RV32I base integer ISA.
//!
//! The crate decodes 32-bit RISC-V words into a typed operation plus its
//! format-specific operand view, keeps a bounded little-endian byte image
//! of memory, and executes instructions on a virtual CPU (32 integer
//! registers plus a program counter) until the machine observes a
//! single-instruction self-loop.
//!
//! Reading the ELF container itself (headers, section lookup) is left to an
//! unverified front end, which hands this crate plain values: the entry
//! point, the loadable segments, and the address and size of the section to
//! decode.

pub mod executor;
pub mod formats;
pub mod instruction;
pub mod loader;
pub mod machine;
pub mod memory;
pub mod parser;
