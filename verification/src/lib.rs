//! Arithmetization layer of a recursion machine: the constant-memory
//! consistency chip, the machine-composition bookkeeping, and the shared
//! interaction-argument primitives.
//!
//! A program is an immutable sequence of instructions over a prime field.
//! Each chip turns the program (and a per-shard execution record) into a
//! row-major trace whose height is a power of two, and emits interactions
//! on the memory channel; the proving backend checks that the signed
//! multiplicities of identical interaction keys sum to zero across chips.

pub mod field;
pub mod instruction;
pub mod interaction;
pub mod machine;
pub mod mem_const;
pub mod program;
pub mod record;
pub mod shape;
pub mod sums;
pub mod trace;
