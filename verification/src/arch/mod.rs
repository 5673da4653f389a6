//! The saved register records of the supported architectures.

pub mod aarch64;
pub mod riscv64;
pub mod x86_64;
