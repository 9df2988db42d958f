//! Build orchestration for a bare-metal bootloader and kernel: the build
//! description format, the toolchain of each target architecture, and the
//! staged pipeline that sequences compiler, assembler and linker runs.
//!
//! The library decides and never acts: it parses text it is handed, and it
//! says which external command a stage needs and what the outcome of that
//! command means. Reading files and spawning processes is the caller's part.

pub mod builder;
pub mod cli;
pub mod command;
pub mod error;
pub mod plan;
pub mod readenv;
pub mod text;
pub mod toolchain;
pub mod workspace;
