//! The toolchain of each architecture: which assembler and linker to run,
//! and which target triple the compiler is given.

use crate::builder::Arch;
use crate::error::{BuildError, BuildErrorView};
use crate::text::joined;
use vstd::prelude::*;

verus! {

/// Prefix of the tools that build for RISC-V 64.
pub const RISCV64_UNKNOWN_ELF: &'static str = "riscv64-unknown-elf";

/// Prefix of the tools that build for AArch64.
pub const AARCH64_NONE_ELF: &'static str = "aarch64-none-elf";

/// What follows the prefix in the assembler's name.
pub const ASSEMBLER: &'static str = "as";

/// What follows the prefix in the linker's name.
pub const LINKER: &'static str = "ld";

/// Target triple that the compiler is given for RISC-V 64.
pub const RISCV64_TARGET: &'static str = "riscv64gc-unknown-none-elf";

/// Target triple that the compiler is given for AArch64.
pub const AARCH64_TARGET: &'static str = "aarch64-none-elf";

/// The tools of one architecture: the assembler and the linker to run, and
/// the target triple to hand to the compiler.
#[derive(Debug, PartialEq, Eq)]
pub struct Toolchain {
    pub assembler: String,
    pub linker: String,
    pub target: String,
}

/// A toolchain as three texts.
pub struct ToolchainView {
    pub assembler: Seq<char>,
    pub linker: Seq<char>,
    pub target: Seq<char>,
}

impl View for Toolchain {
    type V = ToolchainView;

    open spec fn view(&self) -> ToolchainView {
        ToolchainView { assembler: self.assembler@, linker: self.linker@, target: self.target@ }
    }
}

/// The toolchain of `arch`: each tool's name is the architecture's prefix
/// directly followed by the tool's suffix. There is none for x86-64.
pub open spec fn toolchain_of(arch: Arch) -> Option<ToolchainView> {
    match arch {
        Arch::Riscv64 => Some(
            ToolchainView {
                assembler: RISCV64_UNKNOWN_ELF@ + ASSEMBLER@,
                linker: RISCV64_UNKNOWN_ELF@ + LINKER@,
                target: RISCV64_TARGET@,
            },
        ),
        Arch::AArch64 => Some(
            ToolchainView {
                assembler: AARCH64_NONE_ELF@ + ASSEMBLER@,
                linker: AARCH64_NONE_ELF@ + LINKER@,
                target: AARCH64_TARGET@,
            },
        ),
        Arch::X86_64 => None,
    }
}

/// The names that the toolchains come to, written out.
pub proof fn lemma_tool_names()
    ensures
        toolchain_of(Arch::Riscv64) == Some(
            ToolchainView {
                assembler: "riscv64-unknown-elfas"@,
                linker: "riscv64-unknown-elfld"@,
                target: "riscv64gc-unknown-none-elf"@,
            },
        ),
        toolchain_of(Arch::AArch64) == Some(
            ToolchainView {
                assembler: "aarch64-none-elfas"@,
                linker: "aarch64-none-elfld"@,
                target: "aarch64-none-elf"@,
            },
        ),
        toolchain_of(Arch::X86_64) is None,
{
    reveal_strlit("riscv64-unknown-elf");
    reveal_strlit("aarch64-none-elf");
    reveal_strlit("as");
    reveal_strlit("ld");
    reveal_strlit("riscv64-unknown-elfas");
    reveal_strlit("riscv64-unknown-elfld");
    reveal_strlit("aarch64-none-elfas");
    reveal_strlit("aarch64-none-elfld");
    assert(RISCV64_UNKNOWN_ELF@ + ASSEMBLER@ =~= "riscv64-unknown-elfas"@);
    assert(RISCV64_UNKNOWN_ELF@ + LINKER@ =~= "riscv64-unknown-elfld"@);
    assert(AARCH64_NONE_ELF@ + ASSEMBLER@ =~= "aarch64-none-elfas"@);
    assert(AARCH64_NONE_ELF@ + LINKER@ =~= "aarch64-none-elfld"@);
}

/// The toolchain of `arch`. Fails for x86-64, for which there is none, and
/// for no other architecture.
pub fn resolve(arch: Arch) -> (r: Result<Toolchain, BuildError>)
    ensures
        match r {
            Ok(toolchain) => toolchain_of(arch) == Some(toolchain@),
            Err(e) => toolchain_of(arch) is None && e@ == BuildErrorView::UnsupportedArchitecture(
                arch,
            ),
        },
{
    match arch {
        Arch::Riscv64 => Ok(
            Toolchain {
                assembler: joined(RISCV64_UNKNOWN_ELF, ASSEMBLER),
                linker: joined(RISCV64_UNKNOWN_ELF, LINKER),
                target: RISCV64_TARGET.to_owned(),
            },
        ),
        Arch::AArch64 => Ok(
            Toolchain {
                assembler: joined(AARCH64_NONE_ELF, ASSEMBLER),
                linker: joined(AARCH64_NONE_ELF, LINKER),
                target: AARCH64_TARGET.to_owned(),
            },
        ),
        Arch::X86_64 => Err(BuildError::UnsupportedArchitecture(arch)),
    }
}

} // verus!
