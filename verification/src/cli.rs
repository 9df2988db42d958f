//! What the words of a command line ask for: the verb, the architecture,
//! the build mode, the project and the build description.
//!
//! The words are looked up, not parsed in order: an option holds as soon as
//! its word stands anywhere among the arguments. Where the words of several
//! options of one kind stand there, the kinds' fixed order of preference
//! decides, not the order of the words.

use crate::builder::{mode_flag, Arch, BuildMode};
use crate::text::{same_text, views};
use vstd::prelude::*;

verus! {

/// What the program is asked to do.
#[derive(Debug, PartialEq, Eq, Structural, Clone, Copy, Hash)]
pub enum Verb {
    Build,
    Test,
    Run,
    Flash,
}

/// The project that is built or run.
#[derive(Debug, PartialEq, Eq, Structural, Clone, Copy, Hash)]
pub enum BuildTarget {
    Neutron,
    Arcboot,
    Full,
}

/// The architecture that is built for when the command line names none.
pub const DEFAULT_ARCH: Arch = Arch::Riscv64;

/// The build mode when the command line names none.
pub const DEFAULT_MODE: BuildMode = BuildMode::Release;

/// The project when the command line names none.
pub const DEFAULT_PROJECT: BuildTarget = BuildTarget::Arcboot;

/// The build description of the board that is built for by default.
pub const SPECTRO_BUILD: &'static str = "support/spectro.build";

/// The build description of the Raspberry Pi 4B.
pub const PI4B_BUILD: &'static str = "support/pi4b.build";

/// The verb that `word` is, if it is one.
pub open spec fn verb_of(word: Seq<char>) -> Option<Verb> {
    if word == "build"@ {
        Some(Verb::Build)
    } else if word == "test"@ {
        Some(Verb::Test)
    } else if word == "run"@ {
        Some(Verb::Run)
    } else if word == "flash"@ {
        Some(Verb::Flash)
    } else {
        None
    }
}

/// The verb of a command line: its second word, after the program's name.
pub open spec fn verb_in(args: Seq<Seq<char>>) -> Option<Verb> {
    if args.len() > 1 {
        verb_of(args[1])
    } else {
        None
    }
}

/// The architecture that a command line names: x86-64 for `x86`, else
/// RISC-V 64 for `riscv`, else AArch64 for `arm` or `aarch64`, else
/// `default`.
pub open spec fn arch_in(args: Seq<Seq<char>>, default: Arch) -> Arch {
    if args.contains("x86"@) {
        Arch::X86_64
    } else if args.contains("riscv"@) {
        Arch::Riscv64
    } else if args.contains("arm"@) || args.contains("aarch64"@) {
        Arch::AArch64
    } else {
        default
    }
}

/// The build mode that a command line names: release for `--release`, else
/// debug for `--debug`, else test for `--test`, else `default`.
pub open spec fn mode_in(args: Seq<Seq<char>>, default: BuildMode) -> BuildMode {
    if args.contains(mode_flag(BuildMode::Release)) {
        BuildMode::Release
    } else if args.contains(mode_flag(BuildMode::Debug)) {
        BuildMode::Debug
    } else if args.contains(mode_flag(BuildMode::Test)) {
        BuildMode::Test
    } else {
        default
    }
}

/// The project that a command line names: the bootloader for `--arcboot`,
/// else the kernel for `--neutron`, else both for `--full`, else `default`.
pub open spec fn project_in(args: Seq<Seq<char>>, default: BuildTarget) -> BuildTarget {
    if args.contains("--arcboot"@) {
        BuildTarget::Arcboot
    } else if args.contains("--neutron"@) {
        BuildTarget::Neutron
    } else if args.contains("--full"@) {
        BuildTarget::Full
    } else {
        default
    }
}

/// The path of the build description that a command line asks for: that of
/// the Raspberry Pi 4B for `pi4b`, else that of the default board.
pub open spec fn description_in(args: Seq<Seq<char>>) -> Seq<char> {
    if args.contains("pi4b"@) {
        PI4B_BUILD@
    } else {
        SPECTRO_BUILD@
    }
}

/// Whether `word` stands among `args`.
pub fn has_word(args: &[String], word: &str) -> (found: bool)
    ensures
        found == views(args@).contains(word@),
{
    let mut i: usize = 0;
    while i < args.len()
        invariant
            i <= args.len(),
            forall|j: int| 0 <= j < i ==> views(args@)[j] != word@,
        decreases args.len() - i,
    {
        if same_text(args[i].as_str(), word) {
            assert(views(args@)[i as int] == word@);
            return true;
        }
        i += 1;
    }
    false
}

/// The verb that `word` is; `None` for any other word.
pub fn parse_verb(word: &str) -> (verb: Option<Verb>)
    ensures
        verb == verb_of(word@),
{
    if same_text(word, "build") {
        Some(Verb::Build)
    } else if same_text(word, "test") {
        Some(Verb::Test)
    } else if same_text(word, "run") {
        Some(Verb::Run)
    } else if same_text(word, "flash") {
        Some(Verb::Flash)
    } else {
        None
    }
}

/// The verb of the command line `args`, whose first word is the program's
/// name; `None` where the verb is missing or is no verb.
pub fn select_verb(args: &[String]) -> (verb: Option<Verb>)
    ensures
        verb == verb_in(views(args@)),
{
    if args.len() > 1 {
        parse_verb(args[1].as_str())
    } else {
        None
    }
}

/// The architecture that `args` names, or `default` where they name none.
pub fn select_arch(args: &[String], default: Arch) -> (arch: Arch)
    ensures
        arch == arch_in(views(args@), default),
{
    if has_word(args, "x86") {
        Arch::X86_64
    } else if has_word(args, "riscv") {
        Arch::Riscv64
    } else if has_word(args, "arm") || has_word(args, "aarch64") {
        Arch::AArch64
    } else {
        default
    }
}

/// The build mode that `args` name, or `default` where they name none.
pub fn select_mode(args: &[String], default: BuildMode) -> (mode: BuildMode)
    ensures
        mode == mode_in(views(args@), default),
{
    if has_word(args, BuildMode::Release.flag()) {
        BuildMode::Release
    } else if has_word(args, BuildMode::Debug.flag()) {
        BuildMode::Debug
    } else if has_word(args, BuildMode::Test.flag()) {
        BuildMode::Test
    } else {
        default
    }
}

/// The flag of the build mode that `to_check` names: `--release` where it
/// stands there, else `--debug` where that does, else `--test` where that
/// does, and `--release` where none of the three does.
pub fn check_build_config(to_check: &[String]) -> (flag: &'static str)
    ensures
        flag@ == mode_flag(mode_in(views(to_check@), BuildMode::Release)),
{
    select_mode(to_check, BuildMode::Release).flag()
}

/// The project that `args` name, or `default` where they name none.
pub fn select_project(args: &[String], default: BuildTarget) -> (project: BuildTarget)
    ensures
        project == project_in(views(args@), default),
{
    if has_word(args, "--arcboot") {
        BuildTarget::Arcboot
    } else if has_word(args, "--neutron") {
        BuildTarget::Neutron
    } else if has_word(args, "--full") {
        BuildTarget::Full
    } else {
        default
    }
}

/// The path of the build description that `args` ask for.
pub fn select_description(args: &[String]) -> (path: &'static str)
    ensures
        path@ == description_in(views(args@)),
{
    if has_word(args, "pi4b") {
        PI4B_BUILD
    } else {
        SPECTRO_BUILD
    }
}

} // verus!
