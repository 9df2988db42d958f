//! The build pipeline: stages that are asked for one after the other, each
//! of them one external command, and the outcomes of those commands.
//!
//! A `Build` never runs anything. A stage method adds the stage's command to
//! the pipeline; `next_command` hands out the command that is to run next;
//! `report` takes the outcome of that run and says whether the build may go
//! on. Whoever drives the pipeline runs the commands in between.

use crate::command::{Invocation, InvocationView, Outcome};
use crate::error::{BuildError, BuildErrorView};
use crate::plan::{
    assemble_step, compile_step, create_step, given, link_step, remove_step, BuildView, Step,
    CARGO, LIBRARY_SUFFIX,
};
use crate::readenv::{BuildConfig, ConfigKey, ConfigMap};
use crate::text::{joined, split, split_text, views};
use crate::toolchain::{resolve, toolchain_of, Toolchain, ToolchainView};
use crate::workspace::{create_workspace, remove_workspace, WORKSPACE};
use vstd::prelude::*;
use vstd::string::StringExecFns;

verus! {

/// Target CPU family of the image that is built.
#[derive(Debug, PartialEq, Eq, Structural, Clone, Copy, Hash)]
pub enum Arch {
    Riscv64,
    AArch64,
    X86_64,
}

/// The name of an architecture.
pub open spec fn arch_name(arch: Arch) -> Seq<char> {
    match arch {
        Arch::Riscv64 => "riscv64"@,
        Arch::AArch64 => "aarch64"@,
        Arch::X86_64 => "x86_64"@,
    }
}

impl Arch {
    /// The name of the architecture.
    pub fn name(self) -> (r: &'static str)
        ensures
            r@ == arch_name(self),
    {
        match self {
            Arch::Riscv64 => "riscv64",
            Arch::AArch64 => "aarch64",
            Arch::X86_64 => "x86_64",
        }
    }
}

/// The emulator that runs RISC-V 64 images.
pub const QEMU_RISCV: &'static str = "qemu-system-riscv64";

/// The emulator that runs AArch64 images.
pub const QEMU_AARCH64: &'static str = "qemu-system-aarch64";

/// The character that parts the object files in a build description.
pub const OBJECT_SEPARATOR: char = ' ';

/// Optimisation mode of the compile stage. Exactly one holds of a build.
#[derive(Debug, PartialEq, Eq, Structural, Clone, Copy, Hash)]
pub enum BuildMode {
    Release,
    Debug,
    Test,
}

/// The flag that stands for `mode` on a command line.
pub open spec fn mode_flag(mode: BuildMode) -> Seq<char> {
    match mode {
        BuildMode::Release => "--release"@,
        BuildMode::Debug => "--debug"@,
        BuildMode::Test => "--test"@,
    }
}

impl BuildMode {
    /// The flag that stands for this mode on a command line.
    pub fn flag(self) -> (r: &'static str)
        ensures
            r@ == mode_flag(self),
    {
        match self {
            BuildMode::Release => "--release",
            BuildMode::Debug => "--debug",
            BuildMode::Test => "--test",
        }
    }
}

/// Where a pipeline stands: the stage that ran last.
#[derive(Debug, PartialEq, Eq, Structural, Clone, Copy, Hash)]
pub enum Stage {
    Created,
    Compiled,
    Assembled,
    Linked,
    Cleaned,
}

/// The command of the plain build, the same for every architecture:
/// `cargo barm`.
pub fn basic_build(arch: Arch) -> (command: Invocation)
    ensures
        command@ == (InvocationView { program: CARGO@, args: seq!["barm"@] }),
{
    let mut command = Invocation::new(CARGO);
    command.arg("barm");
    assert(command@.args =~= seq!["barm"@]);
    command
}

/// The command that builds the kernel for a test run under the emulator:
/// `cargo rustc --features arctest -- --nocapture`.
pub fn test_build() -> (command: Invocation)
    ensures
        command@ == (InvocationView {
            program: CARGO@,
            args: seq!["rustc"@, "--features"@, "arctest"@, "--"@, "--nocapture"@],
        }),
{
    let mut command = Invocation::new(CARGO);
    command.arg("rustc").arg("--features").arg("arctest").arg("--").arg("--nocapture");
    assert(command@.args =~= seq!["rustc"@, "--features"@, "arctest"@, "--"@, "--nocapture"@]);
    command
}

/// The build of bootloader and kernel in one go. It has no command of its
/// own and has no effect.
pub fn full_build() {
}

/// The command that makes the FAT file system of the virtual disk. The
/// whole of `mkfs -t vfat /dev/vdisk1` is the program's name, and there are
/// no arguments.
pub fn create_vfat() -> (command: Invocation)
    ensures
        command@ == InvocationView::bare("mkfs -t vfat /dev/vdisk1"@),
{
    Invocation::new("mkfs -t vfat /dev/vdisk1")
}

/// The command that mounts the virtual disk: `mount` with the one argument
/// `/dev/vdisk1 /mnt/disk.vfat`.
pub fn mount_vfat() -> (command: Invocation)
    ensures
        command@ == (InvocationView {
            program: "mount"@,
            args: seq!["/dev/vdisk1 /mnt/disk.vfat"@],
        }),
{
    let mut command = Invocation::new("mount");
    command.arg("/dev/vdisk1 /mnt/disk.vfat");
    assert(command@.args =~= seq!["/dev/vdisk1 /mnt/disk.vfat"@]);
    command
}

/// The directory that holds the firmware images of `arch`: `build/`, then
/// `arch`, then `/`.
pub open spec fn firmware_dir(arch: Seq<char>) -> Seq<char> {
    "build/"@ + arch + "/"@
}

/// The command that joins the two firmware images of `arch` into one.
pub open spec fn ovmf_join(arch: Seq<char>) -> InvocationView {
    InvocationView {
        program: "cat"@,
        args: seq![
            firmware_dir(arch) + "qemu_ovmf_code.fd"@,
            firmware_dir(arch) + "qemu_ovmf_raw.fd"@,
            "--output "@ + firmware_dir(arch) + "qemu_ovmf.bin"@,
        ],
    }
}

/// The command that joins the firmware code image and the raw firmware
/// image of `arch` into one firmware image: `cat` with the paths of the two
/// images below `build/arch/`, and `--output ` with the path of the joined
/// image as one argument.
pub fn join_ovmf(arch: &str) -> (command: Invocation)
    ensures
        command@ == ovmf_join(arch@),
{
    let mut dir = joined("build/", arch);
    dir.append("/");
    let code = joined(dir.as_str(), "qemu_ovmf_code.fd");
    let raw = joined(dir.as_str(), "qemu_ovmf_raw.fd");
    let mut image = joined("--output ", dir.as_str());
    image.append("qemu_ovmf.bin");
    let mut command = Invocation::new("cat");
    command.arg(code.as_str()).arg(raw.as_str()).arg(image.as_str());
    assert(command@.args =~= ovmf_join(arch@).args);
    command
}

/// A flash drive for the emulator, read-only or not, backed by `file`.
pub open spec fn pflash_drive(readonly: bool, file: Seq<char>) -> Seq<char> {
    "-drive if=pflash,format=raw,readonly="@ + (if readonly {
        "true"@
    } else {
        "false"@
    }) + ",file="@ + file
}

/// The emulator run that boots the bootloader, for the architectures that
/// have one.
pub open spec fn arcboot_run(arch: Arch) -> Option<InvocationView> {
    match arch {
        Arch::AArch64 => Some(
            InvocationView {
                program: QEMU_AARCH64@,
                args: seq![
                    "-machine virt"@,
                    "-cpu cortex-a72"@,
                    "-m 2048"@,
                    "-vga std"@,
                    "-serial stdio"@,
                    "-kernel build/arcboot"@,
                    "-drive file=fat:rsw:vdisk"@,
                    pflash_drive(true, "build/aarch64/qemu_ovmf_code.fd"@),
                    pflash_drive(false, "build/aarch64/qemu_ovmf_vars.fd"@),
                ],
            },
        ),
        _ => None,
    }
}

/// The argument that gives the emulator a flash drive backed by `file`.
fn pflash(readonly: bool, file: &str) -> (arg: String)
    ensures
        arg@ == pflash_drive(readonly, file@),
{
    let mut arg = joined(
        "-drive if=pflash,format=raw,readonly=",
        if readonly {
            "true"
        } else {
            "false"
        },
    );
    arg.append(",file=");
    arg.append(file);
    arg
}

/// The command that boots the bootloader under the emulator. There is one
/// for AArch64 only; for the other architectures the call fails.
pub fn run_arcboot(arch: Arch) -> (r: Result<Invocation, BuildError>)
    ensures
        match r {
            Ok(command) => arcboot_run(arch) == Some(command@),
            Err(e) => arcboot_run(arch) is None && e@ == BuildErrorView::UnsupportedArchitecture(
                arch,
            ),
        },
{
    match arch {
        Arch::AArch64 => {
            let code = pflash(true, "build/aarch64/qemu_ovmf_code.fd");
            let vars = pflash(false, "build/aarch64/qemu_ovmf_vars.fd");
            let mut command = Invocation::new(QEMU_AARCH64);
            command.arg("-machine virt").arg("-cpu cortex-a72").arg("-m 2048").arg("-vga std").arg(
                "-serial stdio",
            ).arg("-kernel build/arcboot").arg("-drive file=fat:rsw:vdisk").arg(
                code.as_str(),
            ).arg(vars.as_str());
            assert(command@.args =~= arcboot_run(arch)->0.args);
            Ok(command)
        },
        _ => Err(BuildError::UnsupportedArchitecture(arch)),
    }
}

/// The pipeline of a whole build as a configuration describes it: compile
/// into `OUT_DIR`, assemble `ASM_FILES` into `OUT_OBJ`, and link the object
/// files of `LINK_OBJ`, which a space parts, by `LINK_SCRIPT` into
/// `OUT_IMG`.
pub open spec fn planned(
    arch: Arch,
    toolchain: ToolchainView,
    mode: BuildMode,
    config: ConfigMap,
) -> BuildView {
    BuildView::created(arch, toolchain, WORKSPACE@).rust_build(
        toolchain.target,
        mode,
        config[ConfigKey::OutDir],
    ).assemble(config[ConfigKey::AsmFiles], config[ConfigKey::OutObj]).link(
        split(config[ConfigKey::LinkObj], OBJECT_SEPARATOR),
        config[ConfigKey::LinkScript],
        config[ConfigKey::OutImg],
    )
}

/// The pipeline of one build, for one architecture and one output
/// directory.
#[derive(Debug, PartialEq, Eq)]
pub struct Build {
    arch: Arch,
    toolchain: Toolchain,
    workspace: String,
    steps: Vec<Step>,
    outcomes: Vec<Outcome>,
}

impl View for Build {
    type V = BuildView;

    closed spec fn view(&self) -> BuildView {
        BuildView {
            arch: self.arch,
            toolchain: self.toolchain@,
            workspace: self.workspace@,
            steps: views(self.steps@),
            outcomes: self.outcomes@,
        }
    }
}

impl Build {
    /// A pipeline for `arch` with the toolchain of `arch`, in the default
    /// output directory. Its first two steps remove that directory and
    /// create it again. Fails for an architecture without a toolchain, and
    /// then no step exists that could touch a file.
    pub fn new(arch: Arch) -> (r: Result<Build, BuildError>)
        ensures
            match r {
                Ok(build) => toolchain_of(arch) matches Some(toolchain) && build@
                    == BuildView::created(arch, toolchain, WORKSPACE@) && build@.wf(),
                Err(e) => toolchain_of(arch) is None && e@
                    == BuildErrorView::UnsupportedArchitecture(arch),
            },
    {
        proof {
            reveal_strlit("build");
        }
        match resolve(arch) {
            Ok(toolchain) => Ok(Build::with_toolchain(arch, toolchain, WORKSPACE)),
            Err(e) => Err(e),
        }
    }

    /// The pipeline of the whole build that `config` describes, for `arch`
    /// in the mode `mode`. A stage for which `config` gives no path is left
    /// out. Fails for an architecture without a toolchain.
    pub fn plan(arch: Arch, mode: BuildMode, config: &BuildConfig) -> (r: Result<
        Build,
        BuildError,
    >)
        ensures
            match r {
                Ok(build) => toolchain_of(arch) matches Some(toolchain) && build@ == planned(
                    arch,
                    toolchain,
                    mode,
                    config@,
                ) && build@.wf(),
                Err(e) => toolchain_of(arch) is None && e@
                    == BuildErrorView::UnsupportedArchitecture(arch),
            },
    {
        match Build::new(arch) {
            Ok(mut build) => {
                let target = build.toolchain.target.clone();
                let objects = split_text(config.get(ConfigKey::LinkObj), OBJECT_SEPARATOR);
                build.rust_build(target.as_str(), mode, config.get(ConfigKey::OutDir)).assemble(
                    config.get(ConfigKey::AsmFiles),
                    config.get(ConfigKey::OutObj),
                ).link(
                    objects.as_slice(),
                    config.get(ConfigKey::LinkScript),
                    config.get(ConfigKey::OutImg),
                );
                Ok(build)
            },
            Err(e) => Err(e),
        }
    }

    /// A pipeline for `arch` with the tools of `toolchain`, in the output
    /// directory `workspace`, or in the default one where `workspace` is
    /// empty. Its first two steps remove that directory and create it again.
    pub fn with_toolchain(arch: Arch, toolchain: Toolchain, workspace: &str) -> (build: Build)
        ensures
            build@ == BuildView::created(
                arch,
                toolchain@,
                if workspace@.len() > 0 {
                    workspace@
                } else {
                    WORKSPACE@
                },
            ),
            build@.wf(),
    {
        let dir = if workspace.is_empty() {
            WORKSPACE
        } else {
            workspace
        };
        proof {
            reveal_strlit("build");
        }
        let mut steps: Vec<Step> = Vec::new();
        steps.push(
            Step { stage: Stage::Created, command: remove_workspace(dir), artifact: String::new() },
        );
        steps.push(
            Step { stage: Stage::Created, command: create_workspace(dir), artifact: String::new() },
        );
        let build = Build {
            arch,
            toolchain,
            workspace: dir.to_owned(),
            steps,
            outcomes: Vec::new(),
        };
        assert(build@.steps =~= seq![remove_step(dir@), create_step(dir@)]);
        build
    }

    /// Adds `step` after all steps.
    fn request(&mut self, step: Step)
        ensures
            final(self)@ == old(self)@.request(step@),
    {
        self.steps.push(step);
        assert(self@.steps =~= old(self)@.steps.push(step@));
    }

    /// Asks for the compile stage: the compiler builds a static library for
    /// `target` in the mode `mode`, and leaves it at `out_dir` followed by
    /// `/.a`. Where `target` or `out_dir` is empty, nothing is asked for.
    pub fn rust_build(&mut self, target: &str, mode: BuildMode, out_dir: &str) -> (chain:
        &mut Build)
        ensures
            chain@ == old(self)@.rust_build(target@, mode, out_dir@),
            old(self)@.wf() ==> chain@.wf(),
            *final(self) == *final(chain),
    {
        if !target.is_empty() && !out_dir.is_empty() {
            let artifact = joined(out_dir, LIBRARY_SUFFIX);
            let triple = joined("--target=", target);
            let mut command = Invocation::new(CARGO);
            command.arg("rustc").arg(triple.as_str()).arg(mode.flag()).arg("--").arg(
                "--crate-type=staticlib",
            ).arg("-o").arg(artifact.as_str());
            assert(command@.args =~= compile_step(target@, mode, out_dir@).command.args);
            self.request(Step { stage: Stage::Compiled, command, artifact });
        }
        self
    }

    /// Asks for the assemble stage: the assembler turns `source` into
    /// `output`. Where `source` or `output` is empty, nothing is asked for.
    pub fn assemble(&mut self, source: &str, output: &str) -> (chain: &mut Build)
        ensures
            chain@ == old(self)@.assemble(source@, output@),
            old(self)@.wf() ==> chain@.wf(),
            *final(self) == *final(chain),
    {
        if !source.is_empty() && !output.is_empty() {
            let mut command = Invocation::new(self.toolchain.assembler.as_str());
            command.arg("-c").arg(source).arg("-o").arg(output);
            assert(command@.args =~= assemble_step(
                self@.toolchain,
                source@,
                output@,
            ).command.args);
            self.request(Step { stage: Stage::Assembled, command, artifact: output.to_owned() });
        }
        self
    }

    /// Asks for the link stage: the linker links `objects` by the linker
    /// script `script` into `output`. Object files with an empty path are
    /// left out. Where no object file is left, or `script` or `output` is
    /// empty, nothing is asked for.
    pub fn link(&mut self, objects: &[String], script: &str, output: &str) -> (chain: &mut Build)
        ensures
            chain@ == old(self)@.link(views(objects@), script@, output@),
            old(self)@.wf() ==> chain@.wf(),
            *final(self) == *final(chain),
    {
        let mut command = Invocation::new(self.toolchain.linker.as_str());
        command.arg("-T").arg(script).arg("-nostdlib");
        let ghost head = seq!["-T"@, script@, "-nostdlib"@];
        assert(command@.args =~= head);
        let mut count: usize = 0;
        let mut i: usize = 0;
        assert(views(objects@).take(0) =~= Seq::<Seq<char>>::empty());
        while i < objects.len()
            invariant
                i <= objects.len(),
                count <= i,
                count == given(views(objects@).take(i as int)).len(),
                command@.program == self@.toolchain.linker,
                command@.args == head + given(views(objects@).take(i as int)),
            decreases objects.len() - i,
        {
            let object = objects[i].as_str();
            proof {
                let read = views(objects@).take(i + 1);
                assert(read.drop_last() =~= views(objects@).take(i as int));
                assert(read.last() == object@);
            }
            if !object.is_empty() {
                command.arg(object);
                count = count + 1;
                assert(command@.args =~= head + given(views(objects@).take(i + 1)));
            }
            i = i + 1;
        }
        assert(views(objects@).take(i as int) =~= views(objects@));
        if count > 0 && !script.is_empty() && !output.is_empty() {
            command.arg("-o").arg(output);
            assert(command@.args =~= link_step(
                self@.toolchain,
                given(views(objects@)),
                script@,
                output@,
            ).command.args);
            self.request(Step { stage: Stage::Linked, command, artifact: output.to_owned() });
        }
        self
    }

    /// Asks for the clean stage: the output directory is removed with all
    /// it holds.
    pub fn clean(&mut self) -> (chain: &mut Build)
        ensures
            chain@ == old(self)@.clean(),
            old(self)@.wf() ==> chain@.wf(),
            *final(self) == *final(chain),
    {
        let command = remove_workspace(self.workspace.as_str());
        self.request(Step { stage: Stage::Cleaned, command, artifact: String::new() });
        self
    }

    /// The command that is to run next: that of the first step without an
    /// outcome. `None` when every step has its outcome.
    pub fn next_command(&self) -> (r: Option<&Invocation>)
        ensures
            match r {
                Some(command) => self@.pending() && command@ == self@.next().command,
                None => !self@.pending(),
            },
    {
        let at = self.outcomes.len();
        if at < self.steps.len() {
            Some(&self.steps[at].command)
        } else {
            None
        }
    }

    /// Takes the outcome of the command that `next_command` handed out, and
    /// keeps it. The build may go on if the command succeeded; if not, the
    /// error says what failed. Every stage is held to the same rule: a
    /// linker that fails stops the build as a compiler or an assembler
    /// does. The pipeline itself stops nothing: the steps that follow a
    /// failed one still wait, and it is the caller who leaves them alone.
    /// Where no step waits for an outcome, nothing is kept and nothing
    /// fails.
    pub fn report(&mut self, outcome: Outcome) -> (r: Result<(), BuildError>)
        ensures
            final(self)@ == old(self)@.report(outcome),
            old(self)@.wf() ==> final(self)@.wf(),
            match r {
                Ok(_) => old(self)@.failure(outcome) is None,
                Err(e) => old(self)@.failure(outcome) == Some(e@),
            },
    {
        let at = self.outcomes.len();
        if at >= self.steps.len() {
            return Ok(());
        }
        self.outcomes.push(outcome);
        if outcome.succeeded() {
            return Ok(());
        }
        let step = &self.steps[at];
        match step.stage {
            Stage::Created | Stage::Cleaned => Err(
                BuildError::WorkspaceIOFailure { dir: self.workspace.clone() },
            ),
            _ => {
                let tool = step.command.program.clone();
                match outcome {
                    Outcome::NotSpawned => Err(BuildError::ToolProcessSpawnFailure { tool }),
                    Outcome::Exited(code) => Err(
                        BuildError::ToolProcessExitFailure { tool, code: Some(code) },
                    ),
                    Outcome::Killed => Err(
                        BuildError::ToolProcessExitFailure { tool, code: None },
                    ),
                }
            },
        }
    }

    /// The stage that ran last; `Created` while nothing has run.
    pub fn last_stage(&self) -> (stage: Stage)
        ensures
            stage == self@.last_stage(),
    {
        let ran = self.outcomes.len();
        if 0 < ran && ran <= self.steps.len() {
            self.steps[ran - 1].stage
        } else {
            Stage::Created
        }
    }

    /// Whether the step that ran last succeeded; true while nothing has
    /// run.
    pub fn last_succeeded(&self) -> (ok: bool)
        ensures
            ok == self@.last_succeeded(),
    {
        let ran = self.outcomes.len();
        ran == 0 || self.outcomes[ran - 1].succeeded()
    }

    /// The path of what the build has to show: the artifact of the step
    /// that ran last, if that step succeeded and leaves one.
    pub fn artifact(&self) -> (r: Option<&str>)
        ensures
            match r {
                Some(path) => self@.artifact() == Some(path@),
                None => self@.artifact() is None,
            },
    {
        let ran = self.outcomes.len();
        if 0 < ran && ran <= self.steps.len() && self.outcomes[ran - 1].succeeded()
            && !self.steps[ran - 1].artifact.as_str().is_empty() {
            Some(self.steps[ran - 1].artifact.as_str())
        } else {
            None
        }
    }

    /// The architecture that the pipeline builds for.
    pub fn arch(&self) -> (arch: Arch)
        ensures
            arch == self@.arch,
    {
        self.arch
    }

    /// The tools that the pipeline runs.
    pub fn toolchain(&self) -> (toolchain: &Toolchain)
        ensures
            toolchain@ == self@.toolchain,
    {
        &self.toolchain
    }

    /// The output directory of the pipeline.
    pub fn workspace(&self) -> (dir: &str)
        ensures
            dir@ == self@.workspace,
    {
        self.workspace.as_str()
    }

    /// The steps that were asked for, in order.
    pub fn steps(&self) -> (steps: &Vec<Step>)
        ensures
            views(steps@) == self@.steps,
    {
        &self.steps
    }

    /// The outcomes that were reported, in order.
    pub fn outcomes(&self) -> (outcomes: &Vec<Outcome>)
        ensures
            outcomes@ == self@.outcomes,
    {
        &self.outcomes
    }
}

} // verus!
