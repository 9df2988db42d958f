//! The pipeline as a value: the steps that were asked for, in order, and
//! the outcomes that were reported for the first of them.
//!
//! A pipeline only ever grows. A stage that is asked for adds one step at
//! the end of the steps; an outcome that is reported adds one outcome at the
//! end of the outcomes. Nothing is ever taken away or changed.

use crate::builder::{mode_flag, Arch, BuildMode, Stage};
use crate::command::{Invocation, InvocationView, Outcome};
use crate::error::BuildErrorView;
use crate::toolchain::ToolchainView;
use crate::workspace::{creation, lemma_removal_then_creation, place_after, removal, Place};
use vstd::prelude::*;

verus! {

/// The program that drives the compiler.
pub const CARGO: &'static str = "cargo";

/// What is added to an output directory to name the static library in it.
pub const LIBRARY_SUFFIX: &'static str = "/.a";

/// One step of a pipeline: the command to run, the stage that the pipeline
/// is in once the command has run, and the path of what the command leaves
/// behind (empty where it leaves nothing).
#[derive(Debug, PartialEq, Eq)]
pub struct Step {
    pub stage: Stage,
    pub command: Invocation,
    pub artifact: String,
}

/// A step with its texts as sequences.
pub struct StepView {
    pub stage: Stage,
    pub command: InvocationView,
    pub artifact: Seq<char>,
}

impl View for Step {
    type V = StepView;

    open spec fn view(&self) -> StepView {
        StepView { stage: self.stage, command: self.command@, artifact: self.artifact@ }
    }
}

/// The paths of `items` that were given: the ones that are not empty, in
/// their order.
pub open spec fn given(items: Seq<Seq<char>>) -> Seq<Seq<char>>
    decreases items.len(),
{
    if items.len() == 0 {
        Seq::empty()
    } else if items.last().len() > 0 {
        given(items.drop_last()).push(items.last())
    } else {
        given(items.drop_last())
    }
}

/// First step of every pipeline: the output directory `dir` is removed.
pub open spec fn remove_step(dir: Seq<char>) -> StepView {
    StepView { stage: Stage::Created, command: removal(dir), artifact: Seq::empty() }
}

/// Second step of every pipeline: the output directory `dir` is created.
pub open spec fn create_step(dir: Seq<char>) -> StepView {
    StepView { stage: Stage::Created, command: creation(dir), artifact: Seq::empty() }
}

/// The compile stage: the compiler builds a static library for `target` in
/// the mode `mode` and leaves it at `out_dir` followed by `/.a`.
pub open spec fn compile_step(target: Seq<char>, mode: BuildMode, out_dir: Seq<char>) -> StepView {
    StepView {
        stage: Stage::Compiled,
        command: InvocationView {
            program: CARGO@,
            args: seq![
                "rustc"@,
                "--target="@ + target,
                mode_flag(mode),
                "--"@,
                "--crate-type=staticlib"@,
                "-o"@,
                out_dir + LIBRARY_SUFFIX@,
            ],
        },
        artifact: out_dir + LIBRARY_SUFFIX@,
    }
}

/// The assemble stage: the assembler is run with `-c source -o output`.
pub open spec fn assemble_step(
    toolchain: ToolchainView,
    source: Seq<char>,
    output: Seq<char>,
) -> StepView {
    StepView {
        stage: Stage::Assembled,
        command: InvocationView {
            program: toolchain.assembler,
            args: seq!["-c"@, source, "-o"@, output],
        },
        artifact: output,
    }
}

/// The link stage: the linker is run with `-T script -nostdlib`, then each
/// object file as an argument of its own, then `-o output`.
pub open spec fn link_step(
    toolchain: ToolchainView,
    objects: Seq<Seq<char>>,
    script: Seq<char>,
    output: Seq<char>,
) -> StepView {
    StepView {
        stage: Stage::Linked,
        command: InvocationView {
            program: toolchain.linker,
            args: seq!["-T"@, script, "-nostdlib"@] + objects + seq!["-o"@, output],
        },
        artifact: output,
    }
}

/// The clean stage: the output directory `dir` is removed.
pub open spec fn clean_step(dir: Seq<char>) -> StepView {
    StepView { stage: Stage::Cleaned, command: removal(dir), artifact: Seq::empty() }
}

/// A pipeline: its architecture, toolchain and output directory, the steps
/// asked for so far, and the outcomes reported so far. The outcome at a
/// position is that of the step at the same position.
pub struct BuildView {
    pub arch: Arch,
    pub toolchain: ToolchainView,
    pub workspace: Seq<char>,
    pub steps: Seq<StepView>,
    pub outcomes: Seq<Outcome>,
}

impl BuildView {
    /// The pipeline as it is made: nothing has run, and the two steps that
    /// give it a fresh output directory are asked for.
    pub open spec fn created(
        arch: Arch,
        toolchain: ToolchainView,
        workspace: Seq<char>,
    ) -> BuildView {
        BuildView {
            arch,
            toolchain,
            workspace,
            steps: seq![remove_step(workspace), create_step(workspace)],
            outcomes: Seq::empty(),
        }
    }

    /// This pipeline with `step` asked for after all its steps.
    pub open spec fn request(self, step: StepView) -> BuildView {
        BuildView { steps: self.steps.push(step), ..self }
    }

    /// This pipeline after the compile stage was asked for. Without a
    /// target or an output directory there is nothing to ask for.
    pub open spec fn rust_build(
        self,
        target: Seq<char>,
        mode: BuildMode,
        out_dir: Seq<char>,
    ) -> BuildView {
        if target.len() > 0 && out_dir.len() > 0 {
            self.request(compile_step(target, mode, out_dir))
        } else {
            self
        }
    }

    /// This pipeline after the assemble stage was asked for. Without a
    /// source or an output file there is nothing to ask for.
    pub open spec fn assemble(self, source: Seq<char>, output: Seq<char>) -> BuildView {
        if source.len() > 0 && output.len() > 0 {
            self.request(assemble_step(self.toolchain, source, output))
        } else {
            self
        }
    }

    /// This pipeline after the link stage was asked for. Object files with
    /// an empty path do not count; without an object file, a linker script
    /// or an output file there is nothing to ask for.
    pub open spec fn link(
        self,
        objects: Seq<Seq<char>>,
        script: Seq<char>,
        output: Seq<char>,
    ) -> BuildView {
        if given(objects).len() > 0 && script.len() > 0 && output.len() > 0 {
            self.request(link_step(self.toolchain, given(objects), script, output))
        } else {
            self
        }
    }

    /// This pipeline after the clean stage was asked for.
    pub open spec fn clean(self) -> BuildView {
        self.request(clean_step(self.workspace))
    }

    /// Whether a step waits for its outcome.
    pub open spec fn pending(self) -> bool {
        self.outcomes.len() < self.steps.len()
    }

    /// The step that waits for its outcome, where one does.
    pub open spec fn next(self) -> StepView
        recommends
            self.pending(),
    {
        self.steps[self.outcomes.len() as int]
    }

    /// This pipeline after `outcome` was reported for the step that waits.
    /// Where no step waits, there is nothing to report on.
    pub open spec fn report(self, outcome: Outcome) -> BuildView {
        if self.pending() {
            BuildView { outcomes: self.outcomes.push(outcome), ..self }
        } else {
            self
        }
    }

    /// What the outcome `outcome` of the step that waits means for the
    /// build: nothing where the step succeeded or no step waits, else the
    /// error that stops the build. A step that works on the output
    /// directory fails as a workspace failure. A tool that could not be
    /// started fails as a spawn failure, any other failed run as an exit
    /// failure.
    pub open spec fn failure(self, outcome: Outcome) -> Option<BuildErrorView> {
        if !self.pending() || outcome.success() {
            None
        } else if self.next().stage == Stage::Created || self.next().stage == Stage::Cleaned {
            Some(BuildErrorView::WorkspaceIOFailure { dir: self.workspace })
        } else {
            match outcome {
                Outcome::NotSpawned => Some(
                    BuildErrorView::ToolProcessSpawnFailure { tool: self.next().command.program },
                ),
                Outcome::Exited(code) => Some(
                    BuildErrorView::ToolProcessExitFailure {
                        tool: self.next().command.program,
                        code: Some(code),
                    },
                ),
                Outcome::Killed => Some(
                    BuildErrorView::ToolProcessExitFailure {
                        tool: self.next().command.program,
                        code: None,
                    },
                ),
            }
        }
    }

    /// The stage that ran last; `Created` while nothing has run.
    pub open spec fn last_stage(self) -> Stage {
        if 0 < self.outcomes.len() <= self.steps.len() {
            self.steps[self.outcomes.len() - 1].stage
        } else {
            Stage::Created
        }
    }

    /// Whether the step that ran last succeeded; true while nothing has
    /// run.
    pub open spec fn last_succeeded(self) -> bool {
        self.outcomes.len() > 0 ==> self.outcomes.last().success()
    }

    /// What the build has to show: the artifact of the step that ran last,
    /// if that step succeeded and leaves one.
    pub open spec fn artifact(self) -> Option<Seq<char>> {
        if 0 < self.outcomes.len() <= self.steps.len() && self.outcomes.last().success()
            && self.steps[self.outcomes.len() - 1].artifact.len() > 0 {
            Some(self.steps[self.outcomes.len() - 1].artifact)
        } else {
            None
        }
    }

    /// What holds of every pipeline: it has an output directory, it starts
    /// with the removal and the creation of that directory, and no outcome
    /// is reported for a step that was not asked for.
    pub open spec fn wf(self) -> bool {
        &&& self.workspace.len() > 0
        &&& self.steps.len() >= 2
        &&& self.steps[0] == remove_step(self.workspace)
        &&& self.steps[1] == create_step(self.workspace)
        &&& self.outcomes.len() <= self.steps.len()
    }

    /// Whether this pipeline is `earlier` after more stages were asked for
    /// and more outcomes were reported, with all of `earlier` still in
    /// place.
    pub open spec fn extends(self, earlier: BuildView) -> bool {
        &&& self.arch == earlier.arch
        &&& self.toolchain == earlier.toolchain
        &&& self.workspace == earlier.workspace
        &&& earlier.steps.is_prefix_of(self.steps)
        &&& earlier.outcomes.is_prefix_of(self.outcomes)
    }
}

/// A pipeline as it is made is well formed, as long as it has an output
/// directory.
pub proof fn lemma_created_wf(arch: Arch, toolchain: ToolchainView, workspace: Seq<char>)
    requires
        workspace.len() > 0,
    ensures
        BuildView::created(arch, toolchain, workspace).wf(),
        BuildView::created(arch, toolchain, workspace).pending(),
        BuildView::created(arch, toolchain, workspace).last_stage() == Stage::Created,
        BuildView::created(arch, toolchain, workspace).artifact() is None,
{
}

/// The first two steps of a pipeline, once they have run with success,
/// leave an empty output directory, whatever stood at its place before.
pub proof fn lemma_fresh_workspace(build: BuildView, before: Place)
    requires
        build.wf(),
    ensures
        place_after(build.steps[0].command, build.workspace, before) == Some(Place::Absent),
        place_after(build.steps[1].command, build.workspace, Place::Absent) == Some(Place::Empty),
{
    lemma_removal_then_creation(build.workspace, before);
}

/// Asking for a step keeps a pipeline well formed and only adds to it: the
/// steps so far and the outcomes so far stay as they are, and the new step
/// is the last one.
pub proof fn lemma_request_grows(build: BuildView, step: StepView)
    requires
        build.wf(),
    ensures
        build.request(step).wf(),
        build.request(step).extends(build),
        build.request(step).steps.len() == build.steps.len() + 1,
        build.request(step).steps.last() == step,
        build.request(step).last_stage() == build.last_stage(),
        build.request(step).artifact() == build.artifact(),
{
}

/// Each stage either asks for exactly one step, its own, or asks for
/// nothing. So a stage keeps a pipeline well formed and only adds to it.
pub proof fn lemma_stage_grows(
    build: BuildView,
    target: Seq<char>,
    mode: BuildMode,
    out_dir: Seq<char>,
    source: Seq<char>,
    output: Seq<char>,
    objects: Seq<Seq<char>>,
    script: Seq<char>,
)
    requires
        build.wf(),
    ensures
        build.rust_build(target, mode, out_dir).wf(),
        build.rust_build(target, mode, out_dir).extends(build),
        build.assemble(source, output).wf(),
        build.assemble(source, output).extends(build),
        build.link(objects, script, output).wf(),
        build.link(objects, script, output).extends(build),
        build.clean().wf(),
        build.clean().extends(build),
{
    lemma_request_grows(build, compile_step(target, mode, out_dir));
    lemma_request_grows(build, assemble_step(build.toolchain, source, output));
    lemma_request_grows(build, link_step(build.toolchain, given(objects), script, output));
    lemma_request_grows(build, clean_step(build.workspace));
}

/// Reporting an outcome keeps a pipeline well formed and only adds to it.
/// Where a step waited, that step is now the one that ran last, with the
/// reported outcome; it shows its artifact if it succeeded and leaves one.
pub proof fn lemma_report_moves(build: BuildView, outcome: Outcome)
    requires
        build.wf(),
    ensures
        build.report(outcome).wf(),
        build.report(outcome).extends(build),
        build.report(outcome).steps == build.steps,
        build.pending() ==> {
            &&& build.report(outcome).outcomes.len() == build.outcomes.len() + 1
            &&& build.report(outcome).last_stage() == build.next().stage
            &&& build.report(outcome).last_succeeded() == outcome.success()
            &&& build.report(outcome).artifact() == if outcome.success()
                && build.next().artifact.len() > 0 {
                Some(build.next().artifact)
            } else {
                None
            }
            &&& build.failure(outcome) is None <==> outcome.success()
        },
        !build.pending() ==> build.report(outcome) == build && build.failure(outcome) is None,
{
}

/// Assembling and then linking, on a pipeline on which nothing waits: the
/// assembler is the next to run, the linker runs after it, and once both
/// have succeeded the pipeline stands at `Linked` and shows the image that
/// the linker was asked for.
pub proof fn lemma_assemble_then_link(
    build: BuildView,
    source: Seq<char>,
    object: Seq<char>,
    objects: Seq<Seq<char>>,
    script: Seq<char>,
    image: Seq<char>,
)
    requires
        build.wf(),
        !build.pending(),
        source.len() > 0,
        object.len() > 0,
        given(objects).len() > 0,
        script.len() > 0,
        image.len() > 0,
    ensures
        ({
            let asked = build.assemble(source, object).link(objects, script, image);
            let assembled = asked.report(Outcome::Exited(0));
            let linked = assembled.report(Outcome::Exited(0));
            &&& asked.steps == build.steps.push(
                assemble_step(build.toolchain, source, object),
            ).push(link_step(build.toolchain, given(objects), script, image))
            &&& asked.pending() && asked.next() == assemble_step(build.toolchain, source, object)
            &&& assembled.pending() && assembled.next() == link_step(
                build.toolchain,
                given(objects),
                script,
                image,
            )
            &&& assembled.last_stage() == Stage::Assembled
            &&& assembled.artifact() == Some(object)
            &&& !linked.pending()
            &&& linked.last_stage() == Stage::Linked
            &&& linked.last_succeeded()
            &&& linked.artifact() == Some(image)
        }),
{
}

/// The object files that were given are the object files that are not
/// empty: no other path stands among them, and none of them is lost.
pub proof fn lemma_given(items: Seq<Seq<char>>)
    ensures
        given(items).len() <= items.len(),
        forall|i: int| 0 <= i < given(items).len() ==> (#[trigger] given(items)[i]).len() > 0,
        forall|i: int|
            0 <= i < items.len() && (#[trigger] items[i]).len() > 0 ==> given(items).contains(
                items[i],
            ),
        (forall|i: int| 0 <= i < items.len() ==> (#[trigger] items[i]).len() > 0) ==> given(items)
            == items,
    decreases items.len(),
{
    if items.len() > 0 {
        let head = items.drop_last();
        lemma_given(head);
        assert forall|i: int| 0 <= i < items.len() && (#[trigger] items[i]).len()
            > 0 implies given(items).contains(items[i]) by {
            if i < items.len() - 1 {
                assert(head[i] == items[i]);
                let at = choose|at: int| 0 <= at < given(head).len() && given(head)[at] == head[i];
                assert(given(items)[at] == items[i]);
            } else {
                assert(given(items).last() == items[i]);
            }
        }
        if forall|i: int| 0 <= i < items.len() ==> (#[trigger] items[i]).len() > 0 {
            assert forall|i: int| 0 <= i < head.len() implies (#[trigger] head[i]).len() > 0 by {
                assert(head[i] == items[i]);
            }
            assert(given(items) =~= items);
        }
    }
}

} // verus!
