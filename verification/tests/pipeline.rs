use arcutils::builder::{Arch, Build, BuildMode, Stage};
use arcutils::command::{Invocation, Outcome};
use arcutils::error::BuildError;
use arcutils::plan::Step;
use arcutils::readenv::BuildConfig;
use arcutils::toolchain::Toolchain;

fn strings(words: &[&str]) -> Vec<String> {
    words.iter().map(|w| w.to_string()).collect()
}

fn invocation(program: &str, args: &[&str]) -> Invocation {
    Invocation { program: program.to_string(), args: strings(args) }
}

fn step(stage: Stage, program: &str, args: &[&str], artifact: &str) -> Step {
    Step { stage, command: invocation(program, args), artifact: artifact.to_string() }
}

/// Runs every waiting step with the outcome `outcome` and gives back the
/// commands in the order in which the pipeline handed them out.
fn drive(build: &mut Build, outcome: Outcome) -> Vec<Invocation> {
    let mut ran = Vec::new();
    loop {
        let command = match build.next_command() {
            Some(c) => invocation(&c.program, &c.args.iter().map(|a| a.as_str()).collect::<Vec<_>>()),
            None => break,
        };
        ran.push(command);
        let _ = build.report(outcome);
    }
    ran
}

#[test]
fn it_works() {
    let result = 2 + 2;
    assert_eq!(result, 4);
}

#[test]
fn test_build_basic() {
    let mut build = Build::new(Arch::Riscv64).unwrap();
    // compile boot.S
    build.assemble("asm/riscv64/boot.S", "build/boot.o");

    build.link(
        &[
            "build/boot.o".to_string(),
            "deps/libneutronkern.a".to_string(),
        ],
        "link/riscv64/linker.ld",
        "build/kernel.elf",
    );

    // cleanup
    build.clean();

    assert_eq!(
        build.steps(),
        &vec![
            step(Stage::Created, "rm", &["-rf", "build"], ""),
            step(Stage::Created, "mkdir", &["-p", "build"], ""),
            step(
                Stage::Assembled,
                "riscv64-unknown-elfas",
                &["-c", "asm/riscv64/boot.S", "-o", "build/boot.o"],
                "build/boot.o"
            ),
            step(
                Stage::Linked,
                "riscv64-unknown-elfld",
                &[
                    "-T",
                    "link/riscv64/linker.ld",
                    "-nostdlib",
                    "build/boot.o",
                    "deps/libneutronkern.a",
                    "-o",
                    "build/kernel.elf"
                ],
                "build/kernel.elf"
            ),
            step(Stage::Cleaned, "rm", &["-rf", "build"], ""),
        ]
    );
    assert!(build.outcomes().is_empty());
}

#[test]
fn test_build_basic_chain() {
    let mut build = Build::new(Arch::Riscv64).unwrap();
    build
        .assemble("asm/riscv64/boot.S", "build/boot.o")
        .link(
            &[
                "build/boot.o".to_string(),
                "deps/libneutronkern.a".to_string(),
            ],
            "link/riscv64/linker.ld",
            "build/kernel.elf",
        )
        .clean();

    let mut apart = Build::new(Arch::Riscv64).unwrap();
    apart.assemble("asm/riscv64/boot.S", "build/boot.o");
    apart.link(
        &[
            "build/boot.o".to_string(),
            "deps/libneutronkern.a".to_string(),
        ],
        "link/riscv64/linker.ld",
        "build/kernel.elf",
    );
    apart.clean();
    assert_eq!(build, apart);
    assert_eq!(build.steps().len(), 5);
    assert_eq!(build.steps()[4].stage, Stage::Cleaned);
}

#[test]
fn assemble_then_link_runs_in_order_and_reports_the_image() {
    let mut build = Build::new(Arch::Riscv64).unwrap();
    build.assemble("boot.S", "boot.o").link(
        &strings(&["boot.o", "libkern.a"]),
        "linker.ld",
        "kernel.elf",
    );
    assert_eq!(build.artifact(), None);
    let ran = drive(&mut build, Outcome::Exited(0));
    assert_eq!(
        ran,
        vec![
            invocation("rm", &["-rf", "build"]),
            invocation("mkdir", &["-p", "build"]),
            invocation("riscv64-unknown-elfas", &["-c", "boot.S", "-o", "boot.o"]),
            invocation(
                "riscv64-unknown-elfld",
                &["-T", "linker.ld", "-nostdlib", "boot.o", "libkern.a", "-o", "kernel.elf"]
            ),
        ]
    );
    assert_eq!(build.artifact(), Some("kernel.elf"));
    assert_eq!(build.last_stage(), Stage::Linked);
    assert!(build.last_succeeded());
    assert_eq!(build.next_command(), None);
}

#[test]
fn unsupported_architecture_gives_no_pipeline() {
    assert_eq!(Build::new(Arch::X86_64), Err(BuildError::UnsupportedArchitecture(Arch::X86_64)));
    let config = BuildConfig::parse("OUT_DIR=build\n");
    assert_eq!(
        Build::plan(Arch::X86_64, BuildMode::Release, &config),
        Err(BuildError::UnsupportedArchitecture(Arch::X86_64))
    );
}

#[test]
fn new_pipeline_starts_with_a_fresh_workspace() {
    for arch in [Arch::Riscv64, Arch::AArch64] {
        let build = Build::new(arch).unwrap();
        assert_eq!(build.arch(), arch);
        assert_eq!(build.workspace(), "build");
        assert_eq!(
            build.steps(),
            &vec![
                step(Stage::Created, "rm", &["-rf", "build"], ""),
                step(Stage::Created, "mkdir", &["-p", "build"], ""),
            ]
        );
        assert_eq!(build.next_command(), Some(&invocation("rm", &["-rf", "build"])));
        assert_eq!(build.last_stage(), Stage::Created);
        assert!(build.last_succeeded());
        assert_eq!(build.artifact(), None);
    }
}

#[test]
fn aarch64_pipeline_runs_the_aarch64_tools() {
    let mut build = Build::new(Arch::AArch64).unwrap();
    build.assemble("a.S", "a.o").link(&strings(&["a.o"]), "l.ld", "k.elf");
    assert_eq!(build.steps()[2].command, invocation("aarch64-none-elfas", &["-c", "a.S", "-o", "a.o"]));
    assert_eq!(
        build.steps()[3].command,
        invocation("aarch64-none-elfld", &["-T", "l.ld", "-nostdlib", "a.o", "-o", "k.elf"])
    );
}

#[test]
fn injected_toolchain_and_workspace_are_used() {
    let toolchain = Toolchain {
        assembler: "mock-as".to_string(),
        linker: "mock-ld".to_string(),
        target: "mock-target".to_string(),
    };
    let mut build = Build::with_toolchain(Arch::X86_64, toolchain, "out/x86");
    assert_eq!(build.workspace(), "out/x86");
    assert_eq!(build.toolchain().assembler, "mock-as");
    build.assemble("a.S", "a.o").link(&strings(&["a.o"]), "l.ld", "k.elf").clean();
    assert_eq!(
        build.steps(),
        &vec![
            step(Stage::Created, "rm", &["-rf", "out/x86"], ""),
            step(Stage::Created, "mkdir", &["-p", "out/x86"], ""),
            step(Stage::Assembled, "mock-as", &["-c", "a.S", "-o", "a.o"], "a.o"),
            step(Stage::Linked, "mock-ld", &["-T", "l.ld", "-nostdlib", "a.o", "-o", "k.elf"], "k.elf"),
            step(Stage::Cleaned, "rm", &["-rf", "out/x86"], ""),
        ]
    );
}

#[test]
fn empty_workspace_falls_back_to_the_default() {
    let toolchain = Toolchain {
        assembler: "as".to_string(),
        linker: "ld".to_string(),
        target: "t".to_string(),
    };
    let build = Build::with_toolchain(Arch::Riscv64, toolchain, "");
    assert_eq!(build.workspace(), "build");
    assert_eq!(build.steps()[0].command, invocation("rm", &["-rf", "build"]));
}

#[test]
fn rust_build_names_target_mode_and_library() {
    for (mode, flag) in [
        (BuildMode::Release, "--release"),
        (BuildMode::Debug, "--debug"),
        (BuildMode::Test, "--test"),
    ] {
        let mut build = Build::new(Arch::Riscv64).unwrap();
        build.rust_build("riscv64gc-unknown-none-elf", mode, "build/riscv64");
        assert_eq!(
            build.steps()[2],
            step(
                Stage::Compiled,
                "cargo",
                &[
                    "rustc",
                    "--target=riscv64gc-unknown-none-elf",
                    flag,
                    "--",
                    "--crate-type=staticlib",
                    "-o",
                    "build/riscv64/.a"
                ],
                "build/riscv64/.a"
            )
        );
    }
}

#[test]
fn stage_without_a_path_asks_for_nothing() {
    let mut build = Build::new(Arch::Riscv64).unwrap();
    build.rust_build("", BuildMode::Release, "out");
    build.rust_build("t", BuildMode::Release, "");
    build.assemble("", "a.o");
    build.assemble("a.S", "");
    build.link(&strings(&["a.o"]), "", "k.elf");
    build.link(&strings(&["a.o"]), "l.ld", "");
    build.link(&[], "l.ld", "k.elf");
    build.link(&strings(&["", ""]), "l.ld", "k.elf");
    assert_eq!(build.steps().len(), 2);
}

#[test]
fn link_leaves_out_empty_object_paths() {
    let mut build = Build::new(Arch::Riscv64).unwrap();
    build.link(&strings(&["", "a.o", "", "b.a", ""]), "l.ld", "k.elf");
    assert_eq!(
        build.steps()[2].command.args,
        strings(&["-T", "l.ld", "-nostdlib", "a.o", "b.a", "-o", "k.elf"])
    );
}

#[test]
fn stage_can_be_asked_for_again() {
    let mut build = Build::new(Arch::Riscv64).unwrap();
    build.assemble("a.S", "a.o").assemble("b.S", "b.o").assemble("a.S", "a.o");
    assert_eq!(build.steps().len(), 5);
    assert_eq!(build.steps()[2], build.steps()[4]);
    assert_eq!(build.steps()[3].artifact, "b.o");
}

#[test]
fn report_keeps_outcomes_in_order() {
    let mut build = Build::new(Arch::Riscv64).unwrap();
    build.assemble("a.S", "a.o");
    assert_eq!(build.report(Outcome::Exited(0)), Ok(()));
    assert_eq!(build.report(Outcome::Exited(0)), Ok(()));
    assert_eq!(build.last_stage(), Stage::Created);
    assert_eq!(build.artifact(), None);
    assert_eq!(build.report(Outcome::Exited(0)), Ok(()));
    assert_eq!(build.last_stage(), Stage::Assembled);
    assert_eq!(build.artifact(), Some("a.o"));
    assert_eq!(build.outcomes(), &vec![Outcome::Exited(0); 3]);
    // nothing waits: nothing is kept
    assert_eq!(build.report(Outcome::Exited(7)), Ok(()));
    assert_eq!(build.outcomes().len(), 3);
    assert_eq!(build.steps().len(), 3);
}

#[test]
fn failed_tool_is_an_exit_failure() {
    let mut build = Build::new(Arch::Riscv64).unwrap();
    build.rust_build("t", BuildMode::Debug, "out").assemble("a.S", "a.o").link(
        &strings(&["a.o"]),
        "l.ld",
        "k.elf",
    );
    assert_eq!(build.report(Outcome::Exited(0)), Ok(()));
    assert_eq!(build.report(Outcome::Exited(0)), Ok(()));
    assert_eq!(
        build.report(Outcome::Exited(101)),
        Err(BuildError::ToolProcessExitFailure { tool: "cargo".to_string(), code: Some(101) })
    );
    assert_eq!(build.last_stage(), Stage::Compiled);
    assert!(!build.last_succeeded());
    assert_eq!(build.artifact(), None);
    assert_eq!(
        build.report(Outcome::Killed),
        Err(BuildError::ToolProcessExitFailure {
            tool: "riscv64-unknown-elfas".to_string(),
            code: None
        })
    );
    // a failed link stops the build like any other failed stage
    assert_eq!(
        build.report(Outcome::Exited(1)),
        Err(BuildError::ToolProcessExitFailure {
            tool: "riscv64-unknown-elfld".to_string(),
            code: Some(1)
        })
    );
    assert_eq!(build.last_stage(), Stage::Linked);
    assert_eq!(build.artifact(), None);
}

#[test]
fn missing_tool_is_a_spawn_failure() {
    let mut build = Build::new(Arch::AArch64).unwrap();
    build.assemble("a.S", "a.o");
    assert_eq!(build.report(Outcome::Exited(0)), Ok(()));
    assert_eq!(build.report(Outcome::Exited(0)), Ok(()));
    assert_eq!(
        build.report(Outcome::NotSpawned),
        Err(BuildError::ToolProcessSpawnFailure { tool: "aarch64-none-elfas".to_string() })
    );
}

#[test]
fn failed_workspace_step_is_a_workspace_failure() {
    for outcome in [Outcome::NotSpawned, Outcome::Exited(1), Outcome::Killed] {
        let mut build = Build::new(Arch::Riscv64).unwrap();
        assert_eq!(
            build.report(outcome),
            Err(BuildError::WorkspaceIOFailure { dir: "build".to_string() })
        );
        assert_eq!(
            build.report(outcome),
            Err(BuildError::WorkspaceIOFailure { dir: "build".to_string() })
        );
        build.clean();
        assert_eq!(
            build.report(outcome),
            Err(BuildError::WorkspaceIOFailure { dir: "build".to_string() })
        );
        assert_eq!(build.last_stage(), Stage::Cleaned);
    }
}

#[test]
fn clean_leaves_no_artifact() {
    let mut build = Build::new(Arch::Riscv64).unwrap();
    build.assemble("a.S", "a.o").clean();
    drive(&mut build, Outcome::Exited(0));
    assert_eq!(build.last_stage(), Stage::Cleaned);
    assert!(build.last_succeeded());
    assert_eq!(build.artifact(), None);
}

#[test]
fn plan_follows_the_configuration() {
    let config = BuildConfig::parse(
        "OUT_DIR=build/riscv64\nASM_FILES=asm/boot.S\nOUT_OBJ=build/boot.o\nLINK_SCRIPT=link/linker.ld\nLINK_OBJ=build/boot.o  deps/libkern.a\nOUT_IMG=build/kernel.elf\n",
    );
    let build = Build::plan(Arch::Riscv64, BuildMode::Release, &config).unwrap();
    let mut by_hand = Build::new(Arch::Riscv64).unwrap();
    by_hand
        .rust_build("riscv64gc-unknown-none-elf", BuildMode::Release, "build/riscv64")
        .assemble("asm/boot.S", "build/boot.o")
        .link(
            &strings(&["build/boot.o", "", "deps/libkern.a"]),
            "link/linker.ld",
            "build/kernel.elf",
        );
    assert_eq!(build, by_hand);
    assert_eq!(build.steps().len(), 5);
    assert_eq!(
        build.steps()[4].command.args,
        strings(&[
            "-T",
            "link/linker.ld",
            "-nostdlib",
            "build/boot.o",
            "deps/libkern.a",
            "-o",
            "build/kernel.elf"
        ])
    );
}

#[test]
fn plan_leaves_out_stages_without_paths() {
    let config = BuildConfig::parse("OUT_DIR=out\nASM_FILES=boot.S\nLINK_OBJ=boot.o\n");
    let build = Build::plan(Arch::AArch64, BuildMode::Test, &config).unwrap();
    assert_eq!(build.steps().len(), 3);
    assert_eq!(
        build.steps()[2],
        step(
            Stage::Compiled,
            "cargo",
            &[
                "rustc",
                "--target=aarch64-none-elf",
                "--test",
                "--",
                "--crate-type=staticlib",
                "-o",
                "out/.a"
            ],
            "out/.a"
        )
    );
    let empty = Build::plan(Arch::AArch64, BuildMode::Test, &BuildConfig::new()).unwrap();
    assert_eq!(empty, Build::new(Arch::AArch64).unwrap());
}
