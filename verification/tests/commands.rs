use arcutils::builder::{
    basic_build, create_vfat, full_build, join_ovmf, mount_vfat, run_arcboot, test_build, Arch,
    QEMU_AARCH64, QEMU_RISCV,
};
use arcutils::command::{Invocation, Outcome};
use arcutils::error::BuildError;
use arcutils::readenv::ParseError;
use arcutils::workspace::{create_workspace, remove_workspace, WORKSPACE};

fn invocation(program: &str, args: &[&str]) -> Invocation {
    Invocation { program: program.to_string(), args: args.iter().map(|a| a.to_string()).collect() }
}

#[test]
fn invocation_collects_arguments_in_order() {
    let mut command = Invocation::new("tool");
    assert_eq!(command, invocation("tool", &[]));
    command.arg("-a").arg("").arg("b c");
    assert_eq!(command, invocation("tool", &["-a", "", "b c"]));
    command.arg("-a");
    assert_eq!(command.args, vec!["-a", "", "b c", "-a"]);
    assert_eq!(command.program, "tool");
}

#[test]
fn only_exit_code_zero_is_success() {
    assert!(Outcome::Exited(0).succeeded());
    assert!(!Outcome::Exited(1).succeeded());
    assert!(!Outcome::Exited(-1).succeeded());
    assert!(!Outcome::Exited(i32::MAX).succeeded());
    assert!(!Outcome::Exited(i32::MIN).succeeded());
    assert!(!Outcome::NotSpawned.succeeded());
    assert!(!Outcome::Killed.succeeded());
}

#[test]
fn workspace_is_removed_and_created_by_two_commands() {
    assert_eq!(remove_workspace("build"), invocation("rm", &["-rf", "build"]));
    assert_eq!(create_workspace("build"), invocation("mkdir", &["-p", "build"]));
    assert_eq!(remove_workspace("out/a b"), invocation("rm", &["-rf", "out/a b"]));
    assert_eq!(create_workspace("out/a b"), invocation("mkdir", &["-p", "out/a b"]));
    assert_eq!(WORKSPACE, "build");
}

#[test]
fn basic_build_is_the_same_for_every_architecture() {
    for arch in [Arch::Riscv64, Arch::AArch64, Arch::X86_64] {
        assert_eq!(basic_build(arch), invocation("cargo", &["barm"]));
    }
}

#[test]
fn test_build_turns_on_the_test_feature() {
    assert_eq!(
        test_build(),
        invocation("cargo", &["rustc", "--features", "arctest", "--", "--nocapture"])
    );
}

#[test]
fn full_build_does_nothing() {
    full_build();
}

#[test]
fn disk_commands_are_fixed() {
    assert_eq!(create_vfat(), invocation("mkfs -t vfat /dev/vdisk1", &[]));
    assert_eq!(mount_vfat(), invocation("mount", &["/dev/vdisk1 /mnt/disk.vfat"]));
}

#[test]
fn join_ovmf_names_the_images_of_the_architecture() {
    assert_eq!(
        join_ovmf("aarch64"),
        invocation(
            "cat",
            &[
                "build/aarch64/qemu_ovmf_code.fd",
                "build/aarch64/qemu_ovmf_raw.fd",
                "--output build/aarch64/qemu_ovmf.bin"
            ]
        )
    );
    assert_eq!(
        join_ovmf(""),
        invocation(
            "cat",
            &["build//qemu_ovmf_code.fd", "build//qemu_ovmf_raw.fd", "--output build//qemu_ovmf.bin"]
        )
    );
}

#[test]
fn arcboot_runs_under_the_aarch64_emulator_only() {
    assert_eq!(
        run_arcboot(Arch::AArch64),
        Ok(invocation(
            "qemu-system-aarch64",
            &[
                "-machine virt",
                "-cpu cortex-a72",
                "-m 2048",
                "-vga std",
                "-serial stdio",
                "-kernel build/arcboot",
                "-drive file=fat:rsw:vdisk",
                "-drive if=pflash,format=raw,readonly=true,file=build/aarch64/qemu_ovmf_code.fd",
                "-drive if=pflash,format=raw,readonly=false,file=build/aarch64/qemu_ovmf_vars.fd",
            ]
        ))
    );
    assert_eq!(run_arcboot(Arch::Riscv64), Err(BuildError::UnsupportedArchitecture(Arch::Riscv64)));
    assert_eq!(run_arcboot(Arch::X86_64), Err(BuildError::UnsupportedArchitecture(Arch::X86_64)));
    assert_eq!(QEMU_AARCH64, "qemu-system-aarch64");
    assert_eq!(QEMU_RISCV, "qemu-system-riscv64");
}

#[test]
fn every_error_has_its_message() {
    assert_eq!(
        BuildError::from_parse(ParseError::NotFound).message(),
        "the build description is missing or cannot be read"
    );
    assert_eq!(BuildError::from_parse(ParseError::NotFound), BuildError::Config(ParseError::NotFound));
    assert_eq!(
        BuildError::UnsupportedArchitecture(Arch::X86_64).message(),
        "there is no toolchain for the architecture x86_64"
    );
    assert_eq!(
        BuildError::ToolProcessSpawnFailure { tool: "riscv64-unknown-elfas".to_string() }.message(),
        "could not start riscv64-unknown-elfas: install it, or add its directory to the PATH"
    );
    assert_eq!(
        BuildError::ToolProcessExitFailure { tool: "cargo".to_string(), code: Some(101) }.message(),
        "cargo ran and reported a failure"
    );
    assert_eq!(
        BuildError::ToolProcessExitFailure { tool: "cargo".to_string(), code: None }.message(),
        "cargo ran and reported a failure"
    );
    assert_eq!(
        BuildError::WorkspaceIOFailure { dir: "build".to_string() }.message(),
        "could not remove or create the output directory build"
    );
}

#[test]
fn spawn_failure_message_names_the_tool() {
    for tool in ["as", "aarch64-none-elfld", "a tool"] {
        let message = BuildError::ToolProcessSpawnFailure { tool: tool.to_string() }.message();
        assert!(message.contains(tool));
        assert!(message.contains("PATH"));
    }
}
