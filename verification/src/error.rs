//! What can stop a build.

use crate::builder::{arch_name, Arch};
use crate::readenv::ParseError;
use crate::text::joined;
use vstd::prelude::*;
use vstd::string::StringExecFns;

verus! {

/// Why a build cannot go on.
#[derive(Debug, PartialEq, Eq)]
pub enum BuildError {
    /// The build description could not be had.
    Config(ParseError),
    /// There is no toolchain for the architecture.
    UnsupportedArchitecture(Arch),
    /// A tool could not be started.
    ToolProcessSpawnFailure { tool: String },
    /// A tool ran and did not exit with code zero; `code` is its exit code,
    /// if it left one.
    ToolProcessExitFailure { tool: String, code: Option<i32> },
    /// The output directory could not be removed or created.
    WorkspaceIOFailure { dir: String },
}

/// A build error with its texts as sequences.
pub enum BuildErrorView {
    Config(ParseError),
    UnsupportedArchitecture(Arch),
    ToolProcessSpawnFailure { tool: Seq<char> },
    ToolProcessExitFailure { tool: Seq<char>, code: Option<i32> },
    WorkspaceIOFailure { dir: Seq<char> },
}

impl View for BuildError {
    type V = BuildErrorView;

    open spec fn view(&self) -> BuildErrorView {
        match self {
            BuildError::Config(cause) => BuildErrorView::Config(*cause),
            BuildError::UnsupportedArchitecture(arch) => BuildErrorView::UnsupportedArchitecture(
                *arch,
            ),
            BuildError::ToolProcessSpawnFailure { tool } => BuildErrorView::ToolProcessSpawnFailure {
                tool: tool@,
            },
            BuildError::ToolProcessExitFailure { tool, code } => {
                BuildErrorView::ToolProcessExitFailure { tool: tool@, code: *code }
            },
            BuildError::WorkspaceIOFailure { dir } => BuildErrorView::WorkspaceIOFailure {
                dir: dir@,
            },
        }
    }
}

/// What is said of an error. The message of a tool that could not be
/// started names the tool and says how to make it available.
pub open spec fn message_of(error: BuildErrorView) -> Seq<char> {
    match error {
        BuildErrorView::Config(ParseError::NotFound) => {
            "the build description is missing or cannot be read"@
        },
        BuildErrorView::UnsupportedArchitecture(arch) => {
            "there is no toolchain for the architecture "@ + arch_name(arch)
        },
        BuildErrorView::ToolProcessSpawnFailure { tool } => {
            "could not start "@ + tool + ": install it, or add its directory to the PATH"@
        },
        BuildErrorView::ToolProcessExitFailure { tool, code } => {
            tool + " ran and reported a failure"@
        },
        BuildErrorView::WorkspaceIOFailure { dir } => {
            "could not remove or create the output directory "@ + dir
        },
    }
}

impl BuildError {
    /// The error that stands for a build description that could not be had.
    pub fn from_parse(cause: ParseError) -> (e: BuildError)
        ensures
            e@ == BuildErrorView::Config(cause),
    {
        BuildError::Config(cause)
    }

    /// What to tell the user about this error.
    pub fn message(&self) -> (text: String)
        ensures
            text@ == message_of(self@),
    {
        match self {
            BuildError::Config(ParseError::NotFound) => {
                "the build description is missing or cannot be read".to_owned()
            },
            BuildError::UnsupportedArchitecture(arch) => {
                joined("there is no toolchain for the architecture ", arch.name())
            },
            BuildError::ToolProcessSpawnFailure { tool } => {
                let mut text = joined("could not start ", tool.as_str());
                text.append(": install it, or add its directory to the PATH");
                text
            },
            BuildError::ToolProcessExitFailure { tool, code } => {
                joined(tool.as_str(), " ran and reported a failure")
            },
            BuildError::WorkspaceIOFailure { dir } => {
                joined("could not remove or create the output directory ", dir.as_str())
            },
        }
    }
}

} // verus!
