//! The output directory of a build and the two commands of its lifecycle:
//! removing it with all it holds, and creating it.

use crate::command::{Invocation, InvocationView};
use vstd::prelude::*;

verus! {

/// The output directory that a pipeline works in when it is given no other.
pub const WORKSPACE: &'static str = "build";

/// The program that removes a directory.
pub const REMOVE: &'static str = "rm";

/// The program that creates a directory.
pub const CREATE: &'static str = "mkdir";

/// The command that removes the directory `dir` and all it holds, and
/// succeeds where there is no such directory: `rm -rf dir`.
pub open spec fn removal(dir: Seq<char>) -> InvocationView {
    InvocationView { program: REMOVE@, args: seq!["-rf"@, dir] }
}

/// The command that creates the directory `dir`, with the directories above
/// it where they are missing: `mkdir -p dir`.
pub open spec fn creation(dir: Seq<char>) -> InvocationView {
    InvocationView { program: CREATE@, args: seq!["-p"@, dir] }
}

/// The command that removes the directory `dir` and all it holds.
pub fn remove_workspace(dir: &str) -> (command: Invocation)
    ensures
        command@ == removal(dir@),
{
    let mut command = Invocation::new(REMOVE);
    command.arg("-rf").arg(dir);
    assert(command@.args =~= removal(dir@).args);
    command
}

/// The command that creates the directory `dir`.
pub fn create_workspace(dir: &str) -> (command: Invocation)
    ensures
        command@ == creation(dir@),
{
    let mut command = Invocation::new(CREATE);
    command.arg("-p").arg(dir);
    assert(command@.args =~= creation(dir@).args);
    command
}

/// What stands at the place of an output directory.
#[derive(Debug, PartialEq, Eq, Structural, Clone, Copy)]
pub enum Place {
    /// There is no directory.
    Absent,
    /// There is a directory, and it holds nothing.
    Empty,
    /// There is a directory, and it holds files of an earlier build.
    Stale,
}

/// What stands at the place of the directory `dir` once `command` has run
/// with success, if `before` stood there. A removal leaves no directory. A
/// creation leaves an empty directory where there was none, and leaves a
/// directory that was there as it was. Of a command that is neither, nothing
/// is said.
pub open spec fn place_after(command: InvocationView, dir: Seq<char>, before: Place) -> Option<
    Place,
> {
    if command == removal(dir) {
        Some(Place::Absent)
    } else if command == creation(dir) {
        Some(
            if before == Place::Absent {
                Place::Empty
            } else {
                before
            },
        )
    } else {
        None
    }
}

/// Removal followed by creation leaves an empty directory, whatever stood
/// at the place before: no directory, an empty one, or one with files of an
/// earlier build.
pub proof fn lemma_removal_then_creation(dir: Seq<char>, before: Place)
    ensures
        place_after(removal(dir), dir, before) == Some(Place::Absent),
        place_after(creation(dir), dir, Place::Absent) == Some(Place::Empty),
{
    reveal_strlit("rm");
    reveal_strlit("mkdir");
    assert(REMOVE@.len() != CREATE@.len());
}

} // verus!
