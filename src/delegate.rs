//! The decisions of the `init` and `test` commands, between the steps that
//! touch the filesystem or run a process.
use crate::profile::{BUILD_DIR, BUILD_SCRIPT};
use crate::root::{path_view, RootError};
use vstd::prelude::*;

verus! {

/// The exit status for a command-line usage error.
pub const USAGE_EXIT: i32 = 64;

/// What `test` does next.
#[derive(Clone, Debug, PartialEq, Eq)]
pub enum TestAction {
    /// Check that the build script exists under this project root.
    CheckScript(Vec<String>),
    /// Enter this project root and run its build script.
    RunScript(Vec<String>),
    /// Tell the user to run `init` first, and exit with `USAGE_EXIT`.
    ExitUsage,
    /// A directory could not be listed: stop with an error.
    ExitFailed,
    /// Exit with this status.
    Exit(i32),
}

/// After searching upward for `BUILD_DIR`.
pub fn after_search(found: Result<Option<Vec<String>>, RootError>) -> (r: TestAction)
    ensures
        found is Err ==> r == TestAction::ExitFailed,
        found matches Ok(None) ==> r == TestAction::ExitUsage,
        found matches Ok(Some(dir)) ==> r == TestAction::CheckScript(dir),
{
    match found {
        Err(_) => TestAction::ExitFailed,
        Ok(None) => TestAction::ExitUsage,
        Ok(Some(dir)) => TestAction::CheckScript(dir),
    }
}

/// After checking whether the build script exists under `root`.
pub fn after_check(root: Vec<String>, present: bool) -> (r: TestAction)
    ensures
        present ==> r == TestAction::RunScript(root),
        !present ==> r == TestAction::ExitUsage,
{
    if present {
        TestAction::RunScript(root)
    } else {
        TestAction::ExitUsage
    }
}

/// After the build script exited with `code` (`None`: killed by a signal,
/// with no code to pass on).
pub fn after_run(code: Option<i32>) -> (r: TestAction)
    ensures
        code matches Some(c) ==> r == TestAction::Exit(c),
        code is None ==> r == TestAction::ExitFailed,
{
    match code {
        Some(c) => TestAction::Exit(c),
        None => TestAction::ExitFailed,
    }
}

/// The build script's path below a project root.
pub fn script_path(root: &Vec<String>) -> (r: Vec<String>)
    ensures
        path_view(r@) == path_view(root@) + seq![BUILD_DIR@, BUILD_SCRIPT@],
{
    let mut p: Vec<String> = Vec::new();
    let mut i: usize = 0;
    while i < root.len()
        invariant
            i <= root@.len(),
            p@.len() == i,
            path_view(p@) == path_view(root@).take(i as int),
        decreases root.len() - i,
    {
        let ghost before = p@;
        p.push(root[i].clone());
        assert(path_view(p@) =~= path_view(root@).take(i + 1)) by {
            assert(p@ == before.push(root@[i as int]));
            assert(forall|j: int| 0 <= j < before.len() ==> path_view(before)[j] == (
            #[trigger] before[j])@);
            assert(forall|j: int| 0 <= j < p@.len() ==> path_view(p@)[j] == (#[trigger] p@[j])@);
            assert(forall|j: int| 0 <= j < root@.len() ==> path_view(root@)[j] == (
            #[trigger] root@[j])@);
        }
        i = i + 1;
    }
    let ghost before = p@;
    p.push(BUILD_DIR.to_string());
    p.push(BUILD_SCRIPT.to_string());
    assert(path_view(p@) =~= path_view(root@) + seq![BUILD_DIR@, BUILD_SCRIPT@]) by {
        assert(path_view(root@).take(root@.len() as int) =~= path_view(root@));
        assert(forall|j: int| 0 <= j < before.len() ==> path_view(before)[j] == (
        #[trigger] before[j])@);
        assert(forall|j: int| 0 <= j < p@.len() ==> path_view(p@)[j] == (#[trigger] p@[j])@);
    }
    p
}

/// What is found at the path that `init` is pointed at.
#[derive(Clone, Copy, Debug, PartialEq, Eq, Structural)]
pub enum TargetState {
    Directory,
    NotDirectory,
    Missing,
}

/// What `init` does with its target path.
#[derive(Clone, Copy, Debug, PartialEq, Eq, Structural)]
pub enum TargetAction {
    /// Use the existing directory.
    Enter,
    /// Create the directory and its parents, then use it.
    Create,
    /// Refuse: something other than a directory is there.
    Reject,
}

/// The decision on the target path.
pub fn target_action(state: TargetState) -> (r: TargetAction)
    ensures
        state == TargetState::Directory ==> r == TargetAction::Enter,
        state == TargetState::Missing ==> r == TargetAction::Create,
        state == TargetState::NotDirectory ==> r == TargetAction::Reject,
{
    match state {
        TargetState::Directory => TargetAction::Enter,
        TargetState::Missing => TargetAction::Create,
        TargetState::NotDirectory => TargetAction::Reject,
    }
}

/// Whether `init` initializes version control: in a directory it has just
/// created, or where no `.git` is found upward from the target.
pub fn needs_vcs_init(created: bool, vcs_root: &Option<Vec<String>>) -> (r: bool)
    ensures
        r == (created || vcs_root is None),
{
    created || vcs_root.is_none()
}

} // verus!
