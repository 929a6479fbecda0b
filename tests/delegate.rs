use hackgproject::delegate::{
    after_check, after_run, after_search, needs_vcs_init, script_path, target_action, TargetAction,
    TargetState, TestAction, USAGE_EXIT,
};
use hackgproject::root::RootError;

fn names(xs: &[&str]) -> Vec<String> {
    xs.iter().map(|s| s.to_string()).collect()
}

#[test]
fn missing_marker_exits_with_usage() {
    assert_eq!(after_search(Ok(None)), TestAction::ExitUsage);
    assert_eq!(USAGE_EXIT, 64);
}

#[test]
fn denied_search_fails() {
    assert_eq!(after_search(Err(RootError::ListingDenied)), TestAction::ExitFailed);
}

#[test]
fn found_root_checks_script() {
    assert_eq!(after_search(Ok(Some(names(&["p"])))), TestAction::CheckScript(names(&["p"])));
}

#[test]
fn missing_script_exits_with_usage() {
    assert_eq!(after_check(names(&["p"]), false), TestAction::ExitUsage);
    assert_eq!(after_check(names(&["p"]), true), TestAction::RunScript(names(&["p"])));
}

#[test]
fn script_exit_code_passes_through() {
    assert_eq!(after_run(Some(3)), TestAction::Exit(3));
    assert_eq!(after_run(Some(0)), TestAction::Exit(0));
    assert_eq!(after_run(None), TestAction::ExitFailed);
}

#[test]
fn build_script_location() {
    assert_eq!(script_path(&names(&["home", "p"])), names(&["home", "p", ".travis.d", "build.sh"]));
    assert_eq!(script_path(&Vec::new()), names(&[".travis.d", "build.sh"]));
}

#[test]
fn target_decisions() {
    assert_eq!(target_action(TargetState::Directory), TargetAction::Enter);
    assert_eq!(target_action(TargetState::Missing), TargetAction::Create);
    assert_eq!(target_action(TargetState::NotDirectory), TargetAction::Reject);
}

#[test]
fn vcs_init_when_created_or_absent() {
    assert!(needs_vcs_init(true, &Some(names(&["a"]))));
    assert!(needs_vcs_init(false, &None));
    assert!(!needs_vcs_init(false, &Some(names(&["a"]))));
}
