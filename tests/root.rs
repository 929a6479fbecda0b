use hackgproject::root::{find_root, has_entry, root_step, Listing, RootError, RootStep};

fn names(xs: &[&str]) -> Vec<String> {
    xs.iter().map(|s| s.to_string()).collect()
}

fn entries(xs: &[&str]) -> Listing {
    Listing::Entries(names(xs))
}

#[test]
fn finds_marker_two_levels_up() {
    // /, /a (holds .git), /a/b, /a/b/c
    let start = names(&["a", "b", "c"]);
    let ls = vec![entries(&["a", "x"]), entries(&[".git", "b"]), entries(&["c"]), entries(&[])];
    assert_eq!(find_root(&start, &ls, ".git"), Ok(Some(names(&["a"]))));
}

#[test]
fn outside_tree_is_not_found() {
    // /, /x, /x/y: no .git anywhere
    let start = names(&["x", "y"]);
    let ls = vec![entries(&["a", "x"]), entries(&["y"]), entries(&[])];
    assert_eq!(find_root(&start, &ls, ".git"), Ok(None));
}

#[test]
fn start_directory_itself_can_hold_marker() {
    let start = names(&["a"]);
    let ls = vec![entries(&[".git"]), entries(&[".git"])];
    assert_eq!(find_root(&start, &ls, ".git"), Ok(Some(names(&["a"]))));
}

#[test]
fn marker_at_filesystem_root() {
    let start = names(&["a", "b"]);
    let ls = vec![entries(&[".travis.d"]), entries(&["b"]), entries(&[])];
    assert_eq!(find_root(&start, &ls, ".travis.d"), Ok(Some(Vec::new())));
}

#[test]
fn absent_to_root_is_none_not_error() {
    let start: Vec<String> = Vec::new();
    let ls = vec![entries(&["etc", "usr"])];
    assert_eq!(find_root(&start, &ls, ".git"), Ok(None));
}

#[test]
fn denied_listing_partway_up_is_error() {
    let start = names(&["a", "b"]);
    let ls = vec![entries(&[".git"]), Listing::Denied, entries(&[])];
    assert_eq!(find_root(&start, &ls, ".git"), Err(RootError::ListingDenied));
}

#[test]
fn marker_name_must_match_exactly() {
    assert!(!has_entry(&entries(&[".gitignore", "git"]), ".git"));
    assert!(has_entry(&entries(&[".gitignore", ".git"]), ".git"));
    assert!(!has_entry(&Listing::Denied, ".git"));
}

#[test]
fn step_decisions() {
    assert_eq!(root_step(2, &entries(&[".git"]), ".git"), RootStep::Found);
    assert_eq!(root_step(2, &entries(&["x"]), ".git"), RootStep::Ascend);
    assert_eq!(root_step(0, &entries(&["x"]), ".git"), RootStep::NotFound);
    assert_eq!(root_step(3, &Listing::Denied, ".git"), RootStep::Failed);
}
