use redwood::git::resolve_root_from;
use redwood::paths::{is_hidden_name, join_path, last_component, split_components,
    strip_two_components};

#[test]
fn worktree_metadata_resolves_to_root() {
    let root = resolve_root_from("/home/u/hub/worktrees/feature", true);
    assert_eq!(root, "/home/u/hub");
    let bare = resolve_root_from("/home/u/hub", false);
    assert_eq!(bare, "/home/u/hub");
    assert_eq!(root, bare);
}

#[test]
fn strip_normalizes_trailing_separator() {
    assert_eq!(strip_two_components("/home/u/hub/worktrees/feature/"), "/home/u/hub");
    assert_eq!(strip_two_components("hub/worktrees/feature"), "hub");
}

#[test]
fn strip_of_short_paths_is_total() {
    assert_eq!(strip_two_components("/a/b"), "/");
    assert_eq!(strip_two_components("a/b"), "");
    assert_eq!(strip_two_components("a"), "");
    assert_eq!(strip_two_components(""), "");
}

#[test]
fn non_worktree_paths_resolve_to_themselves() {
    assert_eq!(resolve_root_from("/home/u/plain/.git/", false), "/home/u/plain/.git/");
}

#[test]
fn join_inserts_single_separator() {
    assert_eq!(join_path("/a/b", "c"), "/a/b/c");
    assert_eq!(join_path("/a/b/", "c"), "/a/b/c");
    assert_eq!(join_path("", "c"), "c");
    assert_eq!(join_path("/a", "/abs"), "/abs");
}

#[test]
fn components_skip_empty_runs() {
    assert_eq!(split_components("/a//b/"), vec!["a", "b"]);
    assert_eq!(split_components("///"), Vec::<String>::new());
}

#[test]
fn last_component_of_paths() {
    assert_eq!(last_component("/a/b/c").as_deref(), Some("c"));
    assert_eq!(last_component("/a/b/c/").as_deref(), Some("c"));
    assert_eq!(last_component("/"), None);
}

#[test]
fn hidden_names_start_with_a_dot() {
    assert!(is_hidden_name(".hidden"));
    assert!(!is_hidden_name("visible"));
    assert!(!is_hidden_name(""));
}
