use agent_workbench::error::CoreError;
use agent_workbench::pathutil::{assert_contained, canonicalize_existing, is_contained, join_path, path_components};
use agent_workbench::text::{split_lines, strip_prefix, take_chars, trim};

#[test]
fn accepts_nested_path() {
    // Both paths as resolved: nothing in between is a link.
    let root = "/tmp/x/repo";
    let nested = join_path(&join_path(root, "a/b"), "c.txt");
    assert!(is_contained(root, &nested));
}

#[test]
fn rejects_symlink_escape() {
    // `repo/escape` is a link to `outside`; resolving it leaves the root.
    let ok = is_contained("/tmp/x/repo", "/tmp/x/outside/secret.txt");
    assert!(!ok, "symlink escape must not count as contained");
    let err = assert_contained("/tmp/x/repo", "/tmp/x/repo/escape/secret.txt", "/tmp/x/repo", "/tmp/x/outside/secret.txt")
        .unwrap_err();
    match err {
        CoreError::PathEscape { path, root } => {
            assert_eq!(path, "/tmp/x/repo/escape/secret.txt");
            assert_eq!(root, "/tmp/x/repo");
        }
        other => panic!("{other:?}"),
    }
}

#[test]
fn containment_is_component_wise() {
    assert!(is_contained("/a/b", "/a/b"));
    assert!(is_contained("/a/b/", "/a/b/c"));
    assert!(is_contained("/a//b", "/a/b/./c"));
    assert!(!is_contained("/a/b", "/a/bc"));
    assert!(!is_contained("/a/b", "/a"));
    assert!(!is_contained("a/b", "/a/b/c"));
}

#[test]
fn components_follow_path_rules() {
    assert_eq!(path_components("/a//b/./c/"), vec!["/", "a", "b", "c"]);
    assert_eq!(path_components("./a/../b"), vec![".", "a", "..", "b"]);
    assert_eq!(path_components(""), Vec::<String>::new());
    assert_eq!(path_components("."), vec!["."]);
}

#[test]
fn join_follows_path_rules() {
    assert_eq!(join_path("/wts", "r_A"), "/wts/r_A");
    assert_eq!(join_path("/wts/", "r_A"), "/wts/r_A");
    assert_eq!(join_path("", "x"), "x");
    assert_eq!(join_path("/wts", "/abs"), "/abs");
}

#[test]
fn canonicalize_failure_names_the_path() {
    let err = canonicalize_existing("/nope", Err("No such file or directory (os error 2)".to_string())).unwrap_err();
    assert_eq!(err.message(), "canonicalize failed for /nope: No such file or directory (os error 2)");
    assert_eq!(canonicalize_existing("/x", Ok("/real/x".to_string())).unwrap(), "/real/x");
}

#[test]
fn text_helpers() {
    assert_eq!(trim("  \t hi there \n"), "hi there");
    assert_eq!(trim("   "), "");
    assert_eq!(take_chars("héllo", 2), "hé");
    assert_eq!(take_chars("hi", 5), "hi");
    assert_eq!(strip_prefix("worktree /a", "worktree ").as_deref(), Some("/a"));
    assert_eq!(strip_prefix("work", "worktree "), None);
    assert_eq!(split_lines("a\r\nb\n\nc\r"), vec!["a", "b", "", "c\r"]);
    assert_eq!(split_lines("a\n"), vec!["a"]);
    assert!(split_lines("").is_empty());
}
