use tatum::path::{
    clean_path, components_of, get_relative_path_under_cwd, is_child_path, join_and_canonicalize,
    join_components, truncate_cwd,
};

const CWD: &str = "/home/user/project";

#[test]
fn test_rel_to_abspath() {
    let current_file = "/home/user/Notes/slipbox/networking/dns.md";
    assert_eq!(
        join_and_canonicalize("../linux.md", current_file),
        "/home/user/Notes/slipbox/linux.md"
    );

    let current_dir = "/home/user/Notes/slipbox/networking";
    assert_eq!(
        join_and_canonicalize("../linux.md", current_dir),
        "/home/user/Notes/linux.md"
    );

    assert_eq!(
        join_and_canonicalize("../linux.md", "./networking/dns.md"),
        "linux.md"
    );
}

#[test]
fn test_truncate_cwd() {
    let file_path = format!("{}/file.md", CWD);
    assert_eq!(truncate_cwd(&file_path, Some(CWD)), Some("file.md".to_string()));

    let file_path = format!("{}/foo/bar/baz/file.md", CWD);
    assert_eq!(
        truncate_cwd(&file_path, Some(CWD)),
        Some("foo/bar/baz/file.md".to_string())
    );
}

#[test]
fn test_is_child_path() {
    let current_file = "/home/user/Notes/slipbox/";
    let file = "/home/user/Notes/slipbox/child.md";
    assert_eq!(is_child_path(current_file, file), true);

    let current_file = "/home/user/Notes/slipbox/";
    let file = "/home/user/Notes/not_child.md";
    assert_ne!(is_child_path(current_file, file), true);
}

#[test]
fn test_get_relative_path_under_cwd() {
    let child_file = format!("{}/child_file", CWD);
    assert_eq!(
        get_relative_path_under_cwd(&child_file, Some(CWD)).unwrap(),
        "child_file"
    );
}

#[test]
fn components_follow_std_rules() {
    assert_eq!(components_of("/a//b/./c/"), vec!["/", "a", "b", "c"]);
    assert_eq!(components_of("./a/../b"), vec![".", "a", "..", "b"]);
    assert_eq!(components_of("a/."), vec!["a"]);
    assert_eq!(components_of(""), Vec::<String>::new());
    assert_eq!(components_of("/"), vec!["/"]);
}

#[test]
fn join_components_builds_paths() {
    let cs: Vec<String> = vec!["/".into(), "a".into(), "b".into()];
    assert_eq!(join_components(&cs), "/a/b");
    let cs: Vec<String> = vec!["a".into(), "b".into()];
    assert_eq!(join_components(&cs), "a/b");
    assert_eq!(join_components(&Vec::new()), "");
}

#[test]
fn clean_path_removes_dots() {
    assert_eq!(clean_path("/a/./b/../c"), "/a/c");
    assert_eq!(clean_path("../../x"), "x");
    assert_eq!(clean_path("/../x"), "/x");
    assert_eq!(clean_path("a/b/"), "a/b");
}

#[test]
fn clean_path_is_idempotent() {
    for p in ["/a/./b/../c/", "../x/./y", "./", "", "/..", "a//b/../../.."] {
        let once = clean_path(p);
        assert_eq!(clean_path(&once), once);
    }
}

#[test]
fn clean_absolute_path_resolves_to_itself() {
    for base in ["/notes/a/doc.md", "doc.md", "", "/"] {
        assert_eq!(join_and_canonicalize("/usr/share/doc", base), "/usr/share/doc");
    }
}

#[test]
fn absolute_reference_is_cleaned() {
    assert_eq!(join_and_canonicalize("/a/../b/./c", "/x/y.md"), "/b/c");
}

#[test]
fn parent_step_past_empty_is_ignored() {
    assert_eq!(join_and_canonicalize("../x", "doc.md"), "x");
    assert_eq!(join_and_canonicalize("../../x", "doc.md"), "x");
    assert_eq!(join_and_canonicalize("../x", "/doc.md"), "/x");
}

#[test]
fn base_without_parent_is_used_as_is() {
    assert_eq!(join_and_canonicalize("x", "/"), "/x");
    assert_eq!(join_and_canonicalize("x", ""), "x");
}

#[test]
fn relativize_keeps_paths_outside_cwd() {
    assert_eq!(
        get_relative_path_under_cwd("/elsewhere/file.md", Some(CWD)),
        Some("/elsewhere/file.md".to_string())
    );
    assert_eq!(get_relative_path_under_cwd(CWD, Some(CWD)), Some(CWD.to_string()));
    assert_eq!(
        get_relative_path_under_cwd("relative/file.md", Some(CWD)),
        Some("relative/file.md".to_string())
    );
    assert_eq!(
        get_relative_path_under_cwd("/home/user/projector/a.md", Some(CWD)),
        Some("/home/user/projector/a.md".to_string())
    );
    assert_eq!(
        get_relative_path_under_cwd("/x/y.md", None),
        Some("/x/y.md".to_string())
    );
}

#[test]
fn relativize_shortens_paths_below_cwd() {
    let inside = "/home/user/project/docs/a.md";
    let r = get_relative_path_under_cwd(inside, Some(CWD)).unwrap();
    assert_eq!(r, "docs/a.md");
    assert!(components_of(&r).len() < components_of(inside).len());
}

#[test]
fn truncate_cwd_needs_prefix() {
    assert_eq!(truncate_cwd("/other/file.md", Some(CWD)), None);
    assert_eq!(truncate_cwd("/home/user/project/a.md", None), None);
    assert_eq!(truncate_cwd(CWD, Some(CWD)), Some(String::new()));
}

#[test]
fn child_must_be_absolute_and_longer() {
    assert!(!is_child_path("/home", "/home"));
    assert!(!is_child_path("home", "home/a"));
    assert!(is_child_path("/", "/a"));
}
