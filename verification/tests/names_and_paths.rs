use rzip_core::names::normalize_entry_name;
use rzip_core::paths::{is_confined, join, parent_of, resolve_relative};

fn chars(s: &str) -> Vec<char> {
    s.chars().collect()
}

#[test]
fn normalize_replaces_backslashes_and_dot_segments() {
    assert_eq!(normalize_entry_name("a\\b/./c"), "a/b/c");
}

#[test]
fn normalize_leaves_plain_names_alone() {
    assert_eq!(normalize_entry_name("dir/sub/file.txt"), "dir/sub/file.txt");
    assert_eq!(normalize_entry_name(""), "");
    assert_eq!(normalize_entry_name("file"), "file");
}

#[test]
fn normalize_changes_nothing_in_plain_names() {
    let names = ["a/b/c", "x.txt", "d/", "./a", "a/.", "..", "a//b"];
    for name in names {
        assert_eq!(normalize_entry_name(name), name);
    }
}

#[test]
fn normalize_twice_equals_once() {
    let names = ["a/b/c", "a\\b/./c", "a/././b", "/././", "\\.\\.\\x", "a/./", "/./.", ""];
    for name in names {
        let once = normalize_entry_name(name);
        let twice = normalize_entry_name(once.as_str());
        assert_eq!(twice, once);
        assert!(!once.contains("/./"));
        assert!(!once.contains('\\'));
    }
}

#[test]
fn normalize_takes_every_dot_segment_out() {
    assert_eq!(normalize_entry_name("a/././b"), "a/b");
    assert_eq!(normalize_entry_name("/././"), "/");
    assert_eq!(normalize_entry_name("a/./b/./c"), "a/b/c");
    assert_eq!(normalize_entry_name("a/./././././b"), "a/b");
    assert_eq!(normalize_entry_name("/./"), "/");
    assert_eq!(normalize_entry_name("a/./."), "a/.");
}

#[test]
fn normalize_sees_segments_written_with_backslashes() {
    assert_eq!(normalize_entry_name("a\\.\\b"), "a/b");
    assert_eq!(normalize_entry_name("a\\./b"), "a/b");
    assert_eq!(normalize_entry_name("\\"), "/");
}

#[test]
fn normalize_keeps_what_it_is_not_meant_to_touch() {
    assert_eq!(normalize_entry_name("/abs/../x"), "/abs/../x");
    assert_eq!(normalize_entry_name("a//b"), "a//b");
    assert_eq!(normalize_entry_name("a/.b/c"), "a/.b/c");
    assert_eq!(normalize_entry_name("päth\\ü"), "päth/ü");
}

#[test]
fn resolve_keeps_absolute_paths() {
    assert_eq!(resolve_relative("/etc/hosts".to_string(), "/home/u"), "/etc/hosts");
    assert_eq!(resolve_relative("/".to_string(), "/home/u"), "/");
}

#[test]
fn resolve_joins_relative_paths_onto_the_working_directory() {
    assert_eq!(resolve_relative("a/b.txt".to_string(), "/home/u"), "/home/u/a/b.txt");
    assert_eq!(resolve_relative("a".to_string(), "/home/u/"), "/home/u/a");
    assert_eq!(resolve_relative("".to_string(), "/home/u"), "/home/u/");
    assert_eq!(resolve_relative(".".to_string(), "/"), "/.");
    assert_eq!(resolve_relative("../x".to_string(), "/home/u"), "/home/u/../x");
}

#[test]
fn resolve_twice_equals_once() {
    let cwd = "/work/dir";
    for path in ["a", "a/b", "", ".", "/abs", "../up", "x\\y"] {
        let once = resolve_relative(path.to_string(), cwd);
        let twice = resolve_relative(once.clone(), cwd);
        assert_eq!(twice, once);
    }
}

#[test]
fn join_places_a_path_under_a_base() {
    assert_eq!(join("/out", "a/b"), "/out/a/b");
    assert_eq!(join("/out/", "a/b"), "/out/a/b");
    assert_eq!(join("", "a/b"), "a/b");
    assert_eq!(join("/out", ""), "/out/");
    assert_eq!(join("/out", "/abs"), "/abs");
}

#[test]
fn parent_of_a_path() {
    assert_eq!(parent_of("/out/a/b.txt"), Some("/out/a".to_string()));
    assert_eq!(parent_of("/out/a/"), Some("/out".to_string()));
    assert_eq!(parent_of("/a"), Some("/".to_string()));
    assert_eq!(parent_of("/"), None);
    assert_eq!(parent_of(""), None);
    assert_eq!(parent_of("a"), None);
    assert_eq!(parent_of("a/b"), Some("a".to_string()));
    assert_eq!(parent_of("/out/a/."), Some("/out".to_string()));
}

#[test]
fn confined_names() {
    for name in ["a", "a/b", "a/../b", "./a", "a/./b", "a//b", "", "a/b/../../c", "d/", "..a", "a.."] {
        assert!(is_confined(&chars(name)), "{:?}", name);
    }
}

#[test]
fn names_that_are_not_confined() {
    for name in ["..", "../a", "a/../../b", "/a", "/", "a/b/../../..", "./..", "a\0b", "a/../..//x"] {
        assert!(!is_confined(&chars(name)), "{:?}", name);
    }
}
