use rzip_core::gather::gather_files;
use rzip_core::{OsFileEntry, RzError, SourceScan, WalkedEntry};

fn file(path: &str) -> SourceScan {
    SourceScan { path: path.to_string(), exists: true, is_file: true, walked: vec![] }
}

fn walked(path: &str, is_dir: bool) -> WalkedEntry {
    WalkedEntry { path: path.to_string(), is_dir, is_utf8: true }
}

fn dir(path: &str, entries: Vec<WalkedEntry>) -> SourceScan {
    SourceScan { path: path.to_string(), exists: true, is_file: false, walked: entries }
}

fn triple(e: &OsFileEntry) -> (String, String, bool) {
    (e.file_path.clone(), e.zip_path.clone(), e.is_dir)
}

#[test]
fn a_single_file_gives_one_descriptor_named_by_its_basename() {
    let files = gather_files(vec![file("/data/docs/report.txt")], "/work").unwrap();
    assert_eq!(files.len(), 1);
    assert_eq!(
        triple(&files[0]),
        ("/data/docs/report.txt".to_string(), "report.txt".to_string(), false)
    );
}

#[test]
fn a_relative_file_is_resolved_against_the_working_directory() {
    let files = gather_files(vec![file("notes/a.txt")], "/work").unwrap();
    assert_eq!(files.len(), 1);
    assert_eq!(triple(&files[0]), ("/work/notes/a.txt".to_string(), "a.txt".to_string(), false));
}

#[test]
fn a_file_name_with_a_backslash_is_normalized() {
    let files = gather_files(vec![file("/data/a\\b")], "/work").unwrap();
    assert_eq!(files[0].zip_path, "a/b");
}

#[test]
fn a_directory_gives_the_entries_of_its_walk() {
    let scan = dir("/data/d", vec![walked("/data/d/x.txt", false), walked("/data/d/sub", true)]);
    let files = gather_files(vec![scan], "/work").unwrap();
    let mut names: Vec<String> = files.iter().map(|f| f.zip_path.clone()).collect();
    names.sort();
    assert_eq!(names, vec!["d/sub".to_string(), "d/x.txt".to_string()]);
    let sub = files.iter().find(|f| f.zip_path == "d/sub").unwrap();
    assert!(sub.is_dir);
    assert_eq!(sub.file_path, "/data/d/sub");
    let x = files.iter().find(|f| f.zip_path == "d/x.txt").unwrap();
    assert!(!x.is_dir);
}

#[test]
fn a_walk_that_starts_with_the_directory_itself_leaves_it_out() {
    let scan = dir(
        "d",
        vec![walked("/work/d", true), walked("/work/d/x.txt", false), walked("/work/d/sub", true)],
    );
    let files = gather_files(vec![scan], "/work").unwrap();
    let got: Vec<(String, String, bool)> = files.iter().map(triple).collect();
    assert_eq!(
        got,
        vec![
            ("/work/d/x.txt".to_string(), "d/x.txt".to_string(), false),
            ("/work/d/sub".to_string(), "d/sub".to_string(), true),
        ]
    );
}

#[test]
fn an_empty_directory_gives_no_descriptors() {
    let scan = dir("/work/empty", vec![walked("/work/empty", true)]);
    assert!(gather_files(vec![scan], "/work").unwrap().is_empty());
}

#[test]
fn the_current_directory_is_named_by_its_own_name() {
    let scan = dir(".", vec![walked("/work/proj/.", true), walked("/work/proj/./a.txt", false)]);
    let files = gather_files(vec![scan], "/work/proj").unwrap();
    let names: Vec<String> = files.iter().map(|f| f.zip_path.clone()).collect();
    assert_eq!(names, vec!["proj/a.txt".to_string()]);
}

#[test]
fn a_trailing_separator_does_not_change_the_names() {
    let scan = dir("/data/d/", vec![walked("/data/d/", true), walked("/data/d/x", false)]);
    let files = gather_files(vec![scan], "/").unwrap();
    let names: Vec<String> = files.iter().map(|f| f.zip_path.clone()).collect();
    assert_eq!(names, vec!["d/x".to_string()]);
}

#[test]
fn gathered_entries_are_well_formed() {
    let scans = vec![
        file("rel.txt"),
        file("/abs/b\\c"),
        dir("tree/.", vec![
            walked("/work/tree/.", true),
            walked("/work/tree/./a/./b", false),
            walked("/work/tree/./a\\.\\c", false),
            walked("/work/tree/./sub", true),
        ]),
    ];
    let files = gather_files(scans, "/work").unwrap();
    assert_eq!(files.len(), 5);
    for f in &files {
        assert!(f.file_path.starts_with('/'));
        assert!(!f.zip_path.is_empty());
        assert!(!f.zip_path.starts_with('/'));
        assert!(!f.zip_path.contains('\\'));
        assert!(!f.zip_path.contains("/./"));
    }
    let names: Vec<&str> = files.iter().map(|f| f.zip_path.as_str()).collect();
    assert_eq!(names, vec!["rel.txt", "b/c", "tree/a/b", "tree/a/c", "tree/sub"]);
}

#[test]
fn a_name_that_would_begin_with_a_slash_is_a_bad_name() {
    match gather_files(vec![file("/data/\\x")], "/") {
        Err(RzError::BadName(path)) => assert_eq!(path, "/data/\\x"),
        other => panic!("{:?}", other),
    }
    let scan = dir("/data/d", vec![walked("/data//x", false)]);
    match gather_files(vec![scan], "/") {
        Err(RzError::BadName(path)) => assert_eq!(path, "/data//x"),
        other => panic!("{:?}", other),
    }
}

#[test]
fn a_missing_source_is_not_found_whatever_its_name() {
    for path in ["/data/..", "/", "gone/."] {
        let scan =
            SourceScan { path: path.to_string(), exists: false, is_file: false, walked: vec![] };
        assert!(matches!(gather_files(vec![scan], "/work"), Err(RzError::FileNotFound(_))));
    }
}

#[test]
fn sources_are_gathered_in_order_and_kept_twice() {
    let scans = vec![
        file("/a/one.txt"),
        dir("/b/d", vec![walked("/b/d/x", false)]),
        file("/a/one.txt"),
    ];
    let files = gather_files(scans, "/").unwrap();
    let names: Vec<String> = files.iter().map(|f| f.zip_path.clone()).collect();
    assert_eq!(names, vec!["one.txt".to_string(), "d/x".to_string(), "one.txt".to_string()]);
}

#[test]
fn no_sources_give_no_descriptors() {
    assert!(gather_files(vec![], "/work").unwrap().is_empty());
}

#[test]
fn a_missing_source_is_not_found() {
    let scan = SourceScan { path: "gone".to_string(), exists: false, is_file: false, walked: vec![] };
    match gather_files(vec![file("/a/ok"), scan], "/work") {
        Err(RzError::FileNotFound(path)) => assert_eq!(path, "/work/gone"),
        other => panic!("{:?}", other),
    }
}

#[test]
fn a_walked_path_that_is_no_text_is_a_bad_name() {
    let bad = WalkedEntry { path: "/data/d/\u{fffd}".to_string(), is_dir: false, is_utf8: false };
    let scan = dir("/data/d", vec![walked("/data/d/ok", false), bad]);
    match gather_files(vec![scan], "/") {
        Err(RzError::BadName(path)) => assert_eq!(path, "/data/d/\u{fffd}"),
        other => panic!("{:?}", other),
    }
}

#[test]
fn a_walked_path_outside_the_directory_is_a_bad_name() {
    let scan = dir("/data/d", vec![walked("/elsewhere/x", false)]);
    match gather_files(vec![scan], "/") {
        Err(RzError::BadName(path)) => assert_eq!(path, "/elsewhere/x"),
        other => panic!("{:?}", other),
    }
}

#[test]
fn a_source_without_a_name_is_a_bad_name() {
    for path in ["/", "/data/..", ""] {
        let scan = dir(path, vec![]);
        match gather_files(vec![scan], "/") {
            Err(RzError::BadName(_)) => {},
            other => panic!("{:?}: {:?}", path, other),
        }
    }
}

#[test]
fn the_first_failure_wins() {
    let gone = SourceScan { path: "/gone".to_string(), exists: false, is_file: false, walked: vec![] };
    let scans = vec![gone, dir("/", vec![])];
    match gather_files(scans, "/") {
        Err(RzError::FileNotFound(path)) => assert_eq!(path, "/gone"),
        other => panic!("{:?}", other),
    }
}
