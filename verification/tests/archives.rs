use rzip_core::append::append;
use rzip_core::compression::compress;
use rzip_core::extraction::extract;
use rzip_core::listing::list;
use rzip_core::{
    CompressionMethod, ExtractedEntry, LoadedEntry, OsFileEntry, Rz, RzEntry, RzError, RzSettings,
};
use std::io::Cursor;
use zip::ZipArchive;

fn none() -> RzSettings {
    RzSettings { method: None, unix_permissions: None, compression_level: None }
}

fn with_method(method: CompressionMethod) -> RzSettings {
    RzSettings { method: Some(method), unix_permissions: None, compression_level: None }
}

fn file_entry(name: &str, data: &[u8]) -> LoadedEntry {
    LoadedEntry {
        entry: OsFileEntry {
            file_path: format!("/src/{}", name),
            zip_path: name.to_string(),
            is_dir: false,
        },
        data: data.to_vec(),
    }
}

fn dir_entry(name: &str) -> LoadedEntry {
    LoadedEntry {
        entry: OsFileEntry {
            file_path: format!("/src/{}", name),
            zip_path: name.to_string(),
            is_dir: true,
        },
        data: vec![],
    }
}

fn tree() -> Vec<LoadedEntry> {
    vec![
        dir_entry("d"),
        file_entry("d/x.txt", b"hello, archive"),
        dir_entry("d/sub"),
        file_entry("d/sub/deep.bin", &[0u8, 1, 2, 3, 255, 254]),
        file_entry("top.txt", b""),
    ]
}

fn paths(lines: &[RzEntry]) -> Vec<(String, bool)> {
    lines.iter().map(|l| (l.path.clone(), l.is_dir)).collect()
}

fn summary(items: &[ExtractedEntry]) -> Vec<(String, bool, Vec<u8>)> {
    items.iter().map(|i| (i.path.clone(), i.is_dir, i.data.clone())).collect()
}

fn names_in(bytes: &[u8]) -> Vec<String> {
    let archive = ZipArchive::new(Cursor::new(bytes.to_vec())).unwrap();
    archive.file_names().map(|n| n.to_string()).collect()
}

fn repetitive() -> Vec<u8> {
    let mut data = Vec::new();
    for i in 0..20000u32 {
        data.push((i % 7) as u8);
    }
    data
}

#[test]
fn round_trip_reproduces_names_and_bytes() {
    let bytes = compress(tree(), none()).unwrap();
    let items = extract(Some(bytes), "a.zip".to_string(), "/out".to_string(), None, none(), "/cwd")
        .unwrap();
    assert_eq!(
        summary(&items),
        vec![
            ("/out/d/".to_string(), true, vec![]),
            ("/out/d/x.txt".to_string(), false, b"hello, archive".to_vec()),
            ("/out/d/sub/".to_string(), true, vec![]),
            ("/out/d/sub/deep.bin".to_string(), false, vec![0u8, 1, 2, 3, 255, 254]),
            ("/out/top.txt".to_string(), false, vec![]),
        ]
    );
}

#[test]
fn round_trip_with_every_method() {
    let methods = [
        CompressionMethod::Stored,
        CompressionMethod::Deflated,
        CompressionMethod::DeflatedZlib,
        CompressionMethod::DeflatedZlibNg,
        CompressionMethod::Bzip2,
        CompressionMethod::Zstd,
    ];
    for method in methods {
        let data = repetitive();
        let bytes = compress(vec![file_entry("r.bin", &data)], with_method(method)).unwrap();
        let items =
            extract(Some(bytes), "/a.zip".to_string(), "/out".to_string(), None, none(), "/")
                .unwrap();
        assert_eq!(items.len(), 1);
        assert_eq!(items[0].path, "/out/r.bin");
        assert_eq!(items[0].data, data);
    }
}

#[test]
fn the_method_of_the_settings_reaches_the_codec() {
    let expected = [
        (CompressionMethod::Stored, zip::CompressionMethod::Stored),
        (CompressionMethod::Deflated, zip::CompressionMethod::Deflated),
        (CompressionMethod::DeflatedZlib, zip::CompressionMethod::Deflated),
        (CompressionMethod::DeflatedZlibNg, zip::CompressionMethod::Deflated),
        (CompressionMethod::Bzip2, zip::CompressionMethod::Bzip2),
        (CompressionMethod::Zstd, zip::CompressionMethod::Zstd),
    ];
    for (method, codec_method) in expected {
        let bytes = compress(vec![file_entry("r.bin", &repetitive())], with_method(method)).unwrap();
        let mut archive = ZipArchive::new(Cursor::new(bytes)).unwrap();
        assert_eq!(archive.by_index(0).unwrap().compression(), codec_method);
    }
}

#[test]
fn without_a_method_the_codec_deflates() {
    let bytes = compress(vec![file_entry("r.bin", &repetitive())], none()).unwrap();
    let mut archive = ZipArchive::new(Cursor::new(bytes)).unwrap();
    assert_eq!(archive.by_index(0).unwrap().compression(), zip::CompressionMethod::Deflated);
}

#[test]
fn the_level_of_the_settings_reaches_the_codec() {
    let at = |level: i64| {
        let settings = RzSettings {
            method: Some(CompressionMethod::Deflated),
            unix_permissions: None,
            compression_level: Some(level),
        };
        compress(vec![file_entry("r.bin", &repetitive())], settings)
    };
    assert!(matches!(at(0), Err(RzError::ZipError(_))));
    assert!(at(1).is_ok());
    assert!(at(9).is_ok());
    assert!(matches!(at(265), Err(RzError::ZipError(_))));
    assert!(matches!(at(-1), Err(RzError::ZipError(_))));
}

#[test]
fn a_level_that_the_method_does_not_take_is_a_codec_error() {
    let settings = RzSettings {
        method: Some(CompressionMethod::Stored),
        unix_permissions: None,
        compression_level: Some(5),
    };
    match compress(vec![file_entry("r.bin", b"abc")], settings) {
        Err(RzError::ZipError(_)) => {},
        other => panic!("{:?}", other.map(|b| b.len())),
    }
}

#[test]
fn the_permissions_of_the_settings_reach_the_codec() {
    let settings = RzSettings {
        method: None,
        unix_permissions: Some(0o7750),
        compression_level: None,
    };
    let bytes = compress(vec![file_entry("run.sh", b"#!/bin/sh\n")], settings).unwrap();
    let mut archive = ZipArchive::new(Cursor::new(bytes)).unwrap();
    assert_eq!(archive.by_index(0).unwrap().unix_mode(), Some(0o100750));
}

#[test]
fn extraction_restores_the_stored_mode() {
    let settings = RzSettings {
        method: None,
        unix_permissions: Some(0o600),
        compression_level: None,
    };
    let bytes = compress(vec![file_entry("secret", b"s"), dir_entry("d")], settings).unwrap();
    let items =
        extract(Some(bytes), "/a.zip".to_string(), "/out".to_string(), None, none(), "/").unwrap();
    assert_eq!(items[0].mode, Some(0o100600));
    assert_eq!(items[1].mode, Some(0o40600));
}

#[test]
fn extraction_prefers_the_mode_of_the_settings() {
    let bytes = compress(vec![file_entry("f", b"s"), dir_entry("d")], none()).unwrap();
    let settings = RzSettings {
        method: None,
        unix_permissions: Some(0o755),
        compression_level: None,
    };
    let items =
        extract(Some(bytes.clone()), "/a.zip".to_string(), "/out".to_string(), None, settings, "/")
            .unwrap();
    assert_eq!(items[0].mode, Some(0o755));
    assert_eq!(items[1].mode, Some(0o755));
    let items =
        extract(Some(bytes), "/a.zip".to_string(), "/out".to_string(), None, none(), "/").unwrap();
    assert_eq!(items[0].mode, Some(0o100644));
    assert_eq!(items[1].mode, Some(0o40755));
}

#[test]
fn extraction_names_the_parent_of_each_file() {
    let bytes = compress(vec![file_entry("a/b/c.txt", b"c"), dir_entry("a/d")], none()).unwrap();
    let items =
        extract(Some(bytes), "/a.zip".to_string(), "out".to_string(), None, none(), "/cwd").unwrap();
    assert_eq!(items[0].path, "/cwd/out/a/b/c.txt");
    assert_eq!(items[0].parent, Some("/cwd/out/a/b".to_string()));
    assert_eq!(items[1].path, "/cwd/out/a/d/");
    assert!(items[1].is_dir);
    assert_eq!(items[1].parent, None);
}

#[test]
fn entries_that_would_leave_the_destination_are_skipped() {
    let files = vec![
        file_entry("ok.txt", b"ok"),
        file_entry("../evil.txt", b"evil"),
        file_entry("/etc/passwd", b"root"),
        file_entry("a/../../evil2", b"evil"),
        file_entry("a/../fine", b"fine"),
    ];
    let bytes = compress(files, none()).unwrap();
    assert_eq!(names_in(&bytes).len(), 5);
    let items =
        extract(Some(bytes), "/a.zip".to_string(), "/out".to_string(), None, none(), "/").unwrap();
    let got: Vec<String> = items.iter().map(|i| i.path.clone()).collect();
    assert_eq!(got, vec!["/out/ok.txt".to_string(), "/out/a/../fine".to_string()]);
    for item in &items {
        assert!(item.path.starts_with("/out/"));
    }
}

#[test]
fn a_picked_entry_that_would_leave_the_destination_is_skipped() {
    let bytes = compress(vec![file_entry("../evil.txt", b"evil")], none()).unwrap();
    let pick = Some(vec!["../evil.txt".to_string()]);
    let items =
        extract(Some(bytes), "/a.zip".to_string(), "/out".to_string(), pick, none(), "/").unwrap();
    assert!(items.is_empty());
}

#[test]
fn picking_takes_the_named_entries_in_the_order_of_the_names() {
    let bytes = compress(tree(), none()).unwrap();
    let pick = Some(vec!["top.txt".to_string(), "d/x.txt".to_string()]);
    let items =
        extract(Some(bytes), "/a.zip".to_string(), "/out".to_string(), pick, none(), "/").unwrap();
    assert_eq!(
        summary(&items),
        vec![
            ("/out/top.txt".to_string(), false, vec![]),
            ("/out/d/x.txt".to_string(), false, b"hello, archive".to_vec()),
        ]
    );
}

#[test]
fn picking_a_missing_name_fails_and_takes_nothing_out() {
    let bytes = compress(tree(), none()).unwrap();
    let pick = Some(vec!["top.txt".to_string(), "absent".to_string(), "also-absent".to_string()]);
    match extract(Some(bytes), "/a.zip".to_string(), "/out".to_string(), pick, none(), "/") {
        Err(RzError::EntryNotFound(name)) => assert_eq!(name, "absent"),
        other => panic!("{:?}", other),
    }
}

#[test]
fn picking_matches_names_exactly() {
    let bytes = compress(tree(), none()).unwrap();
    let pick = Some(vec!["d".to_string()]);
    match extract(Some(bytes.clone()), "/a.zip".to_string(), "/out".to_string(), pick, none(), "/") {
        Err(RzError::EntryNotFound(name)) => assert_eq!(name, "d"),
        other => panic!("{:?}", other),
    }
    let pick = Some(vec!["d/".to_string()]);
    let items =
        extract(Some(bytes), "/a.zip".to_string(), "/out".to_string(), pick, none(), "/").unwrap();
    assert_eq!(summary(&items), vec![("/out/d/".to_string(), true, vec![])]);
}

#[test]
fn extracting_without_a_file_is_not_found() {
    match extract(None, "a.zip".to_string(), "out".to_string(), None, none(), "/cwd") {
        Err(RzError::FileNotFound(path)) => assert_eq!(path, "/cwd/a.zip"),
        other => panic!("{:?}", other),
    }
}

#[test]
fn extracting_from_bytes_that_are_no_archive_is_a_codec_error() {
    let garbage = b"this is not an archive".to_vec();
    match extract(Some(garbage), "/a.zip".to_string(), "/out".to_string(), None, none(), "/") {
        Err(RzError::ZipError(_)) => {},
        other => panic!("{:?}", other),
    }
}

#[test]
fn bytes_that_fail_their_checksum_are_an_io_error() {
    let payload = b"0123456789abcdef0123456789abcdef";
    let bytes =
        compress(vec![file_entry("f.bin", payload)], with_method(CompressionMethod::Stored)).unwrap();
    let at = bytes.windows(payload.len()).position(|w| w == payload).unwrap();
    let mut damaged = bytes.clone();
    damaged[at] ^= 0xff;
    match extract(Some(damaged), "/a.zip".to_string(), "/out".to_string(), None, none(), "/") {
        Err(RzError::IoError(_)) => {},
        other => panic!("{:?}", other),
    }
}

#[test]
fn names_must_differ_within_an_archive() {
    let files = vec![file_entry("same", b"1"), file_entry("same", b"2")];
    match compress(files, none()) {
        Err(RzError::ZipError(_)) => {},
        other => panic!("{:?}", other.map(|b| b.len())),
    }
    let files = vec![dir_entry("d"), dir_entry("d/")];
    match compress(files, none()) {
        Err(RzError::ZipError(_)) => {},
        other => panic!("{:?}", other.map(|b| b.len())),
    }
}

#[test]
fn a_directory_is_stored_with_a_trailing_slash() {
    let bytes = compress(vec![dir_entry("d"), dir_entry("e/"), dir_entry("f\\")], none()).unwrap();
    assert_eq!(names_in(&bytes), vec!["d/".to_string(), "e/".to_string(), "f\\".to_string()]);
}

#[test]
fn an_empty_archive_round_trips() {
    let bytes = compress(vec![], none()).unwrap();
    assert!(names_in(&bytes).is_empty());
    let items =
        extract(Some(bytes.clone()), "/a.zip".to_string(), "/out".to_string(), None, none(), "/")
            .unwrap();
    assert!(items.is_empty());
    assert!(list(Some(bytes), "/a.zip".to_string(), None, "/").unwrap().is_empty());
}

#[test]
fn listing_with_a_prefix() {
    let bytes = compress(vec![file_entry("d/x.txt", b"x"), file_entry("e/y.txt", b"y")], none())
        .unwrap();
    let lines =
        list(Some(bytes), "/a.zip".to_string(), Some(vec!["d/".to_string()]), "/").unwrap();
    assert_eq!(paths(&lines), vec![("d/x.txt".to_string(), false)]);
}

#[test]
fn listing_without_a_prefix_shows_every_entry_in_index_order() {
    let bytes = compress(tree(), none()).unwrap();
    let expected = vec![
        ("d/".to_string(), true),
        ("d/x.txt".to_string(), false),
        ("d/sub/".to_string(), true),
        ("d/sub/deep.bin".to_string(), false),
        ("top.txt".to_string(), false),
    ];
    let lines = list(Some(bytes.clone()), "/a.zip".to_string(), None, "/").unwrap();
    assert_eq!(paths(&lines), expected);
    let lines = list(Some(bytes.clone()), "/a.zip".to_string(), Some(vec![]), "/").unwrap();
    assert_eq!(paths(&lines), expected);
    let lines =
        list(Some(bytes), "/a.zip".to_string(), Some(vec!["".to_string()]), "/").unwrap();
    assert_eq!(paths(&lines), expected);
}

#[test]
fn listing_uses_the_first_picked_name_only() {
    let bytes = compress(tree(), none()).unwrap();
    let pick = Some(vec!["d/sub".to_string(), "top".to_string()]);
    let lines = list(Some(bytes), "/a.zip".to_string(), pick, "/").unwrap();
    assert_eq!(
        paths(&lines),
        vec![("d/sub/".to_string(), true), ("d/sub/deep.bin".to_string(), false)]
    );
}

#[test]
fn listing_without_a_file_is_not_found() {
    match list(None, "a.zip".to_string(), None, "/cwd") {
        Err(RzError::FileNotFound(path)) => assert_eq!(path, "/cwd/a.zip"),
        other => panic!("{:?}", other),
    }
}

#[test]
fn appending_keeps_the_entries_and_adds_the_new_ones_after_them() {
    let first = compress(tree(), none()).unwrap();
    let more = vec![file_entry("new.txt", b"new"), dir_entry("newdir")];
    let second = append(Some(first.clone()), "/a.zip".to_string(), more, none()).unwrap();
    let mut expected = names_in(&first);
    expected.push("new.txt".to_string());
    expected.push("newdir/".to_string());
    assert_eq!(names_in(&second), expected);
    let before =
        extract(Some(first), "/a.zip".to_string(), "/out".to_string(), None, none(), "/").unwrap();
    let after =
        extract(Some(second), "/a.zip".to_string(), "/out".to_string(), None, none(), "/").unwrap();
    assert_eq!(summary(&after[..before.len()]), summary(&before));
    assert_eq!(
        summary(&after[before.len()..]),
        vec![
            ("/out/new.txt".to_string(), false, b"new".to_vec()),
            ("/out/newdir/".to_string(), true, vec![]),
        ]
    );
}

#[test]
fn appending_leaves_the_stored_bytes_as_they_were() {
    let payload = repetitive();
    let first = compress(vec![file_entry("r.bin", &payload)], none()).unwrap();
    let second =
        append(Some(first.clone()), "/a.zip".to_string(), vec![file_entry("n", b"n")], none())
            .unwrap();
    let stored = |bytes: &[u8]| {
        let mut archive = ZipArchive::new(Cursor::new(bytes.to_vec())).unwrap();
        let file = archive.by_index(0).unwrap();
        let start = file.data_start() as usize;
        let len = file.compressed_size() as usize;
        (start, bytes[start..start + len].to_vec(), file.crc32())
    };
    assert_eq!(stored(&first), stored(&second));
    assert_eq!(second[..stored(&first).0], first[..stored(&first).0]);
}

#[test]
fn appending_a_name_that_is_in_the_archive_is_a_codec_error() {
    let first = compress(tree(), none()).unwrap();
    match append(Some(first), "/a.zip".to_string(), vec![file_entry("top.txt", b"again")], none()) {
        Err(RzError::ZipError(_)) => {},
        other => panic!("{:?}", other.map(|b| b.len())),
    }
}

#[test]
fn appending_without_a_file_is_not_found() {
    match append(None, "/gone.zip".to_string(), vec![file_entry("a", b"a")], none()) {
        Err(RzError::FileNotFound(path)) => assert_eq!(path, "/gone.zip"),
        other => panic!("{:?}", other.map(|b| b.len())),
    }
}

#[test]
fn appending_to_bytes_that_are_no_archive_is_a_codec_error() {
    match append(Some(vec![1, 2, 3]), "/a.zip".to_string(), vec![], none()) {
        Err(RzError::ZipError(_)) => {},
        other => panic!("{:?}", other.map(|b| b.len())),
    }
}

#[test]
fn opening_without_a_file_leaves_the_session_closed() {
    let mut rz = Rz::new("/gone.zip".to_string());
    match rz.open(None, true) {
        Err(RzError::FileNotFound(path)) => assert_eq!(path, "/gone.zip"),
        other => panic!("{:?}", other),
    }
    assert!(matches!(rz.list("".to_string()), Err(RzError::RZNotReady)));
    assert!(matches!(rz.extract_all("/out".to_string()), Err(RzError::RZNotReady)));
    assert!(matches!(
        rz.append_entries(vec![file_entry("a", b"a")], none()),
        Err(RzError::RZNotReady)
    ));
    assert!(matches!(rz.close(), Ok(None)));
}

#[test]
fn opening_bytes_that_are_no_archive_leaves_the_session_closed() {
    let mut rz = Rz::new("/a.zip".to_string());
    assert!(matches!(rz.open(Some(b"garbage".to_vec()), true), Err(RzError::ZipError(_))));
    assert!(matches!(rz.list("".to_string()), Err(RzError::RZNotReady)));
}

#[test]
fn a_closed_session_is_not_ready() {
    let mut rz = Rz::new("/a.zip".to_string());
    assert!(matches!(rz.list("".to_string()), Err(RzError::RZNotReady)));
    assert!(matches!(rz.extract_all("/out".to_string()), Err(RzError::RZNotReady)));
    assert!(matches!(
        rz.extract_picking("/out".to_string(), vec!["a".to_string()]),
        Err(RzError::RZNotReady)
    ));
    assert!(matches!(
        rz.append(file_entry("a", b"a").entry, b"a".to_vec(), none()),
        Err(RzError::RZNotReady)
    ));
}

#[test]
fn a_session_opened_for_reading_cannot_append() {
    let bytes = compress(tree(), none()).unwrap();
    let mut rz = Rz::new("/a.zip".to_string());
    rz.open(Some(bytes), false).unwrap();
    assert!(matches!(
        rz.append_entries(vec![file_entry("a", b"a")], none()),
        Err(RzError::RZNotReady)
    ));
    assert_eq!(rz.list("top".to_string()).unwrap().len(), 1);
    assert!(matches!(rz.close(), Ok(None)));
}

#[test]
fn a_session_reads_and_appends() {
    let bytes = compress(tree(), none()).unwrap();
    let mut rz = Rz::new("/a.zip".to_string());
    rz.open(Some(bytes), true).unwrap();
    assert_eq!(rz.list("".to_string()).unwrap().len(), 5);
    rz.append(file_entry("one", b"1").entry, b"1".to_vec(), none()).unwrap();
    rz.append_entries(vec![dir_entry("two"), file_entry("two/three", b"3")], none()).unwrap();
    let items = rz.extract_picking("/out".to_string(), vec!["d/x.txt".to_string()]).unwrap();
    assert_eq!(summary(&items), vec![("/out/d/x.txt".to_string(), false, b"hello, archive".to_vec())]);
    assert_eq!(rz.extract_all("/out/".to_string()).unwrap().len(), 5);
    let finished = rz.close().unwrap().unwrap();
    assert_eq!(
        names_in(&finished),
        vec![
            "d/".to_string(),
            "d/x.txt".to_string(),
            "d/sub/".to_string(),
            "d/sub/deep.bin".to_string(),
            "top.txt".to_string(),
            "one".to_string(),
            "two/".to_string(),
            "two/three".to_string(),
        ]
    );
}

#[test]
fn a_session_picks_all_or_nothing() {
    let bytes = compress(tree(), none()).unwrap();
    let mut rz = Rz::new("/a.zip".to_string());
    rz.open(Some(bytes), false).unwrap();
    match rz.extract_picking("/out".to_string(), vec!["top.txt".to_string(), "nope".to_string()]) {
        Err(RzError::EntryNotFound(name)) => assert_eq!(name, "nope"),
        other => panic!("{:?}", other),
    }
}

#[test]
fn a_name_that_the_index_has_no_room_for_is_a_bad_name() {
    let long = "n".repeat(65_536);
    match compress(vec![file_entry(&long, b"x")], none()) {
        Err(RzError::BadName(name)) => assert_eq!(name.len(), 65_536),
        other => panic!("{:?}", other.map(|b| b.len())),
    }
    let fits = "n".repeat(65_535);
    assert_eq!(names_in(&compress(vec![file_entry(&fits, b"x")], none()).unwrap()), vec![fits.clone()]);
    match compress(vec![dir_entry(&fits)], none()) {
        Err(RzError::BadName(_)) => {},
        other => panic!("{:?}", other.map(|b| b.len())),
    }
    let mut with_slash = "n".repeat(65_534);
    with_slash.push('/');
    assert!(compress(vec![dir_entry(&with_slash)], none()).is_ok());
}

fn with_entry_comment(archive: &[u8], comment: &[u8]) -> Vec<u8> {
    let central = archive.windows(4).rposition(|w| w == [0x50, 0x4b, 0x01, 0x02]).unwrap();
    let end = archive.windows(4).rposition(|w| w == [0x50, 0x4b, 0x05, 0x06]).unwrap();
    let name_len = u16::from_le_bytes([archive[central + 28], archive[central + 29]]) as usize;
    let extra_len = u16::from_le_bytes([archive[central + 30], archive[central + 31]]) as usize;
    let at = central + 46 + name_len + extra_len;
    let mut out = archive[..at].to_vec();
    out.extend_from_slice(comment);
    out.extend_from_slice(&archive[at..]);
    let len = (comment.len() as u16).to_le_bytes();
    out[central + 32] = len[0];
    out[central + 33] = len[1];
    let end = end + comment.len();
    let size = u32::from_le_bytes([out[end + 12], out[end + 13], out[end + 14], out[end + 15]])
        + comment.len() as u32;
    out[end + 12..end + 16].copy_from_slice(&size.to_le_bytes());
    out
}

#[test]
fn an_archive_with_a_short_entry_comment_is_appended_to() {
    let plain = compress(vec![file_entry("a", b"a")], with_method(CompressionMethod::Stored)).unwrap();
    let archive = with_entry_comment(&plain, b"a comment");
    let out = append(Some(archive), "/a.zip".to_string(), vec![file_entry("b", b"b")], none()).unwrap();
    assert_eq!(names_in(&out), vec!["a".to_string(), "b".to_string()]);
}

#[test]
fn an_archive_whose_comment_has_no_room_in_the_index_is_not_appended_to() {
    let plain = compress(vec![file_entry("a", b"a")], with_method(CompressionMethod::Stored)).unwrap();
    let archive = with_entry_comment(&plain, &vec![0xb0u8; 30_000]);
    assert_eq!(list(Some(archive.clone()), "/a.zip".to_string(), None, "/").unwrap().len(), 1);
    match append(Some(archive.clone()), "/a.zip".to_string(), vec![file_entry("b", b"b")], none()) {
        Err(RzError::GeneralError(_)) => {},
        other => panic!("{:?}", other.map(|b| b.len())),
    }
    let mut rz = Rz::new("/a.zip".to_string());
    rz.open(Some(archive.clone()), true).unwrap();
    assert!(matches!(rz.append_entries(vec![file_entry("b", b"b")], none()), Err(RzError::GeneralError(_))));
    assert_eq!(rz.close().unwrap(), Some(archive));
}

#[test]
fn an_append_that_fails_leaves_the_session_as_it_was() {
    let bytes = compress(tree(), none()).unwrap();
    let mut rz = Rz::new("/a.zip".to_string());
    rz.open(Some(bytes.clone()), true).unwrap();
    let files = vec![file_entry("fresh", b"f"), file_entry("top.txt", b"again")];
    assert!(matches!(rz.append_entries(files, none()), Err(RzError::ZipError(_))));
    assert_eq!(rz.close().unwrap(), Some(bytes));
}

#[test]
fn closing_hands_back_the_bytes_that_were_opened_when_nothing_was_appended() {
    let bytes = compress(tree(), none()).unwrap();
    let mut rz = Rz::new("/a.zip".to_string());
    rz.open(Some(bytes.clone()), true).unwrap();
    assert_eq!(rz.close().unwrap(), Some(bytes));
}

#[test]
fn entries_with_portable_names_are_all_taken_out() {
    let files = vec![
        dir_entry("d"),
        file_entry("d/a.txt", b"a"),
        file_entry("d/./b", b"b"),
        file_entry("d/../c", b"c"),
        file_entry("e//f", b"f"),
    ];
    let bytes = compress(files, none()).unwrap();
    let items =
        extract(Some(bytes), "/a.zip".to_string(), "/out".to_string(), None, none(), "/").unwrap();
    assert_eq!(items.len(), 5);
}

