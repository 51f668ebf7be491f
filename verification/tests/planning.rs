use rzip_core::codec::EntryInfo;
use rzip_core::extraction::{extract_all, extract_file, extract_with_picking, plan_entry};
use rzip_core::listing::list_entries;
use rzip_core::compression::compress;
use rzip_core::{LoadedEntry, OsFileEntry, RzError, RzSettings};
use std::io::Cursor;
use zip::ZipArchive;

fn none() -> RzSettings {
    RzSettings { method: None, unix_permissions: None, compression_level: None }
}

fn info(name: &str, enclosed: Option<&str>, is_dir: bool, unix_mode: Option<u32>) -> EntryInfo {
    EntryInfo {
        name: name.to_string(),
        enclosed_name: enclosed.map(str::to_string),
        is_dir,
        unix_mode,
    }
}

fn archive(names: &[(&str, bool)]) -> ZipArchive<Cursor<Vec<u8>>> {
    let files = names
        .iter()
        .map(|(name, is_dir)| LoadedEntry {
            entry: OsFileEntry {
                file_path: format!("/src/{}", name),
                zip_path: name.to_string(),
                is_dir: *is_dir,
            },
            data: name.as_bytes().to_vec(),
        })
        .collect();
    ZipArchive::new(Cursor::new(compress(files, none()).unwrap())).unwrap()
}

#[test]
fn a_file_is_planned_under_the_destination() {
    let item = plan_entry(&info("a/b.txt", Some("a/b.txt"), false, Some(0o100644)), "/out", &none())
        .unwrap();
    assert_eq!(item.path, "/out/a/b.txt");
    assert!(!item.is_dir);
    assert_eq!(item.parent, Some("/out/a".to_string()));
    assert!(item.data.is_empty());
    assert_eq!(item.mode, Some(0o100644));
}

#[test]
fn a_directory_is_planned_without_a_parent() {
    let item = plan_entry(&info("a/", Some("a/"), true, None), "/out/", &none()).unwrap();
    assert_eq!(item.path, "/out/a/");
    assert!(item.is_dir);
    assert_eq!(item.parent, None);
    assert_eq!(item.mode, None);
}

#[test]
fn the_mode_of_the_settings_overrides_the_stored_one() {
    let settings = RzSettings { method: None, unix_permissions: Some(0o700), compression_level: None };
    let stored = plan_entry(&info("f", Some("f"), false, Some(0o644)), "/out", &settings).unwrap();
    assert_eq!(stored.mode, Some(0o700));
    let bare = plan_entry(&info("f", Some("f"), false, None), "/out", &settings).unwrap();
    assert_eq!(bare.mode, Some(0o700));
}

#[test]
fn an_entry_without_a_safe_name_is_skipped() {
    assert!(plan_entry(&info("../x", None, false, None), "/out", &none()).is_none());
}

#[test]
fn an_entry_whose_name_is_not_confined_is_skipped_whatever_the_codec_says() {
    for name in ["../x", "/abs", "a/../../x", "..", "a\0b"] {
        assert!(plan_entry(&info(name, Some(name), false, None), "/out", &none()).is_none());
    }
}

#[test]
fn extracting_one_entry() {
    let mut zip = archive(&[("d", true), ("d/f.txt", false), ("../up", false)]);
    let dir = extract_file(&mut zip, 0, "/out", &none()).unwrap().unwrap();
    assert_eq!((dir.path.as_str(), dir.is_dir, dir.data.len()), ("/out/d/", true, 0));
    let file = extract_file(&mut zip, 1, "/out", &none()).unwrap().unwrap();
    assert_eq!(file.path, "/out/d/f.txt");
    assert_eq!(file.data, b"d/f.txt".to_vec());
    assert!(extract_file(&mut zip, 2, "/out", &none()).unwrap().is_none());
    assert!(matches!(extract_file(&mut zip, 3, "/out", &none()), Err(RzError::ZipError(_))));
}

#[test]
fn extracting_from_an_open_archive() {
    let mut zip = archive(&[("a", false), ("b", false), ("c", false)]);
    let all = extract_all(&mut zip, "out", &none()).unwrap();
    let paths: Vec<&str> = all.iter().map(|i| i.path.as_str()).collect();
    assert_eq!(paths, vec!["out/a", "out/b", "out/c"]);
    let pick = vec!["c".to_string(), "a".to_string(), "c".to_string()];
    let picked = extract_with_picking(&mut zip, "", &pick, &none()).unwrap();
    let paths: Vec<&str> = picked.iter().map(|i| i.path.as_str()).collect();
    assert_eq!(paths, vec!["c", "a", "c"]);
}

#[test]
fn listing_an_open_archive() {
    let mut zip = archive(&[("d/x.txt", false), ("e/y.txt", false), ("d", true)]);
    let lines = list_entries(&mut zip, "d").unwrap();
    let got: Vec<(&str, bool)> = lines.iter().map(|l| (l.path.as_str(), l.is_dir)).collect();
    assert_eq!(got, vec![("d/x.txt", false), ("d/", true)]);
    assert!(list_entries(&mut zip, "zzz").unwrap().is_empty());
}
