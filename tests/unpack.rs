use std::io::{Cursor, Write};

use kmz_downloader::kmz::{is_contained, join_path, plan_entry, CompressedKMZ, UnpackError};

fn zip_of(entries: &[(&str, &[u8])]) -> Vec<u8> {
    let mut w = zip::ZipWriter::new(Cursor::new(Vec::new()));
    for (name, data) in entries {
        w.start_file(*name, zip::write::SimpleFileOptions::default()).unwrap();
        w.write_all(data).unwrap();
    }
    w.finish().unwrap().into_inner()
}

fn handle() -> CompressedKMZ {
    CompressedKMZ::from_checked("temp/RE_1.zip".to_string(), true).unwrap()
}

#[test]
fn nested_inner_archive_is_extracted() {
    let bytes = zip_of(&[("a/b.kmz", b"inner archive bytes")]);
    let plan = handle().unpack(&bytes, "dest").unwrap();
    assert_eq!(plan.directories, vec!["dest/a".to_string()]);
    assert_eq!(plan.files.len(), 1);
    assert_eq!(plan.files[0].path, "dest/a/b.kmz");
    assert_eq!(plan.files[0].data, b"inner archive bytes".to_vec());
    assert!(!plan.files[0].opens);
    assert!(plan.failed.is_empty());
}

#[test]
fn no_inner_archive_means_no_extraction() {
    let bytes = zip_of(&[("notes.txt", b"x"), ("doc/readme.kml", b"<kml/>"), ("c.kmzz", b"y")]);
    let plan = handle().unpack(&bytes, "dest").unwrap();
    assert!(plan.files.is_empty());
    assert!(plan.failed.is_empty());
    assert_eq!(plan.directories, vec!["dest/doc".to_string()]);
}

#[test]
fn entries_keep_container_order() {
    let bytes = zip_of(&[("x/y/one.kmz", b"1"), ("two.kmz", b"22")]);
    let plan = handle().unpack(&bytes, "out").unwrap();
    assert_eq!(plan.directories, vec!["out/x/y".to_string()]);
    let paths: Vec<&str> = plan.files.iter().map(|f| f.path.as_str()).collect();
    assert_eq!(paths, vec!["out/x/y/one.kmz", "out/two.kmz"]);
    assert_eq!(plan.files[1].data, b"22".to_vec());
}

#[test]
fn unreadable_container_is_corrupt() {
    let r = handle().unpack(&b"not a zip archive".to_vec(), "dest");
    assert!(matches!(r, Err(UnpackError::CorruptArchive)));
    assert!(matches!(handle().unpack(&Vec::new(), "dest"), Err(UnpackError::CorruptArchive)));
}

#[test]
fn empty_archive_plans_nothing() {
    let plan = handle().unpack(&zip_of(&[]), "dest").unwrap();
    assert!(plan.directories.is_empty() && plan.files.is_empty() && plan.failed.is_empty());
    assert!(plan.rejected.is_empty());
}

#[test]
fn entry_actions() {
    let a = plan_entry("a/b.kmz", "d");
    assert_eq!(a.directory, Some("d/a".to_string()));
    assert_eq!(a.extract_to, Some("d/a/b.kmz".to_string()));
    let b = plan_entry("file.kml", "d");
    assert_eq!(b.directory, None);
    assert_eq!(b.extract_to, None);
    let c = plan_entry("dir/", "d");
    assert_eq!(c.directory, Some("d/dir".to_string()));
    assert_eq!(join_path("temp", "x.zip"), "temp/x.zip");
}

#[test]
fn handles_need_an_existing_path() {
    assert!(CompressedKMZ::new(String::new()).is_none());
    assert!(CompressedKMZ::from_checked("p".to_string(), false).is_none());
    assert!(CompressedKMZ::from_checked(String::new(), true).is_none());
    assert_eq!(CompressedKMZ::from_checked("p".to_string(), true).unwrap().path(), "p");
    assert!(CompressedKMZ::new("no/such/dir/RE_1.zip".to_string()).is_none());
}

#[test]
fn inner_archive_that_opens() {
    let inner = zip_of(&[("doc.kml", b"<kml></kml>")]);
    let outer = zip_of(&[("RE_1/layer.kmz", inner.as_slice())]);
    let plan = handle().unpack(&outer, "temp").unwrap();
    assert_eq!(plan.files.len(), 1);
    assert_eq!(plan.files[0].path, "temp/RE_1/layer.kmz");
    assert_eq!(plan.files[0].data, inner);
    assert!(plan.files[0].opens);
}

#[test]
fn names_leaving_the_destination_are_rejected() {
    let bytes = zip_of(&[
        ("../x.kmz", b"1"),
        ("/abs/y.kmz", b"2"),
        ("a/../../z.kmz", b"3"),
        ("ok/..name.kmz", b"4"),
        ("up/..", b"5"),
    ]);
    let plan = handle().unpack(&bytes, "dest").unwrap();
    assert_eq!(
        plan.rejected,
        vec!["../x.kmz".to_string(), "/abs/y.kmz".to_string(), "a/../../z.kmz".to_string(), "up/..".to_string()]
    );
    assert_eq!(plan.directories, vec!["dest/ok".to_string()]);
    assert_eq!(plan.files.len(), 1);
    assert_eq!(plan.files[0].path, "dest/ok/..name.kmz");
    assert!(plan.failed.is_empty());
}

#[test]
fn containment_check() {
    assert!(is_contained("a/b.kmz"));
    assert!(is_contained("..a/b..c"));
    assert!(is_contained(""));
    assert!(!is_contained(".."));
    assert!(!is_contained("a/.."));
    assert!(!is_contained("../a"));
    assert!(!is_contained("/a"));
}
