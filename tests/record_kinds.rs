use kmz_downloader::record::{Record, RecordType, RecordTypeError};

fn record(kind: RecordType, name: &str, uri: &str) -> Record {
    Record { kind, uri: uri.to_string(), name: name.to_string(), file_size: "1K".to_string() }
}

#[test]
fn classify_directory() {
    assert_eq!(RecordType::from_str("[DIR]").unwrap(), RecordType::Directory);
}

#[test]
fn classify_parent_directory() {
    assert_eq!(RecordType::from_str("[PARENTDIR]").unwrap(), RecordType::ParentDirectory);
}

#[test]
fn classify_unknown_marker() {
    assert_eq!(RecordType::from_str("[   ]").unwrap(), RecordType::Unknown);
}

#[test]
fn classify_file_markers() {
    assert_eq!(RecordType::from_str("[TXT]").unwrap(), RecordType::TextFile);
    assert_eq!(RecordType::from_str("[IMG]").unwrap(), RecordType::ImageFile);
    assert_eq!(RecordType::from_str("[VID]").unwrap(), RecordType::VideoFile);
}

#[test]
fn classify_rejects_other_markers() {
    match RecordType::from_str("[XYZ]") {
        Err(RecordTypeError::InvalidRecordType(m)) => assert_eq!(m, "[XYZ]"),
        Ok(k) => panic!("classified as {:?}", k),
    }
    assert!(RecordType::from_str("[dir]").is_err());
    assert!(RecordType::from_str("").is_err());
}

#[test]
fn marker_round_trip() {
    for kind in [
        RecordType::ParentDirectory,
        RecordType::Directory,
        RecordType::TextFile,
        RecordType::ImageFile,
        RecordType::VideoFile,
        RecordType::Unknown,
    ] {
        assert_eq!(RecordType::from_str(&kind.to_string()).unwrap(), kind);
    }
    assert_eq!(RecordType::Unknown.to_string(), "[   ]");
}

#[test]
fn directories_are_never_fetchable() {
    assert!(!record(RecordType::Directory, "RE_1.zip", "http://h/RE_1.zip").is_fetchable());
    assert!(!record(RecordType::ParentDirectory, "KMZ.zip", "http://h/KMZ.zip").is_fetchable());
    assert!(!record(RecordType::Unknown, "RE_1.zip", "").is_fetchable());
    assert!(record(RecordType::Unknown, "RE_1.zip", "http://h/RE_1.zip").is_fetchable());
}

#[test]
fn record_selection_and_paths() {
    let r = record(RecordType::Unknown, "RE_20230101.zip", "http://h/RE_20230101.zip");
    assert!(r.is_kmz());
    assert_eq!(r.download_path("temp"), "temp/RE_20230101.zip");
    let t = record(RecordType::TextFile, "readme.txt", "http://h/readme.txt");
    assert!(!t.is_kmz());
    assert!(t.as_kmz("temp").is_none());
}

#[test]
fn download_target() {
    let r = record(RecordType::Unknown, "RE_1.zip", "http://h/RE_1.zip");
    assert_eq!(r.download("temp"), Some(("http://h/RE_1.zip".to_string(), "temp/RE_1.zip".to_string())));
    assert_eq!(record(RecordType::Directory, "d/", "http://h/d/").download("temp"), None);
    assert_eq!(record(RecordType::TextFile, "a", "").download("temp"), None);
}
