use kmz_downloader::listing::Listing;
use kmz_downloader::pipeline::Pipeline;
use kmz_downloader::record::{Record, RecordType};

fn record(kind: RecordType, name: &str) -> Record {
    Record { kind, uri: format!("http://h/{}", name), name: name.to_string(), file_size: "1K".to_string() }
}

fn listing() -> Listing {
    Listing {
        is_root: false,
        records: vec![
            record(RecordType::ParentDirectory, "Parent Directory"),
            record(RecordType::Unknown, "RE_1.zip"),
            record(RecordType::Directory, "KMZ_dir.zip"),
            record(RecordType::TextFile, "readme.txt"),
            record(RecordType::Unknown, "RSA-DATA-2.zip"),
        ],
    }
}

#[test]
fn failed_download_does_not_stop_the_run() {
    let mut p = Pipeline::new(listing(), "temp".to_string());
    let first = p.next_fetch().unwrap();
    assert_eq!(first.index, 1);
    assert_eq!(first.uri, "http://h/RE_1.zip");
    assert_eq!(first.path, "temp/RE_1.zip");
    p.report(first.index, false);
    let second = p.next_fetch().unwrap();
    assert_eq!(second.index, 4);
    assert_eq!(second.path, "temp/RSA-DATA-2.zip");
    p.report(second.index, true);
    assert!(p.next_fetch().is_none());
    let (done, failed) = p.finish();
    assert_eq!(done.records.len(), 5);
    assert!(!done.is_root);
    assert_eq!(failed, vec![1]);
}

#[test]
fn nothing_wanted_fetches_nothing() {
    let l = Listing { is_root: true, records: vec![record(RecordType::TextFile, "a.txt")] };
    let mut p = Pipeline::new(l, "w".to_string());
    assert!(p.next_fetch().is_none());
    let (done, failed) = p.finish();
    assert_eq!(done.records.len(), 1);
    assert!(failed.is_empty());
}
