use kmz_downloader::select::is_selected;

#[test]
fn selects_archive_names() {
    assert!(is_selected("RE_20230101.zip"));
    assert!(is_selected("foo_KMZ_bar.zip"));
    assert!(is_selected("RSA-DATA-export.zip"));
    assert!(is_selected("KMZ.zip"));
}

#[test]
fn rejects_other_names() {
    assert!(!is_selected("readme.txt"));
    assert!(!is_selected("archive.ZIP"));
    assert!(!is_selected("KMZ_noextension"));
    assert!(!is_selected("RE_data.zip.bak"));
    assert!(!is_selected("plain.zip"));
    assert!(!is_selected("kmz_lower.zip"));
    assert!(!is_selected(""));
}

#[test]
fn token_may_be_separated_by_any_text() {
    assert!(is_selected("RE_a\nb.zip"));
    assert!(is_selected("xxRSA-DATAyy.zip"));
}
