use kmz_downloader::config::{Config, ConfigError};

#[test]
fn reads_directory_url() {
    let c = Config::read("dir_url: http://example.org/data/\n").unwrap();
    assert_eq!(c.dir_url, "http://example.org/data/");
}

#[test]
fn missing_url_is_an_error() {
    assert_eq!(Config::read("other: 1\n").unwrap_err(), ConfigError::MissingUrl);
    assert_eq!(Config::read("").unwrap_err(), ConfigError::MissingUrl);
    assert_eq!(Config::read("dir_url: [1, 2]\n").unwrap_err(), ConfigError::MissingUrl);
}

#[test]
fn empty_url_is_refused() {
    assert_eq!(Config::read("dir_url: ''\n").unwrap_err(), ConfigError::EmptyUrl);
}
