use vstd::prelude::*;
use crate::html::opt_view;

verus! {

/// The run's configuration: the URL of the directory whose index is read.
#[derive(Debug)]
pub struct Config {
    pub dir_url: String,
}

/// Why no configuration could be had.
#[derive(Debug, PartialEq, Eq, Structural)]
pub enum ConfigError {
    /// The text is not YAML, or its first document has no string `dir_url`.
    MissingUrl,
    /// `dir_url` is empty: the run refuses to start.
    EmptyUrl,
}

/// The string under the key `dir_url` of the text's first YAML document.
pub uninterp spec fn yaml_dir_url(text: Seq<char>) -> Option<Seq<char>>;

/// Relies on yaml_rust::YamlLoader::load_from_str and on indexing a Yaml hash by
/// key, which yields BadValue for a missing key, and Yaml::as_str.
#[verifier::external_body]
fn read_dir_url(text: &str) -> (r: Option<String>)
    ensures
        opt_view(r) == yaml_dir_url(text@),
{
    let docs = yaml_rust::YamlLoader::load_from_str(text).ok()?;
    docs.first()?["dir_url"].as_str().map(|s| s.to_string())
}

impl Config {
    /// Reads the configuration from the text of a YAML file.
    pub fn read(text: &str) -> (r: Result<Config, ConfigError>)
        ensures
            match yaml_dir_url(text@) {
                None => r == Err::<Config, ConfigError>(ConfigError::MissingUrl),
                Some(u) => if u.len() == 0 {
                    r == Err::<Config, ConfigError>(ConfigError::EmptyUrl)
                } else {
                    r matches Ok(c) && c.dir_url@ == u
                },
            },
    {
        match read_dir_url(text) {
            None => Err(ConfigError::MissingUrl),
            Some(u) => if u.as_str().is_empty() {
                Err(ConfigError::EmptyUrl)
            } else {
                Ok(Config { dir_url: u })
            },
        }
    }
}

} // verus!
