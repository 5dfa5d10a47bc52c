//! The configuration of one run: the API keys and the directory that holds
//! the sessions.

use vstd::prelude::*;

verus! {

/// The keys as the configuration file holds them.
#[derive(Clone, Debug, PartialEq, Eq)]
pub struct JSONConfig {
    pub api_key_cohere: Option<String>,
    pub api_key_openai: Option<String>,
    pub api_key_eleven_labs: Option<String>,
}

/// The keys, and the directory in which the sessions are kept.
#[derive(Clone, Debug, PartialEq, Eq)]
pub struct Config {
    pub api_key_cohere: Option<String>,
    pub api_key_openai: Option<String>,
    pub api_key_eleven_labs: Option<String>,
    pub dir: String,
}

impl Config {
    /// The configuration that holds the keys of `file` and keeps its
    /// sessions under `dir`.
    pub fn with_keys(file: JSONConfig, dir: String) -> (r: Config)
        ensures
            r.api_key_cohere == file.api_key_cohere,
            r.api_key_openai == file.api_key_openai,
            r.api_key_eleven_labs == file.api_key_eleven_labs,
            r.dir == dir,
    {
        Config {
            api_key_cohere: file.api_key_cohere,
            api_key_openai: file.api_key_openai,
            api_key_eleven_labs: file.api_key_eleven_labs,
            dir,
        }
    }
}

impl Default for Config {
    fn default() -> (r: Config)
        ensures
            r.api_key_cohere is None,
            r.api_key_openai is None,
            r.api_key_eleven_labs is None,
            r.dir@ == Seq::<char>::empty(),
    {
        Config {
            api_key_cohere: None,
            api_key_openai: None,
            api_key_eleven_labs: None,
            dir: String::new(),
        }
    }
}

/// The text of a configuration file that holds no key yet.
pub const DEFAULT_CONFIG_FILE: &'static str =
    "{\n    \"api_key\": \"\",\n    \"api_key_cohere\": \"\",\n    \"api_key_openai\": \"\"\n}";

} // verus!
