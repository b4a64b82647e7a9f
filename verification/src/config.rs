//! The settings of an acquisition run, from the values that the
//! environment gives.

use vstd::prelude::*;
use crate::numeral::{parse_unsigned, unsigned_numeral};

verus! {

/// The time between requests where none is set, in milliseconds.
pub const DEFAULT_RATE_LIMIT_MS: u64 = 1000;

/// The settings of an acquisition run.
#[derive(Clone, Debug, PartialEq, Eq)]
pub struct Config {
    /// The address of the relational store.
    pub db_url: String,
    /// The kind of the blob area.
    pub raw_store: String,
    /// The directory of the blob area.
    pub raw_fs_dir: String,
    /// The time to wait before each request, in milliseconds.
    pub rate_limit_ms: u64,
}

pub struct ConfigView {
    pub db_url: Seq<char>,
    pub raw_store: Seq<char>,
    pub raw_fs_dir: Seq<char>,
    pub rate_limit_ms: u64,
}

impl View for Config {
    type V = ConfigView;

    open spec fn view(&self) -> ConfigView {
        ConfigView {
            db_url: self.db_url@,
            raw_store: self.raw_store@,
            raw_fs_dir: self.raw_fs_dir@,
            rate_limit_ms: self.rate_limit_ms,
        }
    }
}

/// A setting that the environment must give is missing.
#[derive(Clone, Copy, Debug, PartialEq, Eq, Structural)]
pub enum ConfigError {
    /// The address of the relational store is not set.
    DbUrlMissing,
}

/// The value that is set, or the default.
pub open spec fn value_or(set: Option<Seq<char>>, default: Seq<char>) -> Seq<char> {
    match set {
        Some(v) => v,
        None => default,
    }
}

/// The rate limit that a value stands for: its unsigned decimal integer,
/// or the default where it is not set or is no such integer.
pub open spec fn rate_limit_of(set: Option<Seq<char>>) -> u64 {
    match set {
        Some(v) => match unsigned_numeral(v) {
            Some(n) => n,
            None => DEFAULT_RATE_LIMIT_MS,
        },
        None => DEFAULT_RATE_LIMIT_MS,
    }
}

/// The settings that the values give. The address of the store must be
/// set; the blob area is the file system under `./data/raw`, and the rate
/// limit one second, unless they are set otherwise.
pub open spec fn config_of(
    db_url: Option<Seq<char>>,
    raw_store: Option<Seq<char>>,
    raw_fs_dir: Option<Seq<char>>,
    rate_limit_ms: Option<Seq<char>>,
) -> Result<ConfigView, ConfigError> {
    match db_url {
        None => Err(ConfigError::DbUrlMissing),
        Some(url) => Ok(
            ConfigView {
                db_url: url,
                raw_store: value_or(raw_store, "fs"@),
                raw_fs_dir: value_or(raw_fs_dir, "./data/raw"@),
                rate_limit_ms: rate_limit_of(rate_limit_ms),
            },
        ),
    }
}

/// The view of settings or of the reason why there are none.
pub open spec fn config_view(r: Result<Config, ConfigError>) -> Result<ConfigView, ConfigError> {
    match r {
        Ok(c) => Ok(c@),
        Err(e) => Err(e),
    }
}

impl Config {
    /// Builds the settings from the values of `DB_URL`, `RAW_STORE`,
    /// `RAW_FS_DIR` and `RATE_LIMIT_MS`, each as far as it is set.
    pub fn from_values(
        db_url: Option<String>,
        raw_store: Option<String>,
        raw_fs_dir: Option<String>,
        rate_limit_ms: Option<String>,
    ) -> (r: Result<Config, ConfigError>)
        ensures
            config_view(r) == config_of(
                db_url.deep_view(),
                raw_store.deep_view(),
                raw_fs_dir.deep_view(),
                rate_limit_ms.deep_view(),
            ),
    {
        let db_url = match db_url {
            Some(url) => url,
            None => {
                return Err(ConfigError::DbUrlMissing);
            },
        };
        let raw_store = match raw_store {
            Some(v) => v,
            None => "fs".to_owned(),
        };
        let raw_fs_dir = match raw_fs_dir {
            Some(v) => v,
            None => "./data/raw".to_owned(),
        };
        let rate_limit_ms = match rate_limit_ms {
            Some(v) => match parse_unsigned(v.as_str()) {
                Some(n) => n,
                None => DEFAULT_RATE_LIMIT_MS,
            },
            None => DEFAULT_RATE_LIMIT_MS,
        };
        Ok(Config { db_url, raw_store, raw_fs_dir, rate_limit_ms })
    }
}

} // verus!
