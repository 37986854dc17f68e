//! The configuration that the engine is given: where the signature
//! database lies.

use vstd::prelude::*;
use vstd::string::*;
use crate::error::ConfigError;

verus! {

/// The two paths that name the signature database. The configuration is a
/// value handed to the engine, never state of the process.
#[derive(Clone, Debug, PartialEq, Eq)]
pub struct ScanConfig {
    /// The resolved base path.
    pub base_path: String,
    /// The path of the signature database, relative to the base path.
    pub signature_db: String,
}

/// A configuration as a mathematical value.
pub struct ConfigView {
    pub base_path: Seq<char>,
    pub signature_db: Seq<char>,
}

impl View for ScanConfig {
    type V = ConfigView;

    open spec fn view(&self) -> ConfigView {
        ConfigView { base_path: self.base_path@, signature_db: self.signature_db@ }
    }
}

/// The key of the base path among the settings.
pub open spec fn base_path_key() -> Seq<char> {
    "GENERAL_BASE_PATH"@
}

/// The key of the database's relative path among the settings.
pub open spec fn signature_db_key() -> Seq<char> {
    "MALWARE_HASH"@
}

/// The settings, each as a key and a value in characters.
pub open spec fn settings_of(settings: Seq<(String, String)>) -> Seq<(Seq<char>, Seq<char>)> {
    settings.map_values(|setting: (String, String)| (setting.0@, setting.1@))
}

/// The value of the first setting with the key `key`, if there is one.
pub open spec fn setting(settings: Seq<(Seq<char>, Seq<char>)>, key: Seq<char>) -> Option<
    Seq<char>,
>
    decreases settings.len(),
{
    if settings.len() == 0 {
        None
    } else if settings[0].0 == key {
        Some(settings[0].1)
    } else {
        setting(settings.skip(1), key)
    }
}

/// The configuration that `settings` give: the values under the two keys,
/// or the error that a key is missing.
pub open spec fn resolved(settings: Seq<(Seq<char>, Seq<char>)>) -> Result<
    ConfigView,
    ConfigError,
> {
    match (setting(settings, base_path_key()), setting(settings, signature_db_key())) {
        (Some(base_path), Some(signature_db)) => Ok(ConfigView { base_path, signature_db }),
        _ => Err(ConfigError::MissingKey),
    }
}

/// What resolving gave, as a mathematical value.
pub open spec fn resolution_of(resolution: Result<ScanConfig, ConfigError>) -> Result<
    ConfigView,
    ConfigError,
> {
    match resolution {
        Ok(config) => Ok(config@),
        Err(error) => Err(error),
    }
}

/// The value of the first of `settings` with the key `key`.
fn lookup(settings: &Vec<(String, String)>, key: &str) -> (value: Option<String>)
    ensures
        match value {
            Some(text) => setting(settings_of(settings@), key@) == Some(text@),
            None => setting(settings_of(settings@), key@) is None,
        },
{
    let wanted = key.to_owned();
    let mut at: usize = 0;
    assert(settings_of(settings@).skip(0) =~= settings_of(settings@));
    while at < settings.len()
        invariant
            at <= settings.len(),
            wanted@ == key@,
            setting(settings_of(settings@), key@) == setting(
                settings_of(settings@).skip(at as int),
                key@,
            ),
        decreases settings.len() - at,
    {
        let ghost rest = settings_of(settings@).skip(at as int);
        assert(rest[0] == (settings@[at as int].0@, settings@[at as int].1@));
        if settings[at].0 == wanted {
            return Some(settings[at].1.clone());
        }
        assert(rest.skip(1) =~= settings_of(settings@).skip(at + 1));
        at += 1;
    }
    None
}

impl ScanConfig {
    /// The configuration with these two paths.
    pub fn new(base_path: String, signature_db: String) -> (config: ScanConfig)
        ensures
            config@ == (ConfigView { base_path: base_path@, signature_db: signature_db@ }),
    {
        ScanConfig { base_path, signature_db }
    }

    /// The configuration that the settings of a configuration file give.
    /// Of two settings with one key the first counts. Without either of the
    /// two keys there is no configuration.
    pub fn resolve(settings: &Vec<(String, String)>) -> (resolution: Result<
        ScanConfig,
        ConfigError,
    >)
        ensures
            resolution_of(resolution) == resolved(settings_of(settings@)),
    {
        let base_path = match lookup(settings, "GENERAL_BASE_PATH") {
            Some(base_path) => base_path,
            None => {
                return Err(ConfigError::MissingKey);
            },
        };
        let signature_db = match lookup(settings, "MALWARE_HASH") {
            Some(signature_db) => signature_db,
            None => {
                return Err(ConfigError::MissingKey);
            },
        };
        Ok(ScanConfig { base_path, signature_db })
    }

    /// The full path of the signature database: the base path with the
    /// relative path written after it, nothing between the two.
    pub fn database_path(&self) -> (path: String)
        ensures
            path@ == self@.base_path + self@.signature_db,
    {
        let mut path = self.base_path.clone();
        path.append(self.signature_db.as_str());
        path
    }
}

} // verus!
