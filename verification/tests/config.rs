use witch_craft::config::ScanConfig;
use witch_craft::error::ConfigError;

fn settings(pairs: &[(&str, &str)]) -> Vec<(String, String)> {
    pairs.iter().map(|(key, value)| (key.to_string(), value.to_string())).collect()
}

#[test]
fn the_database_path_is_the_two_paths_joined() {
    let config = ScanConfig::new(String::from("/var/witch_craft/"), String::from("db/malware.csv"));
    assert_eq!(config.database_path(), "/var/witch_craft/db/malware.csv");
}

#[test]
fn nothing_is_put_between_the_two_paths() {
    let config = ScanConfig::new(String::from("/var/witch_craft"), String::from("malware.csv"));
    assert_eq!(config.database_path(), "/var/witch_craftmalware.csv");
    let config = ScanConfig::new(String::new(), String::new());
    assert_eq!(config.database_path(), "");
}

#[test]
fn the_two_keys_give_the_configuration() {
    let resolved = ScanConfig::resolve(&settings(&[
        ("OTHER", "x"),
        ("MALWARE_HASH", "db/malware.csv"),
        ("GENERAL_BASE_PATH", "/var/witch_craft/"),
    ]));
    assert_eq!(
        resolved,
        Ok(ScanConfig::new(String::from("/var/witch_craft/"), String::from("db/malware.csv")))
    );
}

#[test]
fn the_first_setting_of_a_key_counts() {
    let resolved = ScanConfig::resolve(&settings(&[
        ("GENERAL_BASE_PATH", "/first/"),
        ("MALWARE_HASH", "one.csv"),
        ("GENERAL_BASE_PATH", "/second/"),
        ("MALWARE_HASH", "two.csv"),
    ]));
    assert_eq!(resolved.unwrap().database_path(), "/first/one.csv");
}

#[test]
fn a_missing_key_is_an_error() {
    assert_eq!(ScanConfig::resolve(&settings(&[])), Err(ConfigError::MissingKey));
    assert_eq!(
        ScanConfig::resolve(&settings(&[("GENERAL_BASE_PATH", "/var/")])),
        Err(ConfigError::MissingKey)
    );
    assert_eq!(
        ScanConfig::resolve(&settings(&[("MALWARE_HASH", "db.csv")])),
        Err(ConfigError::MissingKey)
    );
    assert_eq!(
        ScanConfig::resolve(&settings(&[("general_base_path", "/var/"), ("MALWARE_HASH", "db")])),
        Err(ConfigError::MissingKey)
    );
}
